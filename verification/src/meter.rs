use crate::error::MeterError;
use crate::level::{level_of, lemma_silent_frame_level, rms, Level};
use crate::pcm::{decode_frame, decoded};
use crate::render::{lemma_zero_level_line, level_line, render, silent_line};
use vstd::prelude::*;

verus! {

/// Loudness of one captured frame, given as the bytes that were read.
///
/// A buffer that is not a whole number of samples is a short read.
pub fn measure(frame: &[u8]) -> (result: Result<Level, MeterError>)
    ensures
        frame@.len() % 4 == 0 ==> result == Ok::<Level, MeterError>(level_of(decoded(frame@))),
        frame@.len() % 4 != 0 ==> result == Err::<Level, MeterError>(MeterError::Read),
{
    match decode_frame(frame) {
        Ok(samples) => Ok(rms(samples.as_slice())),
        Err(error) => Err(error),
    }
}

/// The display line for one captured frame, given as the bytes that were
/// read.
pub fn meter_line(frame: &[u8]) -> (result: Result<String, MeterError>)
    ensures
        frame@.len() % 4 == 0 ==> result is Ok && result->Ok_0@ == level_line(
            level_of(decoded(frame@)),
        ),
        frame@.len() % 4 != 0 ==> result is Err && result->Err_0 == MeterError::Read,
{
    match measure(frame) {
        Ok(level) => Ok(render(level)),
        Err(error) => Err(error),
    }
}

/// A frame of zero bytes is shown as silence.
pub proof fn lemma_silent_frame_line(frame: Seq<u8>)
    requires
        forall|i: int| 0 <= i < frame.len() ==> frame[i] == 0,
    ensures
        level_line(level_of(decoded(frame))) == silent_line(),
{
    lemma_silent_frame_level(decoded(frame));
    lemma_zero_level_line();
}

} // verus!
