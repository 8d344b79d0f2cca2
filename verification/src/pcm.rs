use crate::error::MeterError;
use vstd::prelude::*;

verus! {

/// Bytes that one sample occupies in a captured frame.
pub const SAMPLE_BYTES: usize = 4;

/// Samples in one frame of the meter's capture buffer.
pub const FRAME_SAMPLES: usize = 512;

/// The signed 32-bit value that four little-endian bytes stand for.
pub open spec fn sample_value(b0: u8, b1: u8, b2: u8, b3: u8) -> int {
    let unsigned = b0 as int + 0x100 * (b1 as int) + 0x1_0000 * (b2 as int)
        + 0x100_0000 * (b3 as int);
    if unsigned >= 0x8000_0000 {
        unsigned - 0x1_0000_0000
    } else {
        unsigned
    }
}

/// The sample at position `i` of a frame given as raw bytes.
pub open spec fn sample_at(bytes: Seq<u8>, i: int) -> int {
    sample_value(bytes[4 * i], bytes[4 * i + 1], bytes[4 * i + 2], bytes[4 * i + 3])
}

/// The interleaved samples that a whole number of 4-byte groups stands for.
pub open spec fn decoded(bytes: Seq<u8>) -> Seq<i32> {
    Seq::new((bytes.len() / 4) as nat, |i: int| sample_at(bytes, i) as i32)
}

/// Every sample value fits the sample type, so `decoded` loses nothing.
pub proof fn lemma_sample_value_range(b0: u8, b1: u8, b2: u8, b3: u8)
    ensures
        i32::MIN <= sample_value(b0, b1, b2, b3) <= i32::MAX,
{
}

/// Number of bytes to request for a frame of `sample_count` samples, or
/// `None` when that count does not fit the machine's address range.
pub fn frame_byte_len(sample_count: usize) -> (len: Option<usize>)
    ensures
        match len {
            Some(n) => n == sample_count * SAMPLE_BYTES,
            None => sample_count * SAMPLE_BYTES > usize::MAX,
        },
{
    sample_count.checked_mul(SAMPLE_BYTES)
}

/// Decodes one sample from its four bytes, least significant first.
pub fn decode_sample(b0: u8, b1: u8, b2: u8, b3: u8) -> (sample: i32)
    ensures
        sample == sample_value(b0, b1, b2, b3),
{
    let unsigned: i64 = b0 as i64 + 0x100 * (b1 as i64) + 0x1_0000 * (b2 as i64)
        + 0x100_0000 * (b3 as i64);
    if unsigned >= 0x8000_0000 {
        (unsigned - 0x1_0000_0000) as i32
    } else {
        unsigned as i32
    }
}

/// Decodes a captured frame into its samples, in arrival order.
///
/// A frame is a whole number of samples; a buffer that ends inside a sample
/// is a short read and is refused.
pub fn decode_frame(bytes: &[u8]) -> (result: Result<Vec<i32>, MeterError>)
    ensures
        bytes@.len() % 4 == 0 ==> result is Ok && result->Ok_0@ == decoded(bytes@),
        bytes@.len() % 4 != 0 ==> result == Err::<Vec<i32>, MeterError>(MeterError::Read),
{
    let len: usize = bytes.len();
    if len % SAMPLE_BYTES != 0 {
        return Err(MeterError::Read);
    }
    let count: usize = len / SAMPLE_BYTES;
    let mut samples: Vec<i32> = Vec::with_capacity(count);
    let mut i: usize = 0;
    while i < count
        invariant
            len == bytes@.len(),
            len == 4 * count,
            i <= count,
            samples@.len() == i,
            forall|j: int| 0 <= j < i ==> samples@[j] == sample_at(bytes@, j),
        decreases count - i,
    {
        let base: usize = 4 * i;
        samples.push(
            decode_sample(bytes[base], bytes[base + 1], bytes[base + 2], bytes[base + 3]),
        );
        i = i + 1;
    }
    assert(samples@ =~= decoded(bytes@));
    Ok(samples)
}

} // verus!
