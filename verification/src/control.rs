use crate::error::{VolumeQueryError, VolumeSetError};
use crate::reply::{parse_volume, parse_volume_reply, volume_of_reply, volume_of_text};
use crate::volume::{volume_text, Volume};
use vstd::prelude::*;
use vstd::string::StringExecFns;

verus! {

/// Arguments that ask the control utility for the volume of `sink`.
pub open spec fn query_arguments(sink: Seq<char>) -> Seq<Seq<char>> {
    seq!["get-volume"@, sink]
}

/// Arguments that ask the control utility to set the volume of `sink` to
/// the number that `value` writes.
pub open spec fn set_arguments(sink: Seq<char>, value: Seq<char>) -> Seq<Seq<char>> {
    seq!["set-volume"@, sink, value]
}

/// One run of the control utility, and what to say on the error channel
/// before it.
#[derive(Debug, PartialEq, Eq)]
pub struct Request {
    pub notice: Option<VolumeSetError>,
    pub arguments: Vec<String>,
}

/// Which run of the control utility is under way.
#[derive(Clone, Copy, Debug, PartialEq, Eq, Structural)]
pub enum Pending {
    /// The utility is setting the volume.
    Applying,
    /// The utility is reporting the volume.
    Querying,
}

/// What follows a run of the control utility.
#[derive(Debug, PartialEq, Eq)]
pub enum Step {
    /// Another run.
    Run(Pending, Request),
    /// The end: the volume that the utility reported, or why its reply
    /// could not be read.
    Done(Result<Volume, VolumeQueryError>),
}

/// The selector that names whatever output is the default.
pub fn default_sink() -> (sink: &'static str)
    ensures
        sink@ == "@DEFAULT_AUDIO_SINK@"@,
{
    "@DEFAULT_AUDIO_SINK@"
}

/// The run that asks for the volume of `sink`.
pub fn query_command(sink: &str) -> (arguments: Vec<String>)
    ensures
        arguments.deep_view() == query_arguments(sink@),
{
    let mut arguments: Vec<String> = Vec::new();
    arguments.push(String::from_str("get-volume"));
    arguments.push(String::from_str(sink));
    assert(arguments.deep_view() =~= query_arguments(sink@));
    arguments
}

/// The run that sets the volume of `sink` to `volume`.
pub fn set_command(sink: &str, volume: Volume) -> (arguments: Vec<String>)
    ensures
        arguments.deep_view() == set_arguments(sink@, volume_text(volume)),
{
    let mut arguments: Vec<String> = Vec::new();
    arguments.push(String::from_str("set-volume"));
    arguments.push(String::from_str(sink));
    arguments.push(volume.to_text());
    assert(arguments.deep_view() =~= set_arguments(sink@, volume_text(volume)));
    arguments
}

/// Starts reading the volume of `sink`: one query.
pub fn begin_get(sink: &str) -> (first: (Pending, Request))
    ensures
        first.0 == Pending::Querying,
        first.1.notice is None,
        first.1.arguments.deep_view() == query_arguments(sink@),
{
    (Pending::Querying, Request { notice: None, arguments: query_command(sink) })
}

/// Starts setting the volume of `sink` to `requested`.
///
/// A volume of at most one is handed to the utility. A larger one is
/// refused: the volume is left as it is, the refusal is to be reported, and
/// the run that follows only asks for the current volume.
pub fn begin_set(sink: &str, requested: Volume) -> (first: (Pending, Request))
    ensures
        requested.in_unit_range() ==> {
            &&& first.0 == Pending::Applying
            &&& first.1.notice is None
            &&& first.1.arguments.deep_view() == set_arguments(sink@, volume_text(requested))
        },
        !requested.in_unit_range() ==> {
            &&& first.0 == Pending::Querying
            &&& first.1.notice == Some(VolumeSetError::OutOfRange)
            &&& first.1.arguments.deep_view() == query_arguments(sink@)
        },
{
    if requested.is_in_unit_range() {
        (Pending::Applying, Request { notice: None, arguments: set_command(sink, requested) })
    } else {
        (
            Pending::Querying,
            Request { notice: Some(VolumeSetError::OutOfRange), arguments: query_command(sink) },
        )
    }
}

/// Starts setting the volume of `sink` to the number that `requested`
/// writes.
///
/// Text that is no volume at all, such as a negative number or one that is
/// not a number, is refused like a volume above one.
pub fn begin_set_text(sink: &str, requested: &str) -> (first: (Pending, Request))
    ensures
        match volume_of_text(requested@) {
            Ok(volume) if volume.in_unit_range() => {
                &&& first.0 == Pending::Applying
                &&& first.1.notice is None
                &&& first.1.arguments.deep_view() == set_arguments(sink@, volume_text(volume))
            },
            _ => {
                &&& first.0 == Pending::Querying
                &&& first.1.notice == Some(VolumeSetError::OutOfRange)
                &&& first.1.arguments.deep_view() == query_arguments(sink@)
            },
        },
{
    match parse_volume(requested) {
        Ok(volume) => begin_set(sink, volume),
        Err(_) => (
            Pending::Querying,
            Request { notice: Some(VolumeSetError::OutOfRange), arguments: query_command(sink) },
        ),
    }
}

/// Takes the end of a run of the utility, whether it `succeeded` and what
/// it wrote as `output`, and says what follows.
///
/// After setting comes a query, whether setting succeeded or not; a failure
/// is to be reported and does not end the exchange. After a query the
/// exchange is done, and its result is what the utility reported: never the
/// volume that was asked for.
pub fn advance(pending: Pending, sink: &str, succeeded: bool, output: &str) -> (step: Step)
    ensures
        pending is Applying ==> {
            &&& step matches Step::Run(then, request)
            &&& then == Pending::Querying
            &&& request.notice == if succeeded {
                None
            } else {
                Some(VolumeSetError::CommandFailed)
            }
            &&& request.arguments.deep_view() == query_arguments(sink@)
        },
        pending is Querying ==> {
            &&& step matches Step::Done(result)
            &&& result == volume_of_reply(output@)
        },
{
    match pending {
        Pending::Applying => {
            let notice: Option<VolumeSetError> = if succeeded {
                None
            } else {
                Some(VolumeSetError::CommandFailed)
            };
            Step::Run(Pending::Querying, Request { notice, arguments: query_command(sink) })
        },
        Pending::Querying => Step::Done(parse_volume_reply(output)),
    }
}

} // verus!
