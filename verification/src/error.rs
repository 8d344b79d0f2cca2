use vstd::prelude::*;

verus! {

/// Why the metering path stopped.
#[derive(Clone, Copy, Debug, PartialEq, Eq, Structural)]
pub enum MeterError {
    /// The audio server failed or went away before the connection was ready.
    Connection,
    /// The audio server reported no default output device.
    Resolution,
    /// A frame could not be read in full.
    Read,
}

/// Why the reply to a volume query could not be read.
#[derive(Clone, Copy, Debug, PartialEq, Eq, Structural)]
pub enum VolumeQueryError {
    /// The reply is shorter than the prefix that precedes the number.
    ShortReply,
    /// What follows the prefix is not a decimal number.
    Malformed,
    /// The number has more digits than a volume can hold.
    TooPrecise,
}

/// What went wrong with a request to set the volume. Neither is fatal: the
/// current volume is reported all the same.
#[derive(Clone, Copy, Debug, PartialEq, Eq, Structural)]
pub enum VolumeSetError {
    /// The requested volume is above one; nothing was changed.
    OutOfRange,
    /// The control utility reported failure.
    CommandFailed,
}

impl MeterError {
    /// The message that tells a user of this error.
    pub open spec fn message(self) -> Seq<char> {
        match self {
            MeterError::Connection => "Could not connect to the audio server"@,
            MeterError::Resolution => "No default sink found"@,
            MeterError::Read => "Could not read a whole frame"@,
        }
    }

    /// A short description for the user.
    pub fn describe(&self) -> (text: &'static str)
        ensures
            text@ == self.message(),
    {
        match self {
            MeterError::Connection => "Could not connect to the audio server",
            MeterError::Resolution => "No default sink found",
            MeterError::Read => "Could not read a whole frame",
        }
    }
}

impl VolumeQueryError {
    /// The message that tells a user of this error.
    pub open spec fn message(self) -> Seq<char> {
        match self {
            VolumeQueryError::ShortReply => "Volume reply is too short"@,
            VolumeQueryError::Malformed => "Volume reply holds no decimal number"@,
            VolumeQueryError::TooPrecise => "Volume reply has too many digits"@,
        }
    }

    /// A short description for the user.
    pub fn describe(&self) -> (text: &'static str)
        ensures
            text@ == self.message(),
    {
        match self {
            VolumeQueryError::ShortReply => "Volume reply is too short",
            VolumeQueryError::Malformed => "Volume reply holds no decimal number",
            VolumeQueryError::TooPrecise => "Volume reply has too many digits",
        }
    }
}

impl VolumeSetError {
    /// The message that tells a user of this error.
    pub open spec fn message(self) -> Seq<char> {
        match self {
            VolumeSetError::OutOfRange => "Volume invalid! (Must be between 0 and 1)"@,
            VolumeSetError::CommandFailed => "Failed to set the volume"@,
        }
    }

    /// A short description for the user.
    pub fn describe(&self) -> (text: &'static str)
        ensures
            text@ == self.message(),
    {
        match self {
            VolumeSetError::OutOfRange => "Volume invalid! (Must be between 0 and 1)",
            VolumeSetError::CommandFailed => "Failed to set the volume",
        }
    }
}

} // verus!
