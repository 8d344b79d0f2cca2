use auto_volume::error::{MeterError, VolumeQueryError, VolumeSetError};

#[test]
fn meter_errors_describe_themselves() {
    assert_eq!(MeterError::Connection.describe(), "Could not connect to the audio server");
    assert_eq!(MeterError::Resolution.describe(), "No default sink found");
    assert_eq!(MeterError::Read.describe(), "Could not read a whole frame");
}

#[test]
fn volume_errors_describe_themselves() {
    assert_eq!(VolumeQueryError::ShortReply.describe(), "Volume reply is too short");
    assert_eq!(VolumeQueryError::Malformed.describe(), "Volume reply holds no decimal number");
    assert_eq!(VolumeQueryError::TooPrecise.describe(), "Volume reply has too many digits");
    assert_eq!(VolumeSetError::OutOfRange.describe(), "Volume invalid! (Must be between 0 and 1)");
    assert_eq!(VolumeSetError::CommandFailed.describe(), "Failed to set the volume");
}
