//! Core of a live output-level meter: frame decoding, loudness, the display
//! line, the audio-server handshake and the volume-control protocol, all as
//! pure functions over plain values.

pub mod control;
pub mod decimal;
pub mod error;
pub mod level;
pub mod meter;
pub mod pcm;
pub mod render;
pub mod reply;
pub mod session;
pub mod stream;
pub mod volume;
