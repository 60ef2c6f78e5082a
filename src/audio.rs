//! Sound playback: the mixing engine, its command protocol and the
//! control-plane handle, plus the format negotiation of the output device.

pub mod laws;
pub mod mixer;
pub mod model;
pub mod sound_driver;

use vstd::prelude::*;

verus! {

/// How setting up the output device went.
#[derive(Clone, Copy, Debug, PartialEq, Eq, Structural)]
pub enum SoundError {
    /// The device is open.
    NoError,
    /// There is no output device.
    NoDevice,
    /// No output stream could be made.
    OutputStream,
    /// The device's stream format could not be had.
    UnknownStreamFormat,
}

impl SoundError {
    /// A line of text for the status.
    pub fn message(&self) -> (r: &'static str)
        ensures
            r@ == match self {
                SoundError::NoError => "No error"@,
                SoundError::NoDevice => "No device!"@,
                SoundError::OutputStream => "Failed on output stream creation!"@,
                SoundError::UnknownStreamFormat => "Unknown stream format!"@,
            },
    {
        match self {
            SoundError::NoError => "No error",
            SoundError::NoDevice => "No device!",
            SoundError::OutputStream => "Failed on output stream creation!",
            SoundError::UnknownStreamFormat => "Unknown stream format!",
        }
    }
}

} // verus!
