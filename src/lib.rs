//! A real-time software mixer that turns independently controlled sounds
//! into one interleaved stereo signal, with the line plotting and clipped
//! blitting helpers used to draw the frames that go with it.

pub mod audio;
pub mod image_rendering;
