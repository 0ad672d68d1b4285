//! A streaming codec for RIFF/WAVE audio: a bounded chunk scanner and `fmt `
//! parser, a sample conversion matrix, a decoder over the bytes of a file and
//! an encoder that backpatches the RIFF and data sizes when it finishes.
use vstd::prelude::*;

pub mod bytes;
pub mod sample;
pub mod error;
pub mod reader;
pub mod tools;
pub mod wav;
pub mod writer;

pub use error::{Error, FmtIssue, IoError};
pub use reader::LgVecReader;
pub use sample::{RawSample, SampleType};
pub use wav::decoder::LgWavDecoder;
pub use wav::encoder::LgWavEncoder;
pub use wav::{WavFmt, WavFmtTag};
pub use writer::LgVecWriter;

verus! {

/// What any audio stream is: its channels, rate, sample width and encoding.
#[derive(Default, Debug, Clone, Copy, PartialEq, Eq, Structural)]
pub struct AudioInfo {
    pub channels: u16,
    pub sample_rate: u32,
    pub bits_per_sample: u16,
    pub sample_type: Option<SampleType>,
}

} // verus!
