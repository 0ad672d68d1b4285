//! RIFF/WAVE: the format tags, the stream description, and the bounded
//! reader, decoder, writer and encoder built on them.
use vstd::prelude::*;
use crate::sample::SampleType;

pub mod chunk;
pub mod decoder;
pub mod encoder;
pub mod parser;
pub mod proofs;
pub mod reader;
pub mod writer;

verus! {

pub const WAVE_FORMAT_PCM: u16 = 0x0001;
pub const WAVE_FORMAT_IEEE_FLOAT: u16 = 0x0003;
pub const WAVE_FORMAT_ALAW: u16 = 0x0006;
pub const WAVE_FORMAT_MULAW: u16 = 0x0007;
pub const WAVE_FORMAT_EXTENSIBLE: u16 = 0xFFFE;

/// The format tag of a `fmt ` chunk.
#[allow(non_camel_case_types)]
#[derive(Default, Debug, Clone, Copy, PartialEq, Eq, Structural)]
pub enum WavFmtTag {
    #[default]
    WAVE_FORMAT_PCM,
    WAVE_FORMAT_IEEE_FLOAT,
    WAVE_FORMAT_ALAW,
    WAVE_FORMAT_MULAW,
    WAVE_FORMAT_EXTENSIBLE,
    OTHER(u16),
}

/// The tag that a code of a `fmt ` chunk stands for.
pub open spec fn tag_of(code: u16) -> WavFmtTag {
    if code == WAVE_FORMAT_PCM {
        WavFmtTag::WAVE_FORMAT_PCM
    } else if code == WAVE_FORMAT_IEEE_FLOAT {
        WavFmtTag::WAVE_FORMAT_IEEE_FLOAT
    } else if code == WAVE_FORMAT_ALAW {
        WavFmtTag::WAVE_FORMAT_ALAW
    } else if code == WAVE_FORMAT_MULAW {
        WavFmtTag::WAVE_FORMAT_MULAW
    } else if code == WAVE_FORMAT_EXTENSIBLE {
        WavFmtTag::WAVE_FORMAT_EXTENSIBLE
    } else {
        WavFmtTag::OTHER(code)
    }
}

/// The code that a tag is written as.
pub open spec fn code_of(tag: WavFmtTag) -> u16 {
    match tag {
        WavFmtTag::WAVE_FORMAT_PCM => WAVE_FORMAT_PCM,
        WavFmtTag::WAVE_FORMAT_IEEE_FLOAT => WAVE_FORMAT_IEEE_FLOAT,
        WavFmtTag::WAVE_FORMAT_ALAW => WAVE_FORMAT_ALAW,
        WavFmtTag::WAVE_FORMAT_MULAW => WAVE_FORMAT_MULAW,
        WavFmtTag::WAVE_FORMAT_EXTENSIBLE => WAVE_FORMAT_EXTENSIBLE,
        WavFmtTag::OTHER(code) => code,
    }
}

impl WavFmtTag {
    /// The tag that `code` stands for.
    pub fn from_code(code: u16) -> (r: Self)
        ensures
            r == tag_of(code),
    {
        if code == WAVE_FORMAT_PCM {
            WavFmtTag::WAVE_FORMAT_PCM
        } else if code == WAVE_FORMAT_IEEE_FLOAT {
            WavFmtTag::WAVE_FORMAT_IEEE_FLOAT
        } else if code == WAVE_FORMAT_ALAW {
            WavFmtTag::WAVE_FORMAT_ALAW
        } else if code == WAVE_FORMAT_MULAW {
            WavFmtTag::WAVE_FORMAT_MULAW
        } else if code == WAVE_FORMAT_EXTENSIBLE {
            WavFmtTag::WAVE_FORMAT_EXTENSIBLE
        } else {
            WavFmtTag::OTHER(code)
        }
    }

    /// The code this tag is written as.
    pub fn code(self) -> (r: u16)
        ensures
            r == code_of(self),
    {
        match self {
            WavFmtTag::WAVE_FORMAT_PCM => WAVE_FORMAT_PCM,
            WavFmtTag::WAVE_FORMAT_IEEE_FLOAT => WAVE_FORMAT_IEEE_FLOAT,
            WavFmtTag::WAVE_FORMAT_ALAW => WAVE_FORMAT_ALAW,
            WavFmtTag::WAVE_FORMAT_MULAW => WAVE_FORMAT_MULAW,
            WavFmtTag::WAVE_FORMAT_EXTENSIBLE => WAVE_FORMAT_EXTENSIBLE,
            WavFmtTag::OTHER(code) => code,
        }
    }
}

/// A stream description: what a `fmt ` chunk says, or what the caller of an
/// encoder asks for.
///
/// For an extensible stream `sub_format` is the format its sub-format GUID
/// names, and `bits_per_sample` is the valid bits per sample when the chunk
/// gives them; for any other stream `sub_format` is `format`.
#[derive(Default, Debug, Clone, Copy, PartialEq, Eq, Structural)]
pub struct WavFmt {
    pub format: WavFmtTag,
    pub channels: u16,
    pub sample_rate: u32,
    pub bits_per_sample: u16,
    pub valid_bits_per_sample: u16,
    pub channel_mask: u32,
    pub sub_format: WavFmtTag,
}

/// How the samples of a stream described by `fmt` are encoded.
pub open spec fn sample_type_of(fmt: WavFmt) -> SampleType {
    if fmt.sub_format == WavFmtTag::WAVE_FORMAT_IEEE_FLOAT {
        SampleType::FLOAT
    } else {
        SampleType::INT
    }
}

/// The decoder of a WAVE file.
pub type LgWav = decoder::LgWavDecoder;

impl WavFmt {
    /// The stream as a format-neutral description.
    pub fn audio_info(&self) -> (r: crate::AudioInfo)
        ensures
            r.channels == self.channels,
            r.sample_rate == self.sample_rate,
            r.bits_per_sample == self.bits_per_sample,
            r.sample_type == Some(sample_type_of(*self)),
    {
        crate::AudioInfo {
            channels: self.channels,
            sample_rate: self.sample_rate,
            bits_per_sample: self.bits_per_sample,
            sample_type: Some(self.sample_type()),
        }
    }

    /// How the samples of this stream are encoded.
    pub fn sample_type(&self) -> (r: SampleType)
        ensures
            r == sample_type_of(*self),
    {
        match self.sub_format {
            WavFmtTag::WAVE_FORMAT_IEEE_FLOAT => SampleType::FLOAT,
            _ => SampleType::INT,
        }
    }
}

} // verus!
