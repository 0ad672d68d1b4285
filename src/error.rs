//! The single error kind shared by every layer of the codec.
use vstd::prelude::*;

verus! {

/// Failures of the byte source or sink.
#[derive(Debug, Clone, Copy, PartialEq, Eq, Structural)]
pub enum IoError {
    /// A read wanted bytes past the end of the source or past the RIFF budget.
    UnexpectedEof,
    /// The data would not fit the 32-bit size fields of the file.
    FileTooLarge,
}

/// The field of a `fmt ` chunk, or of a stream description, that broke a rule.
#[derive(Debug, Clone, Copy, PartialEq, Eq, Structural)]
pub enum FmtIssue {
    /// `channels` is zero.
    NoChannels,
    /// `bits_per_sample` is zero or not a multiple of 8.
    BitsNotByteMultiple,
    /// PCM with a cb_size field, and `bits_per_sample` outside 8..=24.
    PcmBitsPerSample,
    /// A PCM `fmt ` chunk whose size is neither 16 nor 18.
    PcmChunkSize,
    /// An IEEE float `fmt ` chunk whose size is not 18.
    FloatChunkSize,
    /// An IEEE float `fmt ` chunk whose cb_size is not 0.
    FloatCbSize,
    /// An extensible `fmt ` chunk whose size is not 40.
    ExtensibleChunkSize,
    /// An extensible `fmt ` chunk whose cb_size is not 22.
    ExtensibleCbSize,
    /// The encoder only takes PCM and IEEE float descriptions.
    EncoderFormat,
    /// The encoder was given a sample rate of zero.
    SampleRate,
    /// The bits per sample are not among those of the chosen format.
    FormatBitsPerSample,
    /// The byte rate of the stream does not fit in 32 bits.
    ByteRate,
}

/// Everything that can go wrong while decoding or encoding.
#[derive(Debug, Clone, Copy, PartialEq, Eq, Structural)]
pub enum Error {
    /// The byte source or sink failed.
    Io(IoError),
    /// The `RIFF` / `WAVE` magic is missing.
    WrongHeader,
    /// The `fmt ` chunk is missing, of an impossible size, or of an unknown tag.
    WrongFmt,
    /// A field of the `fmt ` chunk breaks a rule of its format.
    WrongFmtInfo(FmtIssue),
    /// A-law, mu-law, or an extensible sub-format other than PCM and IEEE float.
    Unsupported,
    /// No conversion between the sample type and bit depth of the stream and
    /// the sample at hand.
    Conversion { sample_type: crate::sample::SampleType, bits_per_sample: u16 },
}

} // verus!
