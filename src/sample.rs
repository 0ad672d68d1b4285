//! The sample conversion matrix: which (sample type, bits per sample) pairs a
//! stream may have, how a sample of each is laid out in the data chunk, and
//! the in-memory value it stands for.
//!
//! Integer samples are carried as `i32`; float samples as the bit pattern of
//! the IEEE value (`f32::to_bits`, `f64::to_bits`), so that the layout is
//! exact and no arithmetic on floats is needed here.
use vstd::prelude::*;
use crate::bytes::{bits32, i24_of, le16, le24, le32, le64, signed16, signed32, u16_of, u32_of, u64_of};
use crate::error::Error;

verus! {

/// How the samples of a stream are encoded.
#[derive(Debug, Clone, Copy, PartialEq, Eq, Structural)]
pub enum SampleType {
    INT,
    FLOAT,
}

/// One sample as it comes out of, or goes into, a data chunk.
#[derive(Debug, Clone, Copy, PartialEq, Eq, Structural)]
pub enum RawSample {
    /// An integer sample, widened to 32 bits.
    Int(i32),
    /// The bits of a 32-bit IEEE float sample.
    Float32(u32),
    /// The bits of a 64-bit IEEE float sample.
    Float64(u64),
}

/// The pairs of the matrix.
pub open spec fn supported(st: SampleType, bits: u16) -> bool {
    match st {
        SampleType::INT => bits == 8 || bits == 16 || bits == 24 || bits == 32,
        SampleType::FLOAT => bits == 32 || bits == 64,
    }
}

/// The sample that the `bits / 8` bytes `b` hold in a stream of type `st`.
pub open spec fn sample_of(st: SampleType, bits: u16, b: Seq<u8>) -> RawSample {
    match st {
        SampleType::INT => if bits == 8 {
            RawSample::Int((b[0] - 128) as i32)
        } else if bits == 16 {
            RawSample::Int(signed16(u16_of(b)))
        } else if bits == 24 {
            RawSample::Int(i24_of(b))
        } else {
            RawSample::Int(signed32(u32_of(b)))
        },
        SampleType::FLOAT => if bits == 32 {
            RawSample::Float32(u32_of(b))
        } else {
            RawSample::Float64(u64_of(b))
        },
    }
}

/// `x` clamped to the range of a signed 24-bit integer.
pub open spec fn clamp24(x: i32) -> i32 {
    if x < -0x80_0000 {
        -0x80_0000i32
    } else if x > 0x7f_ffff {
        0x7f_ffff
    } else {
        x
    }
}

/// Whether `s` is a sample that a stream of type `st` at `bits` can hold.
/// Integers keep their low bits at 8 and 16 bits and are clamped at 24.
pub open spec fn fits_stream(st: SampleType, bits: u16, s: RawSample) -> bool {
    supported(st, bits) && match s {
        RawSample::Int(_) => st == SampleType::INT,
        RawSample::Float32(_) => st == SampleType::FLOAT && bits == 32,
        RawSample::Float64(_) => st == SampleType::FLOAT && bits == 64,
    }
}

/// The bytes that stand for `s` in a stream of type `st` at `bits`.
pub open spec fn bytes_of(st: SampleType, bits: u16, s: RawSample) -> Seq<u8> {
    match s {
        RawSample::Int(x) => if bits == 8 {
            seq![((bits32(x) + 128) % 256) as u8]
        } else if bits == 16 {
            le16((bits32(x) % 0x1_0000) as u16)
        } else if bits == 24 {
            le24(clamp24(x))
        } else {
            le32(bits32(x))
        },
        RawSample::Float32(b) => le32(b),
        RawSample::Float64(b) => le64(b),
    }
}

/// The data chunk bytes of the samples `xs`, one after another.
pub open spec fn data_of(st: SampleType, bits: u16, xs: Seq<RawSample>) -> Seq<u8>
    decreases xs.len(),
{
    if xs.len() == 0 {
        Seq::empty()
    } else {
        data_of(st, bits, xs.drop_last()) + bytes_of(st, bits, xs.last())
    }
}

/// A sample that suits a stream takes `bits / 8` bytes.
pub proof fn lemma_bytes_of_len(st: SampleType, bits: u16, s: RawSample)
    requires
        fits_stream(st, bits, s),
    ensures
        bytes_of(st, bits, s).len() == bits / 8,
{
}

/// The data bytes of a prefix of `xs` are no more than those of `xs`.
pub proof fn lemma_data_of_prefix_len(st: SampleType, bits: u16, xs: Seq<RawSample>, i: int)
    requires
        0 <= i <= xs.len(),
    ensures
        data_of(st, bits, xs.subrange(0, i)).len() <= data_of(st, bits, xs).len(),
    decreases xs.len(),
{
    if i < xs.len() {
        assert(xs.drop_last().subrange(0, i) =~= xs.subrange(0, i));
        lemma_data_of_prefix_len(st, bits, xs.drop_last(), i);
    } else {
        assert(xs.subrange(0, i) =~= xs);
    }
}

/// Whether the sample `s` is held exactly at `bits`: an integer within the
/// signed range of that width, or a float of that width.
pub open spec fn exact_at(st: SampleType, bits: u16, s: RawSample) -> bool {
    fits_stream(st, bits, s) && match s {
        RawSample::Int(x) => if bits == 8 {
            -128 <= x < 128
        } else if bits == 16 {
            -0x8000 <= x < 0x8000
        } else if bits == 24 {
            -0x80_0000 <= x < 0x80_0000
        } else {
            true
        },
        _ => true,
    }
}

/// A sample written at `bits` and read back at `bits` is the sample itself,
/// when the width holds it exactly.
pub proof fn lemma_sample_round_trip(st: SampleType, bits: u16, s: RawSample)
    requires
        exact_at(st, bits, s),
    ensures
        bytes_of(st, bits, s).len() == bits / 8,
        sample_of(st, bits, bytes_of(st, bits, s)) == s,
{
    match s {
        RawSample::Int(x) => {
            if bits == 8 {
                crate::bytes::lemma_i8_round_trip(x);
                assert(sample_of(st, bits, bytes_of(st, bits, s)) == s);
            } else if bits == 16 {
                crate::bytes::lemma_u16_round_trip((bits32(x) % 0x1_0000) as u16);
                crate::bytes::lemma_i16_round_trip(x);
                assert(sample_of(st, bits, bytes_of(st, bits, s)) == s);
            } else if bits == 24 {
                crate::bytes::lemma_i24_round_trip(x);
                assert(sample_of(st, bits, bytes_of(st, bits, s)) == s);
            } else {
                crate::bytes::lemma_u32_round_trip(bits32(x));
                assert(u32_of(bytes_of(st, bits, s)) == bits32(x));
                assert(signed32(bits32(x)) == x);
            }
        },
        RawSample::Float32(b) => crate::bytes::lemma_u32_round_trip(b),
        RawSample::Float64(b) => crate::bytes::lemma_u64_round_trip(b),
    }
}

/// Checks that the matrix has the pair (`st`, `bits`).
pub fn check_supported(st: SampleType, bits: u16) -> (r: Result<(), Error>)
    ensures
        r is Ok <==> supported(st, bits),
        r is Err ==> r == Err::<(), Error>(Error::Conversion { sample_type: st, bits_per_sample: bits }),
{
    match st {
        SampleType::INT => if bits == 8 || bits == 16 || bits == 24 || bits == 32 {
            return Ok(());
        },
        SampleType::FLOAT => if bits == 32 || bits == 64 {
            return Ok(());
        },
    }
    Err(Error::Conversion { sample_type: st, bits_per_sample: bits })
}

} // verus!
