//! The `fmt ` chunk as it stands in a file, every field kept.
use vstd::prelude::*;
use crate::bytes::{le16, le32, le64, push_all, u16_from_le, u16_of, u32_from_le, u32_of, u64_of};
use crate::error::Error;
use crate::reader::LgVecReader;

verus! {

/// The format tags that a `fmt ` chunk of this form may carry.
#[allow(non_camel_case_types)]
#[derive(Default, Debug, Clone, Copy, PartialEq, Eq, Structural)]
pub enum WavFormatType {
    #[default]
    WAVE_FORMAT_PCM,
    WAVE_FORMAT_IEEE_FLOAT,
    WAVE_FORMAT_ALAW,
    WAVE_FORMAT_MULAW,
    WAVE_FORMAT_EXTENSIBLE,
}

/// The format type a code stands for, if any.
pub open spec fn format_type_of(code: u16) -> Option<WavFormatType> {
    if code == 0x0001 {
        Some(WavFormatType::WAVE_FORMAT_PCM)
    } else if code == 0x0003 {
        Some(WavFormatType::WAVE_FORMAT_IEEE_FLOAT)
    } else if code == 0x0006 {
        Some(WavFormatType::WAVE_FORMAT_ALAW)
    } else if code == 0x0007 {
        Some(WavFormatType::WAVE_FORMAT_MULAW)
    } else if code == 0xFFFE {
        Some(WavFormatType::WAVE_FORMAT_EXTENSIBLE)
    } else {
        None
    }
}

/// The code a format type is written as.
pub open spec fn format_code(t: WavFormatType) -> u16 {
    match t {
        WavFormatType::WAVE_FORMAT_PCM => 0x0001,
        WavFormatType::WAVE_FORMAT_IEEE_FLOAT => 0x0003,
        WavFormatType::WAVE_FORMAT_ALAW => 0x0006,
        WavFormatType::WAVE_FORMAT_MULAW => 0x0007,
        WavFormatType::WAVE_FORMAT_EXTENSIBLE => 0xFFFE,
    }
}

impl WavFormatType {
    /// The format type `code` stands for, if any.
    pub fn from_code(code: u16) -> (r: Option<Self>)
        ensures
            r == format_type_of(code),
    {
        if code == 0x0001 {
            Some(WavFormatType::WAVE_FORMAT_PCM)
        } else if code == 0x0003 {
            Some(WavFormatType::WAVE_FORMAT_IEEE_FLOAT)
        } else if code == 0x0006 {
            Some(WavFormatType::WAVE_FORMAT_ALAW)
        } else if code == 0x0007 {
            Some(WavFormatType::WAVE_FORMAT_MULAW)
        } else if code == 0xFFFE {
            Some(WavFormatType::WAVE_FORMAT_EXTENSIBLE)
        } else {
            None
        }
    }

    /// The code this format type is written as.
    pub fn code(self) -> (r: u16)
        ensures
            r == format_code(self),
    {
        match self {
            WavFormatType::WAVE_FORMAT_PCM => 0x0001,
            WavFormatType::WAVE_FORMAT_IEEE_FLOAT => 0x0003,
            WavFormatType::WAVE_FORMAT_ALAW => 0x0006,
            WavFormatType::WAVE_FORMAT_MULAW => 0x0007,
            WavFormatType::WAVE_FORMAT_EXTENSIBLE => 0xFFFE,
        }
    }
}

/// A `fmt ` chunk with every field of the extensible form; a shorter chunk
/// leaves the later fields zero.
#[derive(Default, Debug, Clone, Copy, PartialEq, Eq, Structural)]
pub struct WavFmtChunk {
    pub ck_size: usize,
    pub fmt_tag: WavFormatType,
    pub number_channels: u16,
    pub samples_per_sec: u32,
    pub avg_bytes_per_sec: u32,
    pub block_align: u16,
    pub bits_per_sample: u16,
    pub cb_size: u16,
    pub valid_bits_per_sample: u16,
    pub channel_mask: u32,
    pub sub_format: u128,
}

/// The value of sixteen little-endian bytes.
pub open spec fn u128_of(s: Seq<u8>) -> u128 {
    (u64_of(s.subrange(0, 8)) + 0x1_0000_0000_0000_0000 * u64_of(s.subrange(8, 16))) as u128
}

/// The sixteen little-endian bytes of `x`.
pub open spec fn le128(x: u128) -> Seq<u8> {
    le64((x % 0x1_0000_0000_0000_0000) as u64) + le64((x / 0x1_0000_0000_0000_0000) as u64)
}

/// The chunk that the 40 bytes `p` (the body, padded with zeros) hold, for a
/// tag the codec knows.
pub open spec fn fmt_chunk_of(ck_size: usize, tag: WavFormatType, p: Seq<u8>) -> WavFmtChunk {
    WavFmtChunk {
        ck_size,
        fmt_tag: tag,
        number_channels: u16_of(p.subrange(2, 4)),
        samples_per_sec: u32_of(p.subrange(4, 8)),
        avg_bytes_per_sec: u32_of(p.subrange(8, 12)),
        block_align: u16_of(p.subrange(12, 14)),
        bits_per_sample: u16_of(p.subrange(14, 16)),
        cb_size: u16_of(p.subrange(16, 18)),
        valid_bits_per_sample: u16_of(p.subrange(18, 20)),
        channel_mask: u32_of(p.subrange(20, 24)),
        sub_format: u128_of(p.subrange(24, 40)),
    }
}

/// Every field of `c` in file order, after its size.
pub open spec fn fmt_fields(c: WavFmtChunk) -> Seq<u8> {
    le16(format_code(c.fmt_tag)) + le16(c.number_channels) + le32(c.samples_per_sec) + le32(
        c.avg_bytes_per_sec,
    ) + le16(c.block_align) + le16(c.bits_per_sample) + le16(c.cb_size) + le16(c.valid_bits_per_sample)
        + le32(c.channel_mask) + le128(c.sub_format)
}

/// The bytes `to_bytes` gives: the fields cut to the declared size (at most
/// all 40 of them), after a size field that gives their length.
pub open spec fn fmt_chunk_bytes_of(c: WavFmtChunk) -> Seq<u8> {
    let n = fmt_written_len(c);
    le32(n as u32) + fmt_fields(c).subrange(0, n)
}

/// How many bytes of fields `to_bytes` writes: the declared size, at most
/// the 40 bytes of fields there are.
pub open spec fn fmt_written_len(c: WavFmtChunk) -> int {
    if c.ck_size < 40 {
        c.ck_size as int
    } else {
        40
    }
}

/// The chunk that a `fmt ` body of `ck_size` bytes at `p0` in `s` holds.
#[verifier::opaque]
pub open spec fn fmt_chunk_read(s: Seq<u8>, p0: int, ck_size: usize) -> Result<WavFmtChunk, Error> {
    let padded = s.subrange(p0, p0 + ck_size) + Seq::new((40 - ck_size) as nat, |i: int| 0u8);
    if ck_size < 16 || ck_size > 40 {
        Err(Error::WrongFmt)
    } else if !(p0 < s.len() && p0 + ck_size <= s.len()) {
        Err(Error::Io(crate::error::IoError::UnexpectedEof))
    } else {
        match format_type_of(u16_of(padded.subrange(0, 2))) {
            None => Err(Error::WrongFmt),
            Some(t) => Ok(fmt_chunk_of(ck_size, t, padded)),
        }
    }
}

/// The value of eight little-endian bytes of `b` from `i` on.
fn u64_at(b: &Vec<u8>, i: usize) -> (r: u64)
    requires
        i <= 32,
        i + 8 <= b@.len(),
    ensures
        r == u64_of(b@.subrange(i as int, i + 8)),
{
    let lo = u32_from_le(b[i], b[i + 1], b[i + 2], b[i + 3]);
    let hi = u32_from_le(b[i + 4], b[i + 5], b[i + 6], b[i + 7]);
    let ghost s = b@.subrange(i as int, i + 8);
    assert(s.subrange(0, 4) =~= seq![b[i as int], b[i + 1], b[i + 2], b[i + 3]]);
    assert(s.subrange(4, 8) =~= seq![b[i + 4], b[i + 5], b[i + 6], b[i + 7]]);
    lo as u64 + 0x1_0000_0000 * (hi as u64)
}

/// The eight little-endian bytes of `x`.
fn push_u64(out: &mut Vec<u8>, x: u64)
    ensures
        final(out)@ == old(out)@ + le64(x),
{
    let lo = crate::bytes::u32_to_le((x % 0x1_0000_0000) as u32);
    let hi = crate::bytes::u32_to_le((x / 0x1_0000_0000) as u32);
    let ghost before = out@;
    out.push(lo[0]);
    out.push(lo[1]);
    out.push(lo[2]);
    out.push(lo[3]);
    out.push(hi[0]);
    out.push(hi[1]);
    out.push(hi[2]);
    out.push(hi[3]);
    assert(out@ =~= before + le64(x));
}

impl WavFmtChunk {
    /// Reads a `fmt ` body of `ck_size` bytes, 16 to 40, from `bytes`. Fields
    /// past the end of the body are zero.
    pub fn read_bytes(ck_size: usize, bytes: &mut LgVecReader<u8>) -> (r: Result<Self, Error>)
        requires
            old(bytes).wf(),
        ensures
            final(bytes).wf(),
            final(bytes).content() == old(bytes).content(),
            r == fmt_chunk_read(old(bytes).content(), old(bytes).pos(), ck_size),
            r is Ok ==> final(bytes).pos() == old(bytes).pos() + ck_size,
    {
        proof {
            reveal(fmt_chunk_read);
        }
        if ck_size < 16 || ck_size > 40 {
            return Err(Error::WrongFmt);
        }
        proof {
            bytes.lemma_within();
        }
        let body = bytes.read_quantity(ck_size)?;
        let mut p: Vec<u8> = Vec::new();
        push_all(&mut p, body);
        let ghost b = body@;
        let mut i: usize = ck_size;
        while i < 40
            invariant
                ck_size <= i <= 40,
                b.len() == ck_size,
                p@ == b + Seq::new((i - ck_size) as nat, |j: int| 0u8),
            decreases 40 - i,
        {
            p.push(0u8);
            i = i + 1;
            assert(p@ =~= b + Seq::new((i - ck_size) as nat, |j: int| 0u8));
        }
        let code = u16_from_le(p[0], p[1]);
        assert(p@.subrange(0, 2) =~= seq![p[0], p[1]]);
        let fmt_tag = match WavFormatType::from_code(code) {
            Some(t) => t,
            None => return Err(Error::WrongFmt),
        };
        assert(p@.subrange(2, 4) =~= seq![p[2], p[3]]);
        assert(p@.subrange(4, 8) =~= seq![p[4], p[5], p[6], p[7]]);
        assert(p@.subrange(8, 12) =~= seq![p[8], p[9], p[10], p[11]]);
        assert(p@.subrange(12, 14) =~= seq![p[12], p[13]]);
        assert(p@.subrange(14, 16) =~= seq![p[14], p[15]]);
        assert(p@.subrange(16, 18) =~= seq![p[16], p[17]]);
        assert(p@.subrange(18, 20) =~= seq![p[18], p[19]]);
        assert(p@.subrange(20, 24) =~= seq![p[20], p[21], p[22], p[23]]);
        let lo = u64_at(&p, 24);
        let hi = u64_at(&p, 32);
        assert(p@.subrange(24, 40).subrange(0, 8) =~= p@.subrange(24, 32));
        assert(p@.subrange(24, 40).subrange(8, 16) =~= p@.subrange(32, 40));
        Ok(WavFmtChunk {
            ck_size,
            fmt_tag,
            number_channels: u16_from_le(p[2], p[3]),
            samples_per_sec: u32_from_le(p[4], p[5], p[6], p[7]),
            avg_bytes_per_sec: u32_from_le(p[8], p[9], p[10], p[11]),
            block_align: u16_from_le(p[12], p[13]),
            bits_per_sample: u16_from_le(p[14], p[15]),
            cb_size: u16_from_le(p[16], p[17]),
            valid_bits_per_sample: u16_from_le(p[18], p[19]),
            channel_mask: u32_from_le(p[20], p[21], p[22], p[23]),
            sub_format: lo as u128 + 0x1_0000_0000_0000_0000 * (hi as u128),
        })
    }

    /// The fields in file order, cut to the declared size (at most all 40),
    /// after a size field that gives their length.
    pub fn to_bytes(self) -> (r: Vec<u8>)
        ensures
            r@ == fmt_chunk_bytes_of(self),
    {
        let n: usize = if self.ck_size < 40 { self.ck_size } else { 40 };
        let mut result: Vec<u8> = Vec::new();
        push_all(&mut result, &crate::bytes::u32_to_le(n as u32));
        let ghost head = result@;
        push_all(&mut result, &crate::bytes::u16_to_le(self.fmt_tag.code()));
        push_all(&mut result, &crate::bytes::u16_to_le(self.number_channels));
        push_all(&mut result, &crate::bytes::u32_to_le(self.samples_per_sec));
        push_all(&mut result, &crate::bytes::u32_to_le(self.avg_bytes_per_sec));
        push_all(&mut result, &crate::bytes::u16_to_le(self.block_align));
        push_all(&mut result, &crate::bytes::u16_to_le(self.bits_per_sample));
        push_all(&mut result, &crate::bytes::u16_to_le(self.cb_size));
        push_all(&mut result, &crate::bytes::u16_to_le(self.valid_bits_per_sample));
        push_all(&mut result, &crate::bytes::u32_to_le(self.channel_mask));
        push_u64(&mut result, (self.sub_format % 0x1_0000_0000_0000_0000) as u64);
        push_u64(&mut result, (self.sub_format / 0x1_0000_0000_0000_0000) as u64);
        let ghost all = result@;
        assert(all =~= le32(n as u32) + fmt_fields(self));
        result.truncate(n + 4);
        assert(result@ =~= fmt_chunk_bytes_of(self));
        result
    }
}

} // verus!
