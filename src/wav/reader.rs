//! The bounded RIFF reader, the chunk scanner and the `fmt ` parser.
//!
//! Every read is checked against two limits: the bytes the source holds, and
//! the budget that the RIFF size field grants (a read may take the cursor,
//! counted from just past `WAVE`, at most one byte past that budget).
use vstd::prelude::*;
use crate::bytes::{i24_from_le, i24_of, u16_from_le, u16_of, u32_from_le, u32_of, u64_of};
use crate::error::{Error, FmtIssue, IoError};
use crate::reader::LgVecReader;
use super::chunk::WavChunks;
use super::{tag_of, WavFmt, WavFmtTag};

verus! {

/// `RIFF`, which opens a file.
pub open spec fn riff_id() -> Seq<u8> {
    seq![0x52u8, 0x49u8, 0x46u8, 0x46u8]
}

/// `WAVE`, the form type of the RIFF file.
pub open spec fn wave_id() -> Seq<u8> {
    seq![0x57u8, 0x41u8, 0x56u8, 0x45u8]
}

/// The id of the `fmt ` chunk.
pub open spec fn fmt_id() -> Seq<u8> {
    seq![0x66u8, 0x6du8, 0x74u8, 0x20u8]
}

/// The id of the `fact` chunk.
pub open spec fn fact_id() -> Seq<u8> {
    seq![0x66u8, 0x61u8, 0x63u8, 0x74u8]
}

/// The id of the `data` chunk.
pub open spec fn data_id() -> Seq<u8> {
    seq![0x64u8, 0x61u8, 0x74u8, 0x61u8]
}

/// Bytes 2 to 15 of the KSDATAFORMAT_SUBTYPE GUIDs; bytes 0 and 1 hold the
/// format code.
pub open spec fn guid_tail() -> Seq<u8> {
    seq![0x00u8, 0x00u8, 0x00u8, 0x00u8, 0x10u8, 0x00u8, 0x80u8, 0x00u8, 0x00u8, 0xAAu8, 0x00u8, 0x38u8, 0x9Bu8, 0x71u8]
}

/// `r` with the value `v` in place of its unit.
pub open spec fn with_value<T>(r: Result<(), Error>, v: T) -> Result<T, Error> {
    match r {
        Ok(_) => Ok(v),
        Err(e) => Err(e),
    }
}

/// Whether `n` bytes can be read at position `p` of `s` under the budget `m`.
pub open spec fn fits(s: Seq<u8>, m: u64, p: int, n: int) -> bool {
    (p - 12) + n <= m + 1 && p + n <= s.len()
}

/// The budget that the header of `s` grants, or why there is none.
pub open spec fn header(s: Seq<u8>) -> Result<u64, Error> {
    if s.len() < 4 {
        Err(Error::Io(IoError::UnexpectedEof))
    } else if s.subrange(0, 4) != riff_id() {
        Err(Error::WrongHeader)
    } else if s.len() < 12 {
        Err(Error::Io(IoError::UnexpectedEof))
    } else if s.subrange(8, 12) != wave_id() {
        Err(Error::WrongHeader)
    } else {
        let size = u32_of(s.subrange(4, 8));
        Ok(if size >= 4 { (size - 4) as u64 } else { 0 })
    }
}

/// The format that a sub-format GUID names, if it is one the codec knows.
pub open spec fn guid_format(g: Seq<u8>) -> Option<WavFmtTag> {
    if g.subrange(2, 16) != guid_tail() {
        None
    } else if u16_of(g.subrange(0, 2)) == 1 {
        Some(WavFmtTag::WAVE_FORMAT_PCM)
    } else if u16_of(g.subrange(0, 2)) == 3 {
        Some(WavFmtTag::WAVE_FORMAT_IEEE_FLOAT)
    } else {
        None
    }
}

/// The rest of a PCM `fmt ` chunk of `size` bytes, from `r`.
pub open spec fn pcm_tail(s: Seq<u8>, m: u64, r: int, size: u32, base: WavFmt) -> Result<WavFmt, Error> {
    if size == 16 {
        Ok(base)
    } else if size != 18 {
        Err(Error::WrongFmtInfo(FmtIssue::PcmChunkSize))
    } else if !fits(s, m, r, 2) {
        Err(Error::Io(IoError::UnexpectedEof))
    } else if base.bits_per_sample > 24 || base.bits_per_sample < 8 {
        Err(Error::WrongFmtInfo(FmtIssue::PcmBitsPerSample))
    } else {
        Ok(base)
    }
}

/// The rest of an IEEE float `fmt ` chunk of `size` bytes, from `r`.
pub open spec fn float_tail(s: Seq<u8>, m: u64, r: int, size: u32, base: WavFmt) -> Result<WavFmt, Error> {
    if size != 18 {
        Err(Error::WrongFmtInfo(FmtIssue::FloatChunkSize))
    } else if !fits(s, m, r, 2) {
        Err(Error::Io(IoError::UnexpectedEof))
    } else if u16_of(s.subrange(r, r + 2)) != 0 {
        Err(Error::WrongFmtInfo(FmtIssue::FloatCbSize))
    } else {
        Ok(base)
    }
}

/// The rest of an extensible `fmt ` chunk of `size` bytes, from `r`.
pub open spec fn extensible_tail(s: Seq<u8>, m: u64, r: int, size: u32, base: WavFmt) -> Result<WavFmt, Error> {
    if size != 40 {
        Err(Error::WrongFmtInfo(FmtIssue::ExtensibleChunkSize))
    } else if !fits(s, m, r, 2) {
        Err(Error::Io(IoError::UnexpectedEof))
    } else if u16_of(s.subrange(r, r + 2)) != 22 {
        Err(Error::WrongFmtInfo(FmtIssue::ExtensibleCbSize))
    } else if !fits(s, m, r + 2, 22) {
        Err(Error::Io(IoError::UnexpectedEof))
    } else {
        let valid = u16_of(s.subrange(r + 2, r + 4));
        let mask = u32_of(s.subrange(r + 4, r + 8));
        match guid_format(s.subrange(r + 8, r + 24)) {
            None => Err(Error::Unsupported),
            Some(sub) => {
                let bits = if valid > 0 { valid } else { base.bits_per_sample };
                if bits % 8 != 0 {
                    Err(Error::WrongFmtInfo(FmtIssue::BitsNotByteMultiple))
                } else {
                    Ok(WavFmt {
                        bits_per_sample: bits,
                        valid_bits_per_sample: valid,
                        channel_mask: mask,
                        sub_format: sub,
                        ..base
                    })
                }
            },
        }
    }
}

/// The stream that the body of a `fmt ` chunk of `size` bytes at `q`
/// describes, or why it describes none.
pub open spec fn fmt_body(s: Seq<u8>, m: u64, q: int, size: u32) -> Result<WavFmt, Error> {
    if size > 40 || size < 16 {
        Err(Error::WrongFmt)
    } else if !fits(s, m, q, 16) {
        Err(Error::Io(IoError::UnexpectedEof))
    } else {
        let tag = tag_of(u16_of(s.subrange(q, q + 2)));
        let channels = u16_of(s.subrange(q + 2, q + 4));
        let bits = u16_of(s.subrange(q + 14, q + 16));
        let base = WavFmt {
            format: tag,
            channels,
            sample_rate: u32_of(s.subrange(q + 4, q + 8)),
            bits_per_sample: bits,
            valid_bits_per_sample: 0,
            channel_mask: 0,
            sub_format: tag,
        };
        if channels == 0 {
            Err(Error::WrongFmtInfo(FmtIssue::NoChannels))
        } else if bits % 8 != 0 || bits == 0 {
            Err(Error::WrongFmtInfo(FmtIssue::BitsNotByteMultiple))
        } else {
            match tag {
                WavFmtTag::WAVE_FORMAT_PCM => pcm_tail(s, m, q + 16, size, base),
                WavFmtTag::WAVE_FORMAT_IEEE_FLOAT => float_tail(s, m, q + 16, size, base),
                WavFmtTag::WAVE_FORMAT_ALAW => Err(Error::Unsupported),
                WavFmtTag::WAVE_FORMAT_MULAW => Err(Error::Unsupported),
                WavFmtTag::WAVE_FORMAT_EXTENSIBLE => extensible_tail(s, m, q + 16, size, base),
                WavFmtTag::OTHER(_) => Err(Error::WrongFmt),
            }
        }
    }
}

/// The chunk whose header stands at `p`, and where the next one starts.
pub open spec fn next_chunk(s: Seq<u8>, m: u64, p: int) -> Result<(WavChunks, int), Error> {
    if !fits(s, m, p, 8) {
        Err(Error::Io(IoError::UnexpectedEof))
    } else {
        let id = s.subrange(p, p + 4);
        let size = u32_of(s.subrange(p + 4, p + 8));
        let q = p + 8;
        if id == fmt_id() {
            match fmt_body(s, m, q, size) {
                Ok(f) => Ok((WavChunks::FMT(f), q + size)),
                Err(e) => Err(e),
            }
        } else if id == data_id() {
            Ok((WavChunks::DATA(size), q))
        } else if id == fact_id() {
            if fits(s, m, q, size as int) {
                Ok((WavChunks::FACT, q + size))
            } else {
                Err(Error::Io(IoError::UnexpectedEof))
            }
        } else {
            let k = size + size % 2;
            if fits(s, m, q, k) {
                Ok((WavChunks::SKIPPED, q + k))
            } else {
                Err(Error::Io(IoError::UnexpectedEof))
            }
        }
    }
}

/// Scans the chunks from `p` up to the header of the `data` chunk, with the
/// last `fmt ` chunk seen so far. The result is the stream, the declared size
/// of the data chunk and where its bytes start.
pub open spec fn scan(s: Seq<u8>, m: u64, p: int, fmt: Option<WavFmt>) -> Result<(WavFmt, u32, int), Error>
    decreases s.len() - p,
{
    match next_chunk(s, m, p) {
        Err(e) => Err(e),
        Ok((WavChunks::DATA(size), q)) => match fmt {
            None => Err(Error::WrongFmt),
            Some(f) => Ok((f, size, q)),
        },
        Ok((chunk, q)) => {
            let seen = match chunk {
                WavChunks::FMT(f) => Some(f),
                _ => fmt,
            };
            // Every chunk but `data` is stepped over within the source.
            if p < q <= s.len() {
                scan(s, m, q, seen)
            } else {
                Err(Error::Io(IoError::UnexpectedEof))
            }
        },
    }
}

/// What a decoder finds in the file `s`: the stream, the declared size of the
/// data chunk, and where its bytes start.
pub open spec fn parse_wav(s: Seq<u8>) -> Result<(WavFmt, u32, int), Error> {
    match header(s) {
        Err(e) => Err(e),
        Ok(m) => scan(s, m, 12, None),
    }
}

/// A `fmt ` body that parses lies within the source and the budget, and
/// describes a stream with channels and whole bytes per sample.
pub proof fn lemma_fmt_body_ok(s: Seq<u8>, m: u64, q: int, size: u32)
    requires
        fmt_body(s, m, q, size) is Ok,
    ensures
        fits(s, m, q, size as int),
        fmt_body(s, m, q, size) matches Ok(f) && f.channels > 0 && f.bits_per_sample % 8 == 0
            && f.bits_per_sample > 0,
{
}

/// A chunk other than `data` is stepped over, forward and within the source.
pub proof fn lemma_next_chunk_moves(s: Seq<u8>, m: u64, p: int)
    requires
        next_chunk(s, m, p) matches Ok((c, q)) && !(c is DATA),
    ensures
        next_chunk(s, m, p) matches Ok((c, q)) && p + 8 <= q <= s.len(),
{
    if s.subrange(p, p + 4) == fmt_id() {
        lemma_fmt_body_ok(s, m, p + 8, u32_of(s.subrange(p + 4, p + 8)));
    }
}

/// Whether `b` holds the four bytes `c0 c1 c2 c3`.
fn is_id(b: &[u8], c0: u8, c1: u8, c2: u8, c3: u8) -> (r: bool)
    requires
        b@.len() == 4,
    ensures
        r == (b@ == seq![c0, c1, c2, c3]),
{
    let r = b[0] == c0 && b[1] == c1 && b[2] == c2 && b[3] == c3;
    assert(r ==> b@ =~= seq![c0, c1, c2, c3]);
    r
}

/// The format that the sub-format GUID `g` names, if the codec knows it.
fn read_guid(g: &[u8]) -> (r: Option<WavFmtTag>)
    requires
        g@.len() == 16,
    ensures
        r == guid_format(g@),
{
    let tail = g[2] == 0x00 && g[3] == 0x00 && g[4] == 0x00 && g[5] == 0x00 && g[6] == 0x10
        && g[7] == 0x00 && g[8] == 0x80 && g[9] == 0x00 && g[10] == 0x00 && g[11] == 0xAA
        && g[12] == 0x00 && g[13] == 0x38 && g[14] == 0x9B && g[15] == 0x71;
    if !tail {
        assert(g@.subrange(2, 16) != guid_tail()) by {
            if g@.subrange(2, 16) == guid_tail() {
                assert(g@.subrange(2, 16)[0] == g[2]);
            }
        }
        return None;
    }
    assert(g@.subrange(2, 16) =~= guid_tail());
    let code = u16_from_le(g[0], g[1]);
    assert(g@.subrange(0, 2) =~= seq![g[0], g[1]]);
    if code == 1 {
        Some(WavFmtTag::WAVE_FORMAT_PCM)
    } else if code == 3 {
        Some(WavFmtTag::WAVE_FORMAT_IEEE_FLOAT)
    } else {
        None
    }
}

/// A file opened for decoding: a byte source, the byte budget that its RIFF
/// size grants, and a cursor counted from just past `WAVE`.
#[derive(Debug)]
pub struct LgWavReader {
    reader: LgVecReader<u8>,
    max_size: u64,
    cursor: u64,
}

impl LgWavReader {
    /// The bytes of the file.
    pub closed spec fn content(&self) -> Seq<u8> {
        self.reader.content()
    }

    /// Where in the file the next read starts.
    pub closed spec fn pos(&self) -> int {
        self.reader.pos()
    }

    /// The RIFF size less the four bytes of `WAVE`.
    pub closed spec fn budget(&self) -> u64 {
        self.max_size
    }

    pub closed spec fn wf(&self) -> bool {
        &&& self.reader.wf()
        &&& 0 <= self.reader.pos() <= self.reader.content().len()
        &&& self.cursor + 12 == self.reader.pos()
        &&& self.cursor <= self.max_size + 1
        &&& self.max_size <= u32::MAX
    }

    /// Whether `n` more bytes can be read.
    pub open spec fn can_read(&self, n: int) -> bool {
        fits(self.content(), self.budget(), self.pos(), n)
    }

    /// The `n` bytes from the next read on.
    pub open spec fn ahead(&self, n: int) -> Seq<u8> {
        self.content().subrange(self.pos(), self.pos() + n)
    }

    /// `next` is `self` after a read of `n` bytes.
    pub open spec fn moved(&self, next: &Self, n: int) -> bool {
        &&& next.wf()
        &&& next.content() == self.content()
        &&& next.budget() == self.budget()
        &&& next.pos() == self.pos() + n
    }

    /// Opens the file `source`: checks the `RIFF` / `WAVE` header and takes
    /// the budget from the RIFF size.
    pub fn new(source: Vec<u8>) -> (r: Result<Self, Error>)
        ensures
            r is Ok <==> header(source@) is Ok,
            r matches Err(e) ==> header(source@) == Err::<u64, Error>(e),
            r matches Ok(w) ==> w.wf() && w.content() == source@ && w.pos() == 12
                && header(source@) == Ok::<u64, Error>(w.budget()),
    {
        Self::read_header(LgVecReader::new(source))
    }

    /// Reads the header of a file at the start of `reader`.
    fn read_header(mut reader: LgVecReader<u8>) -> (r: Result<Self, Error>)
        requires
            reader.wf(),
            reader.pos() == 0,
        ensures
            r is Ok <==> header(reader.content()) is Ok,
            r matches Err(e) ==> header(reader.content()) == Err::<u64, Error>(e),
            r matches Ok(w) ==> w.wf() && w.content() == reader.content() && w.pos() == 12
                && header(reader.content()) == Ok::<u64, Error>(w.budget()),
    {
        let ghost s = reader.content();
        let b = reader.read_quantity(4)?;
        if !is_id(b, 0x52, 0x49, 0x46, 0x46) {
            return Err(Error::WrongHeader);
        }
        let b = match reader.read_quantity(8) {
            Ok(b) => b,
            Err(e) => return Err(e),
        };
        let size = u32_from_le(b[0], b[1], b[2], b[3]);
        assert(s.subrange(4, 8) =~= seq![b[0], b[1], b[2], b[3]]);
        let wave = is_id(slice_tail(b), 0x57, 0x41, 0x56, 0x45);
        assert(s.subrange(8, 12) =~= b@.subrange(4, 8));
        if !wave {
            return Err(Error::WrongHeader);
        }
        let max_size: u64 = if size >= 4 { (size - 4) as u64 } else { 0 };
        proof {
            reader.lemma_within();
        }
        Ok(LgWavReader { reader, max_size, cursor: 0 })
    }

    /// The next `n` bytes. Errors, leaving the reader as it was, where the
    /// source or the budget does not hold them.
    pub fn read_next_bytes(&mut self, n: usize) -> (r: Result<&[u8], Error>)
        requires
            old(self).wf(),
        ensures
            r is Ok <==> old(self).can_read(n as int),
            r matches Ok(b) ==> b@ == old(self).ahead(n as int) && old(self).moved(final(self), n as int),
            r matches Err(e) ==> e == Error::Io(IoError::UnexpectedEof) && old(self).moved(final(self), 0),
    {
        if n == 0 {
            let empty: &[u8] = &[];
            assert(empty@ =~= old(self).ahead(0));
            return Ok(empty);
        }
        self.move_cursor(n)?;
        match self.reader.read_quantity(n) {
            Ok(b) => Ok(b),
            Err(e) => {
                self.cursor = self.cursor - n as u64;
                Err(e)
            },
        }
    }

    /// Steps over the next `n` bytes, under the same limits as a read.
    pub fn skip_next_bytes(&mut self, n: u64) -> (r: Result<(), Error>)
        requires
            old(self).wf(),
        ensures
            r is Ok <==> old(self).can_read(n as int),
            r is Ok ==> old(self).moved(final(self), n as int),
            r is Err ==> r == Err::<(), Error>(Error::Io(IoError::UnexpectedEof)) && old(self).moved(final(self), 0),
    {
        if n == 0 {
            return Ok(());
        }
        if n > self.max_size + 1 - self.cursor || n > (self.reader.len() - self.reader.cursor()) as u64 {
            return Err(Error::Io(IoError::UnexpectedEof));
        }
        match self.read_next_bytes(n as usize) {
            Ok(_) => Ok(()),
            Err(e) => Err(e),
        }
    }

    /// Reads one byte.
    pub fn read_le_u8(&mut self) -> (r: Result<u8, Error>)
        requires
            old(self).wf(),
        ensures
            r is Ok <==> old(self).can_read(1),
            r matches Ok(v) ==> v == old(self).ahead(1)[0] && old(self).moved(final(self), 1),
            r matches Err(e) ==> e == Error::Io(IoError::UnexpectedEof) && old(self).moved(final(self), 0),
    {
        let b = self.read_next_bytes(1)?;
        Ok(b[0])
    }

    /// Reads a little-endian `u16`.
    pub fn read_le_u16(&mut self) -> (r: Result<u16, Error>)
        requires
            old(self).wf(),
        ensures
            r is Ok <==> old(self).can_read(2),
            r matches Ok(v) ==> v == u16_of(old(self).ahead(2)) && old(self).moved(final(self), 2),
            r matches Err(e) ==> e == Error::Io(IoError::UnexpectedEof) && old(self).moved(final(self), 0),
    {
        let b = self.read_next_bytes(2)?;
        assert(b@ =~= seq![b[0], b[1]]);
        Ok(u16_from_le(b[0], b[1]))
    }

    /// Reads a little-endian `u32`.
    pub fn read_le_u32(&mut self) -> (r: Result<u32, Error>)
        requires
            old(self).wf(),
        ensures
            r is Ok <==> old(self).can_read(4),
            r matches Ok(v) ==> v == u32_of(old(self).ahead(4)) && old(self).moved(final(self), 4),
            r matches Err(e) ==> e == Error::Io(IoError::UnexpectedEof) && old(self).moved(final(self), 0),
    {
        let b = self.read_next_bytes(4)?;
        assert(b@ =~= seq![b[0], b[1], b[2], b[3]]);
        Ok(u32_from_le(b[0], b[1], b[2], b[3]))
    }

    /// Reads a little-endian `u64`.
    pub fn read_le_u64(&mut self) -> (r: Result<u64, Error>)
        requires
            old(self).wf(),
        ensures
            r is Ok <==> old(self).can_read(8),
            r matches Ok(v) ==> v == u64_of(old(self).ahead(8)) && old(self).moved(final(self), 8),
            r matches Err(e) ==> e == Error::Io(IoError::UnexpectedEof) && old(self).moved(final(self), 0),
    {
        let b = self.read_next_bytes(8)?;
        let lo = u32_from_le(b[0], b[1], b[2], b[3]);
        let hi = u32_from_le(b[4], b[5], b[6], b[7]);
        assert(b@.subrange(0, 4) =~= seq![b[0], b[1], b[2], b[3]]);
        assert(b@.subrange(4, 8) =~= seq![b[4], b[5], b[6], b[7]]);
        Ok(lo as u64 + 0x1_0000_0000 * (hi as u64))
    }

    /// Reads an unsigned 8-bit sample and rebases it to a signed one.
    pub fn read_le_i8(&mut self) -> (r: Result<i8, Error>)
        requires
            old(self).wf(),
        ensures
            r is Ok <==> old(self).can_read(1),
            r matches Ok(v) ==> v == old(self).ahead(1)[0] - 128 && old(self).moved(final(self), 1),
            r matches Err(e) ==> e == Error::Io(IoError::UnexpectedEof) && old(self).moved(final(self), 0),
    {
        let b = self.read_le_u8()?;
        Ok(crate::tools::u8_to_i8(b))
    }

    /// Reads a little-endian `i16`.
    pub fn read_le_i16(&mut self) -> (r: Result<i16, Error>)
        requires
            old(self).wf(),
        ensures
            r is Ok <==> old(self).can_read(2),
            r matches Ok(v) ==> v == crate::bytes::signed16(u16_of(old(self).ahead(2)))
                && old(self).moved(final(self), 2),
            r matches Err(e) ==> e == Error::Io(IoError::UnexpectedEof) && old(self).moved(final(self), 0),
    {
        let u = self.read_le_u16()?;
        if u >= 0x8000 {
            Ok((u as i32 - 0x1_0000) as i16)
        } else {
            Ok(u as i16)
        }
    }

    /// Reads a little-endian `i32`.
    pub fn read_le_i32(&mut self) -> (r: Result<i32, Error>)
        requires
            old(self).wf(),
        ensures
            r is Ok <==> old(self).can_read(4),
            r matches Ok(v) ==> v == crate::bytes::signed32(u32_of(old(self).ahead(4)))
                && old(self).moved(final(self), 4),
            r matches Err(e) ==> e == Error::Io(IoError::UnexpectedEof) && old(self).moved(final(self), 0),
    {
        let u = self.read_le_u32()?;
        if u >= 0x8000_0000 {
            Ok((u as i64 - 0x1_0000_0000) as i32)
        } else {
            Ok(u as i32)
        }
    }

    /// Reads three little-endian bytes as a sign-extended 24-bit value.
    pub fn read_le_i32_24(&mut self) -> (r: Result<i32, Error>)
        requires
            old(self).wf(),
        ensures
            r is Ok <==> old(self).can_read(3),
            r matches Ok(v) ==> v == i24_of(old(self).ahead(3)) && old(self).moved(final(self), 3),
            r matches Err(e) ==> e == Error::Io(IoError::UnexpectedEof) && old(self).moved(final(self), 0),
    {
        let b = self.read_next_bytes(3)?;
        assert(b@ =~= seq![b[0], b[1], b[2]]);
        Ok(i24_from_le(b[0], b[1], b[2]))
    }

    /// `next` is `self` after a step that came out as `spec`: on success,
    /// `n` bytes further on; on failure, somewhere in the same file.
    pub open spec fn stepped<T>(&self, next: &Self, r: Result<T, Error>, spec: Result<T, Error>, n: int) -> bool {
        &&& next.wf()
        &&& next.content() == self.content()
        &&& next.budget() == self.budget()
        &&& r == spec
        &&& r is Ok ==> next.pos() == self.pos() + n
    }

    /// Reads the header of the next chunk, and steps over its body unless it
    /// is the `data` chunk. A `fmt ` chunk is parsed on the way.
    pub fn read_next_chunk(&mut self) -> (r: Result<WavChunks, Error>)
        requires
            old(self).wf(),
        ensures
            final(self).wf(),
            final(self).content() == old(self).content(),
            final(self).budget() == old(self).budget(),
            match next_chunk(old(self).content(), old(self).budget(), old(self).pos()) {
                Ok((c, q)) => r == Ok::<WavChunks, Error>(c) && final(self).pos() == q,
                Err(e) => r == Err::<WavChunks, Error>(e),
            },
    {
        let ghost s = self.content();
        let ghost p = self.pos();
        let id = self.read_next_bytes(4)?;
        let is_fmt = is_id(id, 0x66, 0x6d, 0x74, 0x20);
        let is_data = is_id(id, 0x64, 0x61, 0x74, 0x61);
        let is_fact = is_id(id, 0x66, 0x61, 0x63, 0x74);
        let size = self.read_le_u32()?;
        assert(s.subrange(p, p + 4) == id@);
        if is_fmt {
            let f = self.read_fmt_chunk(size)?;
            Ok(WavChunks::FMT(f))
        } else if is_data {
            Ok(WavChunks::DATA(size))
        } else if is_fact {
            self.read_fact_chunk(size)?;
            Ok(WavChunks::FACT)
        } else {
            self.skip_next_bytes(size as u64 + (size % 2) as u64)?;
            Ok(WavChunks::SKIPPED)
        }
    }

    /// Parses the body of a `fmt ` chunk of `ck_size` bytes. Every layout it
    /// accepts ends exactly at the declared end of the chunk, so nothing is
    /// left to skip after it.
    pub fn read_fmt_chunk(&mut self, ck_size: u32) -> (r: Result<WavFmt, Error>)
        requires
            old(self).wf(),
        ensures
            old(self).stepped(
                final(self),
                r,
                fmt_body(old(self).content(), old(self).budget(), old(self).pos(), ck_size),
                ck_size as int,
            ),
            (ck_size < 16 || ck_size > 40 || !old(self).can_read(16)) ==> final(self).pos() == old(self).pos(),
    {
        if ck_size > 40 || ck_size < 16 {
            return Err(Error::WrongFmt);
        }
        let ghost s = self.content();
        let ghost q = self.pos();
        let b = self.read_next_bytes(16)?;
        let code = u16_from_le(b[0], b[1]);
        let channels = u16_from_le(b[2], b[3]);
        let sample_rate = u32_from_le(b[4], b[5], b[6], b[7]);
        let bits_per_sample = u16_from_le(b[14], b[15]);
        assert(s.subrange(q, q + 2) =~= seq![b[0], b[1]]);
        assert(s.subrange(q + 2, q + 4) =~= seq![b[2], b[3]]);
        assert(s.subrange(q + 4, q + 8) =~= seq![b[4], b[5], b[6], b[7]]);
        assert(s.subrange(q + 14, q + 16) =~= seq![b[14], b[15]]);
        let format = WavFmtTag::from_code(code);
        let mut fmt = WavFmt {
            format,
            channels,
            sample_rate,
            bits_per_sample,
            valid_bits_per_sample: 0,
            channel_mask: 0,
            sub_format: format,
        };
        check_fmt(&fmt)?;
        match format {
            WavFmtTag::WAVE_FORMAT_PCM => self.read_check_fmt_pcm(ck_size, &fmt)?,
            WavFmtTag::WAVE_FORMAT_IEEE_FLOAT => self.read_check_fmt_ieee_float(ck_size, &fmt)?,
            WavFmtTag::WAVE_FORMAT_ALAW => self.read_check_fmt_alaw(ck_size, &fmt)?,
            WavFmtTag::WAVE_FORMAT_MULAW => self.read_check_fmt_mulaw(ck_size, &fmt)?,
            WavFmtTag::WAVE_FORMAT_EXTENSIBLE => self.read_check_fmt_extensible(ck_size, &mut fmt)?,
            WavFmtTag::OTHER(_) => return Err(Error::WrongFmt),
        }
        Ok(fmt)
    }

    /// The rest of a PCM `fmt ` chunk: a cb_size, which is not used, when the
    /// chunk has 18 bytes.
    fn read_check_fmt_pcm(&mut self, ck_size: u32, fmt: &WavFmt) -> (r: Result<(), Error>)
        requires
            old(self).wf(),
        ensures
            old(self).stepped(
                final(self),
                with_value(r, *fmt),
                pcm_tail(old(self).content(), old(self).budget(), old(self).pos(), ck_size, *fmt),
                ck_size - 16,
            ),
    {
        if ck_size == 16 {
            return Ok(());
        }
        if ck_size != 18 {
            return Err(Error::WrongFmtInfo(FmtIssue::PcmChunkSize));
        }
        self.skip_next_bytes(2)?;
        if fmt.bits_per_sample > 24 || fmt.bits_per_sample < 8 {
            return Err(Error::WrongFmtInfo(FmtIssue::PcmBitsPerSample));
        }
        Ok(())
    }

    /// The rest of an IEEE float `fmt ` chunk: a cb_size of 0.
    fn read_check_fmt_ieee_float(&mut self, ck_size: u32, fmt: &WavFmt) -> (r: Result<(), Error>)
        requires
            old(self).wf(),
        ensures
            old(self).stepped(
                final(self),
                with_value(r, *fmt),
                float_tail(old(self).content(), old(self).budget(), old(self).pos(), ck_size, *fmt),
                ck_size - 16,
            ),
    {
        if ck_size != 18 {
            return Err(Error::WrongFmtInfo(FmtIssue::FloatChunkSize));
        }
        if self.read_le_u16()? != 0 {
            return Err(Error::WrongFmtInfo(FmtIssue::FloatCbSize));
        }
        Ok(())
    }

    /// A-law streams are not decoded.
    fn read_check_fmt_alaw(&mut self, _ck_size: u32, _fmt: &WavFmt) -> (r: Result<(), Error>)
        ensures
            *final(self) == *old(self),
            r == Err::<(), Error>(Error::Unsupported),
    {
        Err(Error::Unsupported)
    }

    /// Mu-law streams are not decoded.
    fn read_check_fmt_mulaw(&mut self, _ck_size: u32, _fmt: &WavFmt) -> (r: Result<(), Error>)
        ensures
            *final(self) == *old(self),
            r == Err::<(), Error>(Error::Unsupported),
    {
        Err(Error::Unsupported)
    }

    /// The rest of an extensible `fmt ` chunk: a cb_size of 22, the valid bits
    /// per sample, the channel mask and the sub-format GUID.
    fn read_check_fmt_extensible(&mut self, ck_size: u32, fmt: &mut WavFmt) -> (r: Result<(), Error>)
        requires
            old(self).wf(),
        ensures
            old(self).stepped(
                final(self),
                with_value(r, *final(fmt)),
                extensible_tail(old(self).content(), old(self).budget(), old(self).pos(), ck_size, *old(fmt)),
                ck_size - 16,
            ),
    {
        if ck_size != 40 {
            return Err(Error::WrongFmtInfo(FmtIssue::ExtensibleChunkSize));
        }
        if self.read_le_u16()? != 22 {
            return Err(Error::WrongFmtInfo(FmtIssue::ExtensibleCbSize));
        }
        let ghost s = self.content();
        let ghost r0 = self.pos();
        let b = self.read_next_bytes(22)?;
        let valid_bits_per_sample = u16_from_le(b[0], b[1]);
        let channel_mask = u32_from_le(b[2], b[3], b[4], b[5]);
        assert(s.subrange(r0, r0 + 2) =~= seq![b[0], b[1]]);
        assert(s.subrange(r0 + 2, r0 + 6) =~= seq![b[2], b[3], b[4], b[5]]);
        assert(s.subrange(r0 + 6, r0 + 22) =~= b@.subrange(6, 22));
        let sub_format = match read_guid(vstd::slice::slice_subrange(b, 6, 22)) {
            Some(tag) => tag,
            None => return Err(Error::Unsupported),
        };
        let bits = if valid_bits_per_sample > 0 { valid_bits_per_sample } else { fmt.bits_per_sample };
        if bits % 8 != 0 {
            return Err(Error::WrongFmtInfo(FmtIssue::BitsNotByteMultiple));
        }
        fmt.bits_per_sample = bits;
        fmt.valid_bits_per_sample = valid_bits_per_sample;
        fmt.channel_mask = channel_mask;
        fmt.sub_format = sub_format;
        Ok(())
    }

    /// Steps over the body of a `fact` chunk of `ck_size` bytes.
    fn read_fact_chunk(&mut self, ck_size: u32) -> (r: Result<(), Error>)
        requires
            old(self).wf(),
        ensures
            r is Ok <==> old(self).can_read(ck_size as int),
            r is Ok ==> old(self).moved(final(self), ck_size as int),
            r is Err ==> r == Err::<(), Error>(Error::Io(IoError::UnexpectedEof)) && old(self).moved(final(self), 0),
    {
        self.skip_next_bytes(ck_size as u64)
    }

    /// Debits `n` bytes from the budget, or errors if it does not hold them.
    fn move_cursor(&mut self, n: usize) -> (r: Result<(), Error>)
        requires
            old(self).wf(),
        ensures
            r is Ok <==> old(self).pos() - 12 + n <= old(self).budget() + 1,
            final(self).reader == old(self).reader,
            final(self).max_size == old(self).max_size,
            r is Ok ==> final(self).cursor == old(self).cursor + n,
            r is Err ==> r == Err::<(), Error>(Error::Io(IoError::UnexpectedEof)) && final(self).cursor == old(self).cursor,
    {
        if n as u64 > self.max_size + 1 - self.cursor {
            return Err(Error::Io(IoError::UnexpectedEof));
        }
        self.cursor = self.cursor + n as u64;
        Ok(())
    }
}

/// Checks the fields that every `fmt ` chunk must get right.
pub fn check_fmt(fmt: &WavFmt) -> (r: Result<(), Error>)
    ensures
        r == (if fmt.channels == 0 {
            Err::<(), Error>(Error::WrongFmtInfo(FmtIssue::NoChannels))
        } else if fmt.bits_per_sample % 8 != 0 || fmt.bits_per_sample == 0 {
            Err(Error::WrongFmtInfo(FmtIssue::BitsNotByteMultiple))
        } else {
            Ok(())
        }),
{
    if fmt.channels == 0 {
        return Err(Error::WrongFmtInfo(FmtIssue::NoChannels));
    }
    if fmt.bits_per_sample % 8 != 0 || fmt.bits_per_sample == 0 {
        return Err(Error::WrongFmtInfo(FmtIssue::BitsNotByteMultiple));
    }
    Ok(())
}

/// Bytes 4 to 7 of an eight-byte slice.
fn slice_tail(b: &[u8]) -> (r: &[u8])
    requires
        b@.len() == 8,
    ensures
        r@ == b@.subrange(4, 8),
{
    vstd::slice::slice_subrange(b, 4, 8)
}

} // verus!
