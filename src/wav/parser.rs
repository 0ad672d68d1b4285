//! A whole WAVE file read into its chunks, every field kept, and written
//! back out.
use vstd::prelude::*;
use crate::bytes::{le32, u32_from_le, u32_of};
use crate::error::{Error, IoError};
use crate::reader::LgVecReader;
use super::chunk::data::{data_chunk_bytes_of, WavDataChunk};
use super::chunk::fact::{fact_chunk_bytes_of, fact_chunk_read, fact_written_len, WavFactChunk};
use super::chunk::fmt::{fmt_chunk_bytes_of, fmt_chunk_read, fmt_written_len, WavFmtChunk};
use super::reader::{data_id, fact_id, fmt_id, riff_id, wave_id};

verus! {

/// A `fact` chunk as values: its size, sample length and trailing bytes.
pub type FactView = (usize, u32, Seq<u8>);

/// What a file holds: its `fmt ` chunk, its last `fact` chunk, and the size
/// and bytes of its `data` chunk.
pub type RawView = (WavFmtChunk, Option<FactView>, usize, Seq<u8>);

/// The values of a `fact` chunk, if there is one.
pub open spec fn fact_view(fact: Option<WavFactChunk>) -> Option<FactView> {
    match fact {
        None => None,
        Some(c) => Some((c.ck_size, c.sample_length, c.other@)),
    }
}

/// Scans the chunks of `s` from `p` up to and including the `data` chunk,
/// with the last `fmt ` and `fact` chunks seen so far. Every chunk before
/// `data` is followed by a pad byte when its size is odd; chunks of other ids,
/// and `fact` chunks too short for a sample length, are stepped over.
pub open spec fn raw_scan(s: Seq<u8>, p: int, fmt: Option<WavFmtChunk>, fact: Option<FactView>) -> Result<RawView, Error>
    decreases s.len() - p,
{
    if !(0 <= p < s.len() && p + 8 <= s.len()) {
        Err(Error::Io(IoError::UnexpectedEof))
    } else {
        let id = s.subrange(p, p + 4);
        let size = u32_of(s.subrange(p + 4, p + 8)) as usize;
        let q = p + 8;
        if id == fmt_id() {
            match fmt_chunk_read(s, q, size) {
                Err(e) => Err(e),
                Ok(c) => if q + size + size % 2 <= s.len() {
                    raw_scan(s, q + size + size % 2, Some(c), fact)
                } else {
                    Err(Error::Io(IoError::UnexpectedEof))
                },
            }
        } else if id == fact_id() && size >= 4 {
            match fact_chunk_read(s, q, size) {
                Err(e) => Err(e),
                Ok((len, other)) => if q + size + size % 2 <= s.len() {
                    raw_scan(s, q + size + size % 2, fmt, Some((size, len, other)))
                } else {
                    Err(Error::Io(IoError::UnexpectedEof))
                },
            }
        } else if id == data_id() {
            match fmt {
                None => Err(Error::WrongFmt),
                Some(f) => if size == 0 || (q < s.len() && q + size <= s.len()) {
                    Ok((f, fact, size, s.subrange(q, q + size)))
                } else {
                    Err(Error::Io(IoError::UnexpectedEof))
                },
            }
        } else {
            let k = size + size % 2;
            if q + k <= s.len() {
                raw_scan(s, q + k, fmt, fact)
            } else {
                Err(Error::Io(IoError::UnexpectedEof))
            }
        }
    }
}

/// What `parse` finds in the file `s`.
pub open spec fn raw_parse(s: Seq<u8>) -> Result<RawView, Error> {
    if s.len() < 12 {
        Err(Error::Io(IoError::UnexpectedEof))
    } else if s.subrange(0, 4) != riff_id() || s.subrange(8, 12) != wave_id() {
        Err(Error::WrongHeader)
    } else {
        raw_scan(s, 12, None, None)
    }
}

/// The zero pad byte that follows a chunk body of odd length `n`.
pub open spec fn pad_after(n: int) -> Seq<u8> {
    if n % 2 == 1 {
        seq![0u8]
    } else {
        Seq::empty()
    }
}

/// The chunks that `to_bytes` writes after `WAVE`: each an id, a size field
/// that gives the length of its body, the body, and a pad byte after a body
/// of odd length.
#[verifier::opaque]
pub open spec fn raw_body(r: RawView) -> Seq<u8> {
    fmt_id() + fmt_chunk_bytes_of(r.0) + pad_after(fmt_written_len(r.0)) + match r.1 {
        None => Seq::empty(),
        Some((size, len, other)) => fact_id() + fact_chunk_bytes_of(size, len, other) + pad_after(
            fact_written_len(size, other),
        ),
    } + data_id() + data_chunk_bytes_of(r.3)
}

/// The file that `to_bytes` writes: the header, with the length of the
/// chunks plus 4 as the RIFF size, then the chunks.
pub open spec fn raw_bytes(r: RawView) -> Seq<u8> {
    riff_id() + le32(((raw_body(r).len() + 4) % 0x1_0000_0000) as u32) + wave_id() + raw_body(r)
}

/// A WAVE file as its `fmt `, `fact` and `data` chunks.
#[derive(Debug)]
pub struct LgWavRaw {
    pub fmt: WavFmtChunk,
    pub fact: Option<WavFactChunk>,
    pub data: WavDataChunk,
}

impl LgWavRaw {
    /// The values the file holds.
    pub open spec fn view_raw(&self) -> RawView {
        (self.fmt, fact_view(self.fact), self.data.ck_size, self.data.data@)
    }

    /// A file with a default `fmt ` chunk, no `fact` chunk and no data.
    pub fn new() -> (r: Self)
        ensures
            r.fact is None,
            r.data.ck_size == 0,
            r.data.data@ == Seq::<u8>::empty(),
    {
        LgWavRaw {
            fmt: WavFmtChunk {
                ck_size: 0,
                fmt_tag: super::chunk::fmt::WavFormatType::WAVE_FORMAT_PCM,
                number_channels: 0,
                samples_per_sec: 0,
                avg_bytes_per_sec: 0,
                block_align: 0,
                bits_per_sample: 0,
                cb_size: 0,
                valid_bits_per_sample: 0,
                channel_mask: 0,
                sub_format: 0,
            },
            fact: None,
            data: WavDataChunk { ck_size: 0, data: Vec::new() },
        }
    }

    /// Reads the file `source`: its `RIFF` / `WAVE` header, then its chunks
    /// up to and including the `data` chunk.
    pub fn parse(source: Vec<u8>) -> (r: Result<Self, Error>)
        ensures
            r is Ok <==> raw_parse(source@) is Ok,
            r matches Err(e) ==> raw_parse(source@) == Err::<RawView, Error>(e),
            r matches Ok(raw) ==> raw_parse(source@) == Ok::<RawView, Error>(raw.view_raw()),
    {
        let ghost s = source@;
        if source.len() < 12 {
            return Err(Error::Io(IoError::UnexpectedEof));
        }
        if !Self::header_valid(&source) {
            return Err(Error::WrongHeader);
        }
        let mut bytes = LgVecReader::new(source);
        bytes.skip_quantity(12)?;
        Self::parse_chunks(bytes)
    }

    /// Whether `bytes` opens with `RIFF`, four bytes, and `WAVE`.
    fn header_valid(bytes: &Vec<u8>) -> (r: bool)
        requires
            bytes@.len() >= 12,
        ensures
            r == (bytes@.subrange(0, 4) == riff_id() && bytes@.subrange(8, 12) == wave_id()),
    {
        let riff = bytes[0] == 0x52 && bytes[1] == 0x49 && bytes[2] == 0x46 && bytes[3] == 0x46;
        let wave = bytes[8] == 0x57 && bytes[9] == 0x41 && bytes[10] == 0x56 && bytes[11] == 0x45;
        assert(riff ==> bytes@.subrange(0, 4) =~= riff_id());
        assert(wave ==> bytes@.subrange(8, 12) =~= wave_id());
        assert(bytes@.subrange(0, 4) == riff_id() ==> bytes@.subrange(0, 4)[0] == bytes[0]);
        proof {
            if bytes@.subrange(0, 4) == riff_id() {
                assert(bytes@.subrange(0, 4)[1] == bytes[1]);
                assert(bytes@.subrange(0, 4)[2] == bytes[2]);
                assert(bytes@.subrange(0, 4)[3] == bytes[3]);
            }
            if bytes@.subrange(8, 12) == wave_id() {
                assert(bytes@.subrange(8, 12)[0] == bytes[8]);
                assert(bytes@.subrange(8, 12)[1] == bytes[9]);
                assert(bytes@.subrange(8, 12)[2] == bytes[10]);
                assert(bytes@.subrange(8, 12)[3] == bytes[11]);
            }
        }
        riff && wave
    }

    /// Reads the chunks from the cursor of `bytes` up to and including the
    /// `data` chunk.
    fn parse_chunks(source: LgVecReader<u8>) -> (r: Result<Self, Error>)
        requires
            source.wf(),
        ensures
            r is Ok <==> raw_scan(source.content(), source.pos(), None, None) is Ok,
            r matches Err(e) ==> raw_scan(source.content(), source.pos(), None, None) == Err::<RawView, Error>(e),
            r matches Ok(raw) ==> raw_scan(source.content(), source.pos(), None, None) == Ok::<RawView, Error>(
                raw.view_raw(),
            ),
    {
        let ghost s = source.content();
        let ghost start = source.pos();
        let mut bytes = source;
        let mut fmt: Option<WavFmtChunk> = None;
        let mut fact: Option<WavFactChunk> = None;
        loop
            invariant
                bytes.wf(),
                bytes.content() == s,
                s == source.content(),
                start == source.pos(),
                raw_scan(s, start, None, None) == raw_scan(s, bytes.pos(), fmt, fact_view(fact)),
            decreases s.len() - bytes.pos(),
        {
            proof {
                bytes.lemma_within();
            }
            let ghost p = bytes.pos();
            let head = bytes.read_quantity(8)?;
            let is_fmt = head[0] == 0x66 && head[1] == 0x6d && head[2] == 0x74 && head[3] == 0x20;
            let is_fact = head[0] == 0x66 && head[1] == 0x61 && head[2] == 0x63 && head[3] == 0x74;
            let is_data = head[0] == 0x64 && head[1] == 0x61 && head[2] == 0x74 && head[3] == 0x61;
            let size32 = u32_from_le(head[4], head[5], head[6], head[7]);
            let size = size32 as usize;
            proof {
                let id = s.subrange(p, p + 4);
                assert(s.subrange(p + 4, p + 8) =~= seq![head[4], head[5], head[6], head[7]]);
                assert(is_fmt == (id == fmt_id())) by {
                    if id == fmt_id() {
                        assert(id[0] == head[0] && id[1] == head[1] && id[2] == head[2] && id[3] == head[3]);
                    }
                    if is_fmt {
                        assert(id =~= fmt_id());
                    }
                }
                assert(is_fact == (id == fact_id())) by {
                    if id == fact_id() {
                        assert(id[0] == head[0] && id[1] == head[1] && id[2] == head[2] && id[3] == head[3]);
                    }
                    if is_fact {
                        assert(id =~= fact_id());
                    }
                }
                assert(is_data == (id == data_id())) by {
                    if id == data_id() {
                        assert(id[0] == head[0] && id[1] == head[1] && id[2] == head[2] && id[3] == head[3]);
                    }
                    if is_data {
                        assert(id =~= data_id());
                    }
                }
            }
            if is_fmt {
                let c = WavFmtChunk::read_bytes(size, &mut bytes)?;
                proof {
                    bytes.lemma_within();
                }
                Self::skip_pad(&mut bytes, size)?;
                fmt = Some(c);
            } else if is_fact && size >= 4 {
                let c = WavFactChunk::read_bytes(size, &mut bytes)?;
                proof {
                    bytes.lemma_within();
                }
                Self::skip_pad(&mut bytes, size)?;
                fact = Some(c);
            } else if is_data {
                match fmt {
                    None => return Err(Error::WrongFmt),
                    Some(f) => {
                        let data = WavDataChunk::read_bytes(size, &mut bytes)?;
                        return Ok(LgWavRaw { fmt: f, fact, data });
                    },
                }
            } else {
                let k = size32 as u64 + (size32 % 2) as u64;
                if k > (bytes.len() - bytes.cursor()) as u64 {
                    return Err(Error::Io(IoError::UnexpectedEof));
                }
                if k > 0 {
                    bytes.read_quantity(k as usize)?;
                }
            }
        }
    }

    /// Steps over the pad byte after a chunk of odd `size`.
    fn skip_pad(bytes: &mut LgVecReader<u8>, size: usize) -> (r: Result<(), Error>)
        requires
            old(bytes).wf(),
        ensures
            final(bytes).wf(),
            final(bytes).content() == old(bytes).content(),
            r is Ok <==> old(bytes).pos() + size % 2 <= old(bytes).content().len(),
            r is Ok ==> final(bytes).pos() == old(bytes).pos() + size % 2,
            r is Err ==> r == Err::<(), Error>(Error::Io(IoError::UnexpectedEof)),
    {
        proof {
            bytes.lemma_within();
        }
        if size % 2 == 1 {
            if bytes.reach_end() {
                return Err(Error::Io(IoError::UnexpectedEof));
            }
            bytes.read_quantity(1)?;
        }
        Ok(())
    }

    /// Writes the file out: the header, with the length of the chunks plus 4
    /// as the RIFF size, then the `fmt `, `fact` (if any) and `data` chunks.
    pub fn to_bytes(self) -> (r: Vec<u8>)
        ensures
            r@ == raw_bytes(self.view_raw()),
            r@.len() <= u32::MAX + 8 ==> u32_of(r@.subrange(4, 8)) == r@.len() - 8,
    {
        let ghost v = self.view_raw();
        let chunks = self.body_bytes();
        let mut result: Vec<u8> = Vec::new();
        crate::bytes::push_all(&mut result, &[0x52u8, 0x49, 0x46, 0x46]);
        assert(result@ =~= riff_id());
        let size = ((chunks.len() as u128 + 4) % 0x1_0000_0000) as u32;
        crate::bytes::push_all(&mut result, &crate::bytes::u32_to_le(size));
        crate::bytes::push_all(&mut result, &[0x57u8, 0x41, 0x56, 0x45]);
        assert(result@ =~= riff_id() + le32(size) + wave_id());
        crate::bytes::push_all(&mut result, chunks.as_slice());
        assert(result@ =~= raw_bytes(v));
        assert(result@.subrange(4, 8) =~= le32(size));
        proof {
            crate::bytes::lemma_u32_round_trip(size);
        }
        result
    }

    /// The chunks after `WAVE`.
    fn body_bytes(self) -> (r: Vec<u8>)
        ensures
            r@ == raw_body(self.view_raw()),
    {
        let ghost v = self.view_raw();
        proof {
            reveal(raw_body);
        }
        let mut chunks: Vec<u8> = Vec::new();
        crate::bytes::push_all(&mut chunks, &[0x66u8, 0x6d, 0x74, 0x20]);
        assert(chunks@ =~= fmt_id());
        let f = self.fmt.to_bytes();
        crate::bytes::push_all(&mut chunks, f.as_slice());
        if (f.len() - 4) % 2 == 1 {
            chunks.push(0u8);
        }
        assert(chunks@ =~= fmt_id() + fmt_chunk_bytes_of(v.0) + pad_after(fmt_written_len(v.0)));
        let ghost fact_part = match v.1 {
            None => Seq::<u8>::empty(),
            Some((size, len, other)) => fact_id() + fact_chunk_bytes_of(size, len, other) + pad_after(
                fact_written_len(size, other),
            ),
        };
        let ghost before = chunks@;
        match self.fact {
            Some(fact) => {
                crate::bytes::push_all(&mut chunks, &[0x66u8, 0x61, 0x63, 0x74]);
                assert(chunks@ =~= before + fact_id());
                let b = fact.to_bytes();
                crate::bytes::push_all(&mut chunks, b.as_slice());
                if (b.len() - 4) % 2 == 1 {
                    chunks.push(0u8);
                }
                assert(chunks@ =~= before + fact_part);
            },
            None => {
                assert(chunks@ =~= before + fact_part);
            },
        }
        let ghost mid = chunks@;
        crate::bytes::push_all(&mut chunks, &[0x64u8, 0x61, 0x74, 0x61]);
        assert(chunks@ =~= mid + data_id());
        let d = self.data.to_bytes();
        crate::bytes::push_all(&mut chunks, d.as_slice());
        assert(chunks@ =~= raw_body(v));
        chunks
    }
}

} // verus!
