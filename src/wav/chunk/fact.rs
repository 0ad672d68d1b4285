//! The `fact` chunk as it stands in a file.
use vstd::prelude::*;
use crate::bytes::{le32, u32_from_le, u32_of};
use crate::error::{Error, IoError};
use crate::reader::LgVecReader;

verus! {

/// A `fact` chunk: the sample length, and whatever bytes follow it.
#[derive(Debug)]
pub struct WavFactChunk {
    pub ck_size: usize,
    pub sample_length: u32,
    pub other: Vec<u8>,
}

/// The bytes `to_bytes` gives for a chunk of size `ck_size`, sample length
/// `len` and trailing bytes `other`: the sample length and trailing bytes cut
/// to the declared size, after a size field that gives their length.
pub open spec fn fact_chunk_bytes_of(ck_size: usize, len: u32, other: Seq<u8>) -> Seq<u8> {
    let n = fact_written_len(ck_size, other);
    le32((n % 0x1_0000_0000) as u32) + (le32(len) + other).subrange(0, n)
}

/// How many bytes of body `to_bytes` writes: the declared size, at most the
/// sample length and the trailing bytes there are.
pub open spec fn fact_written_len(ck_size: usize, other: Seq<u8>) -> int {
    if ck_size < 4 + other.len() {
        ck_size as int
    } else {
        4 + other.len() as int
    }
}

/// How many bytes reading a `fact` body of `ck_size` bytes takes: the body,
/// and never fewer than the four of the sample length.
pub open spec fn fact_span(ck_size: usize) -> int {
    if ck_size > 4 {
        ck_size as int
    } else {
        4
    }
}

/// The sample length and trailing bytes of a `fact` body of `ck_size` bytes
/// at `p0` in `s`.
#[verifier::opaque]
pub open spec fn fact_chunk_read(s: Seq<u8>, p0: int, ck_size: usize) -> Result<(u32, Seq<u8>), Error> {
    let n = fact_span(ck_size);
    if p0 < s.len() && p0 + n <= s.len() {
        Ok((u32_of(s.subrange(p0, p0 + 4)), s.subrange(p0 + 4, p0 + n)))
    } else {
        Err(Error::Io(IoError::UnexpectedEof))
    }
}

impl WavFactChunk {
    /// Reads a `fact` body of `ck_size` bytes: always the four bytes of the
    /// sample length, and the rest of the body when it is longer.
    pub fn read_bytes(ck_size: usize, bytes: &mut LgVecReader<u8>) -> (r: Result<Self, Error>)
        requires
            old(bytes).wf(),
        ensures
            final(bytes).wf(),
            final(bytes).content() == old(bytes).content(),
            r is Ok <==> fact_chunk_read(old(bytes).content(), old(bytes).pos(), ck_size) is Ok,
            r matches Err(e) ==> e == Error::Io(IoError::UnexpectedEof) && fact_chunk_read(
                old(bytes).content(),
                old(bytes).pos(),
                ck_size,
            ) == Err::<(u32, Seq<u8>), Error>(e),
            r matches Ok(c) ==> fact_chunk_read(old(bytes).content(), old(bytes).pos(), ck_size)
                == Ok::<(u32, Seq<u8>), Error>((c.sample_length, c.other@)) && c.ck_size == ck_size
                && final(bytes).pos() == old(bytes).pos() + fact_span(ck_size),
    {
        let ghost s = bytes.content();
        let ghost p0 = bytes.pos();
        proof {
            bytes.lemma_within();
            reveal(fact_chunk_read);
        }
        if ck_size > 4 && ck_size - 4 > bytes.len() - bytes.cursor() {
            return Err(Error::Io(IoError::UnexpectedEof));
        }
        let b = bytes.read_quantity(4)?;
        let sample_length = u32_from_le(b[0], b[1], b[2], b[3]);
        assert(s.subrange(p0, p0 + 4) =~= seq![b[0], b[1], b[2], b[3]]);
        let mut other: Vec<u8> = Vec::new();
        if ck_size > 4 {
            let rest = bytes.read_quantity(ck_size - 4)?;
            crate::bytes::push_all(&mut other, rest);
            assert(other@ =~= rest@);
        } else {
            assert(other@ =~= s.subrange(p0 + 4, p0 + 4));
        }
        Ok(WavFactChunk { ck_size, sample_length, other })
    }

    /// The sample length and the trailing bytes, cut to the declared size,
    /// after a size field that gives their length.
    pub fn to_bytes(self) -> (r: Vec<u8>)
        ensures
            r@ == fact_chunk_bytes_of(self.ck_size, self.sample_length, self.other@),
    {
        let mut payload: Vec<u8> = Vec::new();
        crate::bytes::push_all(&mut payload, &crate::bytes::u32_to_le(self.sample_length));
        crate::bytes::push_all(&mut payload, self.other.as_slice());
        let n: usize = if self.ck_size < payload.len() { self.ck_size } else { payload.len() };
        payload.truncate(n);
        let mut result: Vec<u8> = Vec::new();
        crate::bytes::push_all(&mut result, &crate::bytes::u32_to_le((n as u64 % 0x1_0000_0000) as u32));
        crate::bytes::push_all(&mut result, payload.as_slice());
        assert(result@ =~= fact_chunk_bytes_of(self.ck_size, self.sample_length, self.other@));
        result
    }
}

} // verus!
