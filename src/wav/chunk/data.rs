//! The `data` chunk as it stands in a file.
use vstd::prelude::*;
use crate::bytes::le32;
use crate::error::{Error, IoError};
use crate::reader::LgVecReader;

verus! {

/// A `data` chunk: its declared size and its bytes.
#[derive(Debug)]
pub struct WavDataChunk {
    pub ck_size: usize,
    pub data: Vec<u8>,
}

/// The bytes `to_bytes` gives: a size field that gives the length of the
/// data, the data, and a zero pad byte after data of odd size.
pub open spec fn data_chunk_bytes_of(data: Seq<u8>) -> Seq<u8> {
    le32((data.len() as int % 0x1_0000_0000) as u32) + data + if data.len() % 2 == 1 {
        seq![0u8]
    } else {
        Seq::empty()
    }
}

impl WavDataChunk {
    /// Reads a `data` body of `ck_size` bytes, and steps over the pad byte
    /// that follows a body of odd size, where the source holds one.
    pub fn read_bytes(ck_size: usize, bytes: &mut LgVecReader<u8>) -> (r: Result<Self, Error>)
        requires
            old(bytes).wf(),
        ensures
            final(bytes).wf(),
            final(bytes).content() == old(bytes).content(),
            ({
                let s = old(bytes).content();
                let p0 = old(bytes).pos();
                let end = p0 + ck_size;
                &&& r is Ok <==> ck_size == 0 || (p0 < s.len() && end <= s.len())
                &&& r is Err ==> r.unwrap_err() == Error::Io(IoError::UnexpectedEof)
                &&& r matches Ok(c) ==> c.ck_size == ck_size && c.data@ == s.subrange(p0, end)
                    && final(bytes).pos() == if ck_size % 2 == 1 && end < s.len() { end + 1 } else { end }
            }),
    {
        let ghost s = bytes.content();
        let ghost p0 = bytes.pos();
        proof {
            bytes.lemma_within();
        }
        let mut data: Vec<u8> = Vec::new();
        if ck_size > 0 {
            let body = bytes.read_quantity(ck_size)?;
            crate::bytes::push_all(&mut data, body);
            assert(data@ =~= body@);
        } else {
            assert(data@ =~= s.subrange(p0, p0));
        }
        if ck_size % 2 == 1 && !bytes.reach_end() {
            let _pad = bytes.read_quantity(1);
        }
        Ok(WavDataChunk { ck_size, data })
    }

    /// A size field that gives the length of the data, the data, and a zero
    /// pad byte after data of odd size.
    pub fn to_bytes(self) -> (r: Vec<u8>)
        ensures
            r@ == data_chunk_bytes_of(self.data@),
    {
        let mut result: Vec<u8> = Vec::new();
        crate::bytes::push_all(&mut result, &crate::bytes::u32_to_le((self.data.len() as u64 % 0x1_0000_0000) as u32));
        let odd = self.data.len() % 2 == 1;
        crate::bytes::push_all(&mut result, self.data.as_slice());
        if odd {
            result.push(0u8);
        }
        let ghost want = data_chunk_bytes_of(self.data@);
        assert(result@ =~= want);
        result
    }
}

} // verus!
