//! An in-memory byte sink that can seek back and overwrite.
use vstd::prelude::*;
use crate::bytes::{bits32, le16, le32, le64, u16_to_le, u32_to_le};

verus! {

/// `d` with `b` written over it from `p` on, growing it where `b` runs past
/// its end.
pub open spec fn splice(d: Seq<u8>, p: int, b: Seq<u8>) -> Seq<u8> {
    d.subrange(0, p) + b + if p + b.len() < d.len() {
        d.subrange(p + b.len(), d.len() as int)
    } else {
        Seq::empty()
    }
}

/// Writing a run of bytes over a run of the same length in the middle of a
/// sequence replaces just that run.
pub proof fn lemma_splice_middle(a: Seq<u8>, b: Seq<u8>, c: Seq<u8>, b2: Seq<u8>)
    requires
        b.len() == b2.len(),
    ensures
        splice(a + b + c, a.len() as int, b2) == a + b2 + c,
{
    let d = a + b + c;
    assert(d.subrange(0, a.len() as int) =~= a);
    if a.len() + b2.len() < d.len() {
        assert(d.subrange((a.len() + b2.len()) as int, d.len() as int) =~= c);
    } else {
        assert(c.len() == 0);
        assert(c =~= Seq::<u8>::empty());
    }
    assert(splice(d, a.len() as int, b2) =~= a + b2 + c);
}

/// Writing at the end of a sequence appends.
pub proof fn lemma_splice_end(d: Seq<u8>, b: Seq<u8>)
    ensures
        splice(d, d.len() as int, b) == d + b,
{
    assert(d.subrange(0, d.len() as int) =~= d);
    assert(splice(d, d.len() as int, b) =~= d + b);
}

/// Writing one more byte of `b` sets the byte after the run, or appends it.
proof fn lemma_splice_step(d: Seq<u8>, p: int, b: Seq<u8>, i: int)
    requires
        0 <= p <= d.len(),
        0 <= i < b.len(),
    ensures
        splice(d, p, b.subrange(0, i)).len() == if p + i < d.len() { d.len() as int } else { p + i },
        splice(d, p, b.subrange(0, i + 1)) == if p + i < d.len() {
            splice(d, p, b.subrange(0, i)).update(p + i, b[i])
        } else {
            splice(d, p, b.subrange(0, i)).push(b[i])
        },
{
    let prev = splice(d, p, b.subrange(0, i));
    let next = splice(d, p, b.subrange(0, i + 1));
    if p + i < d.len() {
        assert(next =~= prev.update(p + i, b[i]));
    } else {
        assert(next =~= prev.push(b[i]));
    }
}

/// A growable byte buffer with a write position.
#[derive(Debug)]
pub struct LgVecWriter {
    data: Vec<u8>,
    position: usize,
}

impl LgVecWriter {
    /// Everything written so far.
    pub closed spec fn content(&self) -> Seq<u8> {
        self.data@
    }

    /// Where the next write goes.
    pub closed spec fn pos(&self) -> int {
        self.position as int
    }

    pub closed spec fn wf(&self) -> bool {
        self.position <= self.data.len()
    }

    /// An empty sink.
    pub fn new() -> (r: Self)
        ensures
            r.wf(),
            r.content() == Seq::<u8>::empty(),
            r.pos() == 0,
    {
        LgVecWriter { data: Vec::new(), position: 0 }
    }

    /// The number of bytes held.
    pub fn len(&self) -> (r: usize)
        ensures
            r == self.content().len(),
    {
        self.data.len()
    }

    /// Where the next write goes.
    pub fn position(&self) -> (r: usize)
        ensures
            r == self.pos(),
    {
        self.position
    }

    /// Moves the write position to `position`, filling with zeros up to it
    /// where it lies past the end. Returns the new position.
    pub fn go_to(&mut self, position: usize) -> (r: usize)
        requires
            old(self).wf(),
        ensures
            final(self).wf(),
            r == position,
            final(self).pos() == position,
            position <= old(self).content().len() ==> final(self).content() == old(self).content(),
            position > old(self).content().len() ==> final(self).content() == old(self).content()
                + Seq::new((position - old(self).content().len()) as nat, |i: int| 0u8),
    {
        if position > self.data.len() {
            let ghost before = self.data@;
            self.data.resize(position, 0u8);
            assert(self.data@ =~= before + Seq::new((position - before.len()) as nat, |i: int| 0u8));
        }
        self.position = position;
        position
    }

    /// Writes `bytes` at the write position, over what is there and past it.
    pub fn write(&mut self, bytes: &[u8])
        requires
            old(self).wf(),
            old(self).pos() + bytes@.len() <= usize::MAX,
        ensures
            final(self).wf(),
            final(self).content() == splice(old(self).content(), old(self).pos(), bytes@),
            final(self).pos() == old(self).pos() + bytes@.len(),
    {
        let ghost d0 = self.data@;
        let ghost p0 = self.position as int;
        let mut i: usize = 0;
        assert(splice(d0, p0, bytes@.subrange(0, 0)) =~= d0);
        while i < bytes.len()
            invariant
                self.wf(),
                i <= bytes@.len(),
                self.position == p0 + i,
                p0 + bytes@.len() <= usize::MAX,
                0 <= p0 <= d0.len(),
                self.data@ == splice(d0, p0, bytes@.subrange(0, i as int)),
            decreases bytes@.len() - i,
        {
            proof {
                lemma_splice_step(d0, p0, bytes@, i as int);
            }
            if self.position < self.data.len() {
                self.data.set(self.position, bytes[i]);
            } else {
                self.data.push(bytes[i]);
            }
            self.position = self.position + 1;
            i = i + 1;
        }
        assert(bytes@.subrange(0, i as int) =~= bytes@);
    }

    /// Writes one byte.
    pub fn write_le_u8(&mut self, data: u8)
        requires
            old(self).wf(),
            old(self).pos() + 1 <= usize::MAX,
        ensures
            final(self).wf(),
            final(self).content() == splice(old(self).content(), old(self).pos(), seq![data]),
            final(self).pos() == old(self).pos() + 1,
    {
        let b = [data];
        assert(b@ =~= seq![data]);
        self.write(&b);
    }

    /// Writes a signed 8-bit sample as the unsigned byte of a WAVE file.
    pub fn write_le_i8(&mut self, data: i8)
        requires
            old(self).wf(),
            old(self).pos() + 1 <= usize::MAX,
        ensures
            final(self).wf(),
            final(self).content() == splice(old(self).content(), old(self).pos(), seq![(data + 128) as u8]),
            final(self).pos() == old(self).pos() + 1,
    {
        self.write_le_u8(crate::tools::i8_to_u8(data));
    }

    /// Writes a little-endian `u16`.
    pub fn write_le_u16(&mut self, data: u16)
        requires
            old(self).wf(),
            old(self).pos() + 2 <= usize::MAX,
        ensures
            final(self).wf(),
            final(self).content() == splice(old(self).content(), old(self).pos(), le16(data)),
            final(self).pos() == old(self).pos() + 2,
    {
        let b = u16_to_le(data);
        self.write(&b);
    }

    /// Writes a little-endian `u32`.
    pub fn write_le_u32(&mut self, data: u32)
        requires
            old(self).wf(),
            old(self).pos() + 4 <= usize::MAX,
        ensures
            final(self).wf(),
            final(self).content() == splice(old(self).content(), old(self).pos(), le32(data)),
            final(self).pos() == old(self).pos() + 4,
    {
        let b = u32_to_le(data);
        self.write(&b);
    }

    /// Writes a little-endian `u64`.
    pub fn write_le_u64(&mut self, data: u64)
        requires
            old(self).wf(),
            old(self).pos() + 8 <= usize::MAX,
        ensures
            final(self).wf(),
            final(self).content() == splice(old(self).content(), old(self).pos(), le64(data)),
            final(self).pos() == old(self).pos() + 8,
    {
        let lo = u32_to_le((data % 0x1_0000_0000) as u32);
        let hi = u32_to_le((data / 0x1_0000_0000) as u32);
        let b = [lo[0], lo[1], lo[2], lo[3], hi[0], hi[1], hi[2], hi[3]];
        assert(b@ =~= le64(data));
        self.write(&b);
    }

    /// Writes the low three bytes of `data`, little-endian.
    pub fn write_le_i32_24(&mut self, data: i32)
        requires
            old(self).wf(),
            old(self).pos() + 3 <= usize::MAX,
        ensures
            final(self).wf(),
            final(self).content() == splice(old(self).content(), old(self).pos(), le32(bits32(data)).subrange(0, 3)),
            final(self).pos() == old(self).pos() + 3,
    {
        let u: u32 = if data < 0 { (data as i64 + 0x1_0000_0000) as u32 } else { data as u32 };
        let w = u32_to_le(u);
        let b = [w[0], w[1], w[2]];
        assert(b@ =~= le32(bits32(data)).subrange(0, 3));
        self.write(&b);
    }

    /// Everything written, borrowed.
    pub fn as_slice(&self) -> (r: &[u8])
        ensures
            r@ == self.content(),
    {
        self.data.as_slice()
    }

    /// Everything written.
    pub fn into_inner(self) -> (r: Vec<u8>)
        ensures
            r@ == self.content(),
    {
        self.data
    }
}

} // verus!
