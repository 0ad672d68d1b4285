//! An in-memory byte source: a vector with a read cursor.
use vstd::prelude::*;
use vstd::slice::slice_subrange;
use crate::error::{Error, IoError};

verus! {

/// A vector read front to back through a cursor that never passes its end.
#[derive(Debug)]
pub struct LgVecReader<T> {
    cursor: usize,
    data: Vec<T>,
}

impl<T> LgVecReader<T> {
    /// How many items have been consumed.
    pub closed spec fn pos(&self) -> int {
        self.cursor as int
    }

    /// Everything the reader holds, consumed or not.
    pub closed spec fn content(&self) -> Seq<T> {
        self.data@
    }

    /// The cursor stands within the data.
    pub closed spec fn wf(&self) -> bool {
        self.cursor <= self.data.len()
    }

    /// The cursor of a well-formed reader stands within its data.
    pub proof fn lemma_within(&self)
        requires
            self.wf(),
        ensures
            0 <= self.pos() <= self.content().len(),
    {
    }

    /// A reader at the start of `data`.
    pub fn new(data: Vec<T>) -> (r: Self)
        ensures
            r.wf(),
            r.pos() == 0,
            r.content() == data@,
    {
        LgVecReader { cursor: 0, data }
    }

    /// The whole vector, consumed or not.
    pub fn inner(self) -> (r: Vec<T>)
        ensures
            r@ == self.content(),
    {
        self.data
    }

    /// The number of items held, consumed or not.
    pub fn len(&self) -> (r: usize)
        ensures
            r == self.content().len(),
    {
        self.data.len()
    }

    /// How many items have been consumed.
    pub fn cursor(&self) -> (r: usize)
        ensures
            r == self.pos(),
    {
        self.cursor
    }

    /// The next `n` items. Errors if the cursor is at the end, or if fewer than
    /// `n` items are left; the reader is then unchanged.
    pub fn read_quantity(&mut self, n: usize) -> (r: Result<&[T], Error>)
        requires
            old(self).wf(),
        ensures
            final(self).wf(),
            final(self).content() == old(self).content(),
            r is Ok <==> old(self).pos() < old(self).content().len() && old(self).pos() + n <= old(self).content().len(),
            r matches Ok(s) ==> s@ == old(self).content().subrange(
                old(self).pos(),
                old(self).pos() + n,
            ) && final(self).pos() == old(self).pos() + n,
            r matches Err(e) ==> e == Error::Io(IoError::UnexpectedEof) && final(self).pos() == old(self).pos(),
    {
        if self.check_n(0).is_err() || n > self.data.len() - self.cursor {
            return Err(Error::Io(IoError::UnexpectedEof));
        }
        let start = self.cursor;
        self.cursor = self.cursor + n;
        Ok(slice_subrange(self.data.as_slice(), start, start + n))
    }

    /// Every item not yet consumed. Errors if the cursor is at the end.
    pub fn read_to_end(&mut self) -> (r: Result<&[T], Error>)
        requires
            old(self).wf(),
        ensures
            final(self).wf(),
            final(self).content() == old(self).content(),
            r is Ok <==> old(self).pos() < old(self).content().len(),
            r matches Ok(s) ==> s@ == old(self).content().subrange(
                old(self).pos(),
                old(self).content().len() as int,
            ) && final(self).pos() == old(self).content().len(),
            r matches Err(e) ==> e == Error::Io(IoError::UnexpectedEof) && final(self).pos() == old(self).pos(),
    {
        if self.check_n(0).is_err() {
            return Err(Error::Io(IoError::UnexpectedEof));
        }
        let start = self.cursor;
        let end = self.data.len();
        self.cursor = end;
        Ok(slice_subrange(self.data.as_slice(), start, end))
    }

    /// Moves the cursor `n` items on. Errors, leaving it in place, unless at
    /// least one item is left after them.
    pub fn skip_quantity(&mut self, n: usize) -> (r: Result<(), Error>)
        requires
            old(self).wf(),
        ensures
            final(self).wf(),
            final(self).content() == old(self).content(),
            r is Ok <==> old(self).pos() + n < old(self).content().len(),
            r is Ok ==> final(self).pos() == old(self).pos() + n,
            r is Err ==> r == Err::<(), Error>(Error::Io(IoError::UnexpectedEof)) && final(self).pos() == old(self).pos(),
    {
        self.check_n(n)?;
        self.cursor = self.cursor + n;
        Ok(())
    }

    /// Whether every item has been consumed.
    pub fn reach_end(&self) -> (r: bool)
        requires
            self.wf(),
        ensures
            r == (self.pos() >= self.content().len()),
    {
        self.check_n(0).is_err()
    }

    /// Cuts the next `n` items out of this reader into a reader of their own.
    /// The cursor stays where it is, now before the items that followed them.
    pub fn take_quantity(&mut self, n: usize) -> (r: Self)
        requires
            old(self).wf(),
            old(self).pos() + n <= old(self).content().len(),
        ensures
            final(self).wf(),
            r.wf(),
            r.pos() == 0,
            r.content() == old(self).content().subrange(old(self).pos(), old(self).pos() + n),
            final(self).pos() == old(self).pos(),
            final(self).content() == old(self).content().subrange(0, old(self).pos())
                + old(self).content().subrange(old(self).pos() + n, old(self).content().len() as int),
    {
        let cursor = self.cursor;
        let mut result = self.data.split_off(cursor);
        let mut right = result.split_off(n);
        self.data.append(&mut right);
        LgVecReader::new(result)
    }

    /// Errors unless more than `n` items are left.
    fn check_n(&self, n: usize) -> (r: Result<(), Error>)
        requires
            self.wf(),
        ensures
            r is Ok <==> self.pos() + n < self.content().len(),
            r is Err ==> r == Err::<(), Error>(Error::Io(IoError::UnexpectedEof)),
    {
        if n >= self.data.len() - self.cursor {
            return Err(Error::Io(IoError::UnexpectedEof));
        }
        Ok(())
    }
}

} // verus!
