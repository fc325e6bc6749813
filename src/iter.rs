//! Forward iteration over the bits of a `BitVec`, borrowing or consuming it.
//! Random access makes the remaining count exact and skipping O(1).

use vstd::prelude::*;
use crate::bitvec::BitVec;

verus! {

/// Allows forward iteration through the bits of a bit vector.
pub struct Iter<'a> {
    vec: &'a BitVec,
    index: usize,
}

/// Consumes and allows forward iteration through the bits of a bit vector.
pub struct IntoIter {
    vec: BitVec,
    index: usize,
}

impl BitVec {
    /// Returns an iterator over the bits, from index 0 up.
    pub fn iter(&self) -> (r: Iter<'_>)
        requires
            self.wf(),
        ensures
            r.wf(),
            r.bits() == self@,
            r.pos() == 0,
            r.pos() <= r.bits().len(),
    {
        Iter { vec: self, index: 0 }
    }

    /// Turns the vector into an iterator over its bits, from index 0 up.
    pub fn into_iter(self) -> (r: IntoIter)
        requires
            self.wf(),
        ensures
            r.wf(),
            r.bits() == self@,
            r.pos() == 0,
            r.pos() <= r.bits().len(),
    {
        IntoIter { vec: self, index: 0 }
    }
}

impl<'a> Iter<'a> {
    /// All the bits of the vector iterated over.
    pub closed spec fn bits(&self) -> Seq<bool> {
        self.vec@
    }

    /// The index of the next bit to come.
    pub closed spec fn pos(&self) -> nat {
        self.index as nat
    }

    /// The vector is well formed and the cursor is within it.
    pub closed spec fn wf(&self) -> bool {
        self.vec.wf() && self.index <= self.vec@.len()
    }

    /// The cursor of a well-formed iterator never passes the end.
    pub proof fn lemma_pos_in_range(&self)
        requires
            self.wf(),
        ensures
            self.pos() <= self.bits().len(),
    {
    }

    /// The bits still to come.
    pub open spec fn rest(&self) -> Seq<bool> {
        self.bits().subrange(self.pos() as int, self.bits().len() as int)
    }

    /// The exact number of bits left, as lower and upper bound.
    pub fn size_hint(&self) -> (r: (usize, Option<usize>))
        requires
            self.wf(),
        ensures
            r == (self.rest().len() as usize, Some(self.rest().len() as usize)),
    {
        let remaining = self.vec.len() - self.index;
        (remaining, Some(remaining))
    }

    /// The number of bits left.
    pub fn count(self) -> (r: usize)
        requires
            self.wf(),
        ensures
            r == self.rest().len(),
    {
        self.vec.len() - self.index
    }

    /// The last bit of the vector, if any bit is left.
    pub fn last(self) -> (r: Option<bool>)
        requires
            self.wf(),
        ensures
            r == (if self.rest().len() > 0 { Some(self.bits().last()) } else { None }),
    {
        let len = self.vec.len();
        if self.index < len {
            Some(self.vec.get_unchecked(len - 1))
        } else {
            None
        }
    }

    /// Skips `count` bits and yields the one after them; past the end the
    /// cursor stays at the end and `None` comes back.
    pub fn nth(&mut self, count: usize) -> (r: Option<bool>)
        requires
            old(self).wf(),
        ensures
            final(self).wf(),
            final(self).bits() == old(self).bits(),
            final(self).pos() <= final(self).bits().len(),
            count < old(self).rest().len() ==> r == Some(old(self).rest()[count as int])
                && final(self).pos() == old(self).pos() + count + 1,
            count >= old(self).rest().len() ==> r == None::<bool> && final(self).pos() == old(self).bits().len(),
    {
        self.index = if count >= self.vec.len() - self.index {
            self.vec.len()
        } else {
            self.index + count
        };
        self.next()
    }

    /// Yields the next bit, or `None` at the end.
    pub fn next(&mut self) -> (r: Option<bool>)
        requires
            old(self).wf(),
        ensures
            final(self).wf(),
            final(self).bits() == old(self).bits(),
            final(self).pos() <= final(self).bits().len(),
            old(self).rest().len() > 0 ==> r == Some(old(self).rest()[0]) && final(self).pos() == old(self).pos() + 1,
            old(self).rest().len() == 0 ==> r == None::<bool> && final(self).pos() == old(self).pos(),
    {
        if self.index >= self.vec.len() {
            None
        } else {
            let val = self.vec.get_unchecked(self.index);
            self.index += 1;
            Some(val)
        }
    }

    /// Collects the bits left into a vector.
    pub fn collect(self) -> (r: Vec<bool>)
        requires
            self.wf(),
        ensures
            r@ == self.rest(),
    {
        let mut out: Vec<bool> = Vec::new();
        let mut it = self;
        while it.index < it.vec.len()
            invariant
                it.wf(),
                it.bits() == self.bits(),
                self.pos() <= it.pos(),
                out@ == self.bits().subrange(self.pos() as int, it.pos() as int),
            decreases it.bits().len() - it.pos(),
        {
            let b = it.vec.get_unchecked(it.index);
            out.push(b);
            it.index += 1;
            assert(out@ =~= self.bits().subrange(self.pos() as int, it.pos() as int));
        }
        out
    }
}

impl<'a> Clone for Iter<'a> {
    /// Another cursor at the same place over the same vector.
    fn clone(&self) -> (r: Self)
        ensures
            r.bits() == self.bits(),
            r.pos() == self.pos(),
            r.wf() == self.wf(),
    {
        Iter { vec: self.vec, index: self.index }
    }
}

impl IntoIter {
    /// All the bits of the vector iterated over.
    pub closed spec fn bits(&self) -> Seq<bool> {
        self.vec@
    }

    /// The index of the next bit to come.
    pub closed spec fn pos(&self) -> nat {
        self.index as nat
    }

    /// The vector is well formed and the cursor is within it.
    pub closed spec fn wf(&self) -> bool {
        self.vec.wf() && self.index <= self.vec@.len()
    }

    /// The cursor of a well-formed iterator never passes the end.
    pub proof fn lemma_pos_in_range(&self)
        requires
            self.wf(),
        ensures
            self.pos() <= self.bits().len(),
    {
    }

    /// The bits still to come.
    pub open spec fn rest(&self) -> Seq<bool> {
        self.bits().subrange(self.pos() as int, self.bits().len() as int)
    }

    /// The exact number of bits left, as lower and upper bound.
    pub fn size_hint(&self) -> (r: (usize, Option<usize>))
        requires
            self.wf(),
        ensures
            r == (self.rest().len() as usize, Some(self.rest().len() as usize)),
    {
        let remaining = self.vec.len() - self.index;
        (remaining, Some(remaining))
    }

    /// The number of bits left.
    pub fn count(self) -> (r: usize)
        requires
            self.wf(),
        ensures
            r == self.rest().len(),
    {
        self.vec.len() - self.index
    }

    /// The last bit of the vector, if any bit is left.
    pub fn last(self) -> (r: Option<bool>)
        requires
            self.wf(),
        ensures
            r == (if self.rest().len() > 0 { Some(self.bits().last()) } else { None }),
    {
        let len = self.vec.len();
        if self.index < len {
            Some(self.vec.get_unchecked(len - 1))
        } else {
            None
        }
    }

    /// Skips `count` bits and yields the one after them; past the end the
    /// cursor stays at the end and `None` comes back.
    pub fn nth(&mut self, count: usize) -> (r: Option<bool>)
        requires
            old(self).wf(),
        ensures
            final(self).wf(),
            final(self).bits() == old(self).bits(),
            final(self).pos() <= final(self).bits().len(),
            count < old(self).rest().len() ==> r == Some(old(self).rest()[count as int])
                && final(self).pos() == old(self).pos() + count + 1,
            count >= old(self).rest().len() ==> r == None::<bool> && final(self).pos() == old(self).bits().len(),
    {
        self.index = if count >= self.vec.len() - self.index {
            self.vec.len()
        } else {
            self.index + count
        };
        self.next()
    }

    /// Yields the next bit, or `None` at the end.
    pub fn next(&mut self) -> (r: Option<bool>)
        requires
            old(self).wf(),
        ensures
            final(self).wf(),
            final(self).bits() == old(self).bits(),
            final(self).pos() <= final(self).bits().len(),
            old(self).rest().len() > 0 ==> r == Some(old(self).rest()[0]) && final(self).pos() == old(self).pos() + 1,
            old(self).rest().len() == 0 ==> r == None::<bool> && final(self).pos() == old(self).pos(),
    {
        if self.index >= self.vec.len() {
            None
        } else {
            let val = self.vec.get_unchecked(self.index);
            self.index += 1;
            Some(val)
        }
    }

    /// Collects the bits left into a vector.
    pub fn collect(self) -> (r: Vec<bool>)
        requires
            self.wf(),
        ensures
            r@ == self.rest(),
    {
        let ghost bits = self.bits();
        let ghost start = self.pos();
        let mut out: Vec<bool> = Vec::new();
        let mut it = self;
        while it.index < it.vec.len()
            invariant
                it.wf(),
                it.bits() == bits,
                start <= it.pos(),
                out@ == bits.subrange(start as int, it.pos() as int),
            decreases it.bits().len() - it.pos(),
        {
            let b = it.vec.get_unchecked(it.index);
            out.push(b);
            it.index += 1;
            assert(out@ =~= bits.subrange(start as int, it.pos() as int));
        }
        out
    }
}

} // verus!
