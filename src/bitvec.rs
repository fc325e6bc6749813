//! The bit vector: a byte buffer and a bit count, kept in the canonical
//! LSB-0 layout with zeroed padding.

use vstd::prelude::*;
use vstd::slice::slice_to_vec;
use crate::bits::{
    bit_of, clear_padding, bits_of, byte_from_bool, bytes_for, bytes_in_bits, lemma_bits_update,
    lemma_extend_high_clear, lemma_high_clear, lemma_low_mask, lemma_test_bit, lemma_unit_bytes,
    lemma_write_bit, lemma_write_keeps_high_clear, padding_clear,
};

verus! {

/// Relies on `Vec::capacity`: a vector's capacity is never below its length.
#[verifier::external_body]
fn byte_capacity(v: &Vec<u8>) -> (r: usize)
    ensures
        r >= v@.len(),
{
    v.capacity()
}

/// The bit capacity of a buffer of `c` bytes: `8 * c`, saturating at `usize::MAX`.
pub fn bits_for_byte_capacity(c: usize) -> (r: usize)
    ensures
        r == (if c > usize::MAX / 8 { usize::MAX } else { (c * 8) as usize }),
{
    if c > usize::MAX / 8 {
        usize::MAX
    } else {
        c * 8
    }
}

const TRUE: bool = true;

const FALSE: bool = false;

/// Bit vector with a guaranteed `[u8]` LSB-0 representation. The unused bits of
/// the last byte are always 0, so the bytes are a faithful image of the bits.
#[derive(Debug)]
pub struct BitVec {
    nbits: usize,
    vec: Vec<u8>,
}

impl View for BitVec {
    type V = Seq<bool>;

    /// The bits, in index order.
    closed spec fn view(&self) -> Seq<bool> {
        bits_of(self.vec@, self.nbits as nat)
    }
}

impl BitVec {
    /// The backing bytes.
    pub closed spec fn bytes(&self) -> Seq<u8> {
        self.vec@
    }

    /// The layout invariant: `ceil(len / 8)` bytes, padding bits clear.
    pub closed spec fn wf(&self) -> bool {
        &&& self.vec@.len() == bytes_for(self.nbits as nat)
        &&& padding_clear(self.vec@, self.nbits as nat)
    }

    /// In every well-formed vector the bytes number `ceil(len / 8)`, the bits
    /// at positions from `len` up in the last byte are 0, and bit `i` is bit
    /// `i % 8` of byte `i / 8`. Every operation keeps the vector well formed, so
    /// this holds in every reachable state.
    pub proof fn lemma_layout(&self)
        requires
            self.wf(),
        ensures
            self.bytes().len() == bytes_for(self@.len()),
            padding_clear(self.bytes(), self@.len()),
            forall|j: int| self@.len() <= j < 8 * self.bytes().len() ==> !#[trigger] bit_of(self.bytes()[j / 8], (j % 8) as u8),
            self@ == bits_of(self.bytes(), self@.len()),
    {
        let n = self@.len();
        assert forall|j: int| n <= j < 8 * self.bytes().len() implies !#[trigger] bit_of(self.bytes()[j / 8], (j % 8) as u8) by {
            assert(j / 8 == self.bytes().len() - 1 && n % 8 != 0);
            lemma_high_clear(self.bytes().last(), (n % 8) as u8, (j % 8) as u8);
        }
    }

    /// `==` compares lengths and bytes.
    pub proof fn lemma_same_as(&self, other: &BitVec)
        ensures
            self.same_as(other) == (self@.len() == other@.len() && self.bytes() == other.bytes()),
    {
    }

    /// Constructs an empty `BitVec`.
    pub fn new() -> (r: Self)
        ensures
            r.wf(),
            r@ == Seq::<bool>::empty(),
    {
        let r = BitVec { vec: Vec::new(), nbits: 0 };
        assert(r@ =~= Seq::<bool>::empty());
        r
    }

    /// Constructs an empty `BitVec` with room for `capacity` bits.
    pub fn with_capacity(capacity: usize) -> (r: Self)
        ensures
            r.wf(),
            r@ == Seq::<bool>::empty(),
    {
        let r = BitVec { vec: Vec::with_capacity(bytes_in_bits(capacity)), nbits: 0 };
        assert(r@ =~= Seq::<bool>::empty());
        r
    }

    /// Returns the length of the bit vector.
    pub fn len(&self) -> (r: usize)
        ensures
            r == self@.len(),
    {
        self.nbits
    }

    /// Returns whether the vector is empty.
    pub fn is_empty(&self) -> (r: bool)
        ensures
            r == (self@.len() == 0),
    {
        self.nbits == 0
    }

    /// Gets the bit at `index`, which the caller has checked to be in range.
    pub fn get_unchecked(&self, index: usize) -> (r: bool)
        requires
            self.wf(),
            index < self@.len(),
        ensures
            r == self@[index as int],
    {
        let byte = self.vec[index / 8];
        let k = (index % 8) as u8;
        proof {
            lemma_test_bit(byte, k);
        }
        (byte & (1u8 << k)) != 0u8
    }

    /// Sets the bit at `index`, which the caller has checked to be in range.
    pub fn set_unchecked(&mut self, index: usize, value: bool)
        requires
            old(self).wf(),
            index < old(self)@.len(),
        ensures
            final(self).wf(),
            final(self)@ == old(self)@.update(index as int, value),
    {
        let q = index / 8;
        let k = (index % 8) as u8;
        let byte = self.vec[q];
        let pattern = 1u8 << k;
        let nb = if value { byte | pattern } else { byte & !pattern };
        proof {
            assert forall|j: u8| j < 8 implies bit_of(nb, j) == (if j == k { value } else { bit_of(byte, j) }) by {
                lemma_write_bit(byte, k, j);
            }
            lemma_bits_update(self.vec@, self.nbits as nat, index as int, value, nb);
            let m = self.nbits % 8;
            if m != 0 && q == self.vec@.len() - 1 {
                lemma_write_keeps_high_clear(byte, k, m as u8);
            }
        }
        self.vec.set(q, nb);
    }

    /// Gets the bit at `index`, or `None` past the end.
    pub fn get(&self, index: usize) -> (r: Option<bool>)
        requires
            self.wf(),
        ensures
            r == (if index < self@.len() { Some(self@[index as int]) } else { None }),
    {
        if index < self.len() {
            Some(self.get_unchecked(index))
        } else {
            None
        }
    }

    /// Sets the bit at `index`; the index must be in range.
    pub fn set(&mut self, index: usize, value: bool)
        requires
            old(self).wf(),
            index < old(self)@.len(),
        ensures
            final(self).wf(),
            final(self)@ == old(self)@.update(index as int, value),
    {
        self.set_unchecked(index, value);
    }

    /// Swaps the bits at `i` and `j`; both must be in range.
    pub fn swap(&mut self, i: usize, j: usize)
        requires
            old(self).wf(),
            i < old(self)@.len(),
            j < old(self)@.len(),
        ensures
            final(self).wf(),
            final(self)@ == old(self)@.update(i as int, old(self)@[j as int]).update(j as int, old(self)@[i as int]),
    {
        let val_i = self.get_unchecked(i);
        let val_j = self.get_unchecked(j);
        self.set_unchecked(i, val_j);
        self.set_unchecked(j, val_i);
    }

    /// Pushes a bit onto the end.
    pub fn push(&mut self, value: bool)
        requires
            old(self).wf(),
            old(self)@.len() < usize::MAX,
        ensures
            final(self).wf(),
            final(self)@ == old(self)@.push(value),
    {
        let nbits = self.nbits;
        let ghost before = self@;
        if nbits % 8 == 0 {
            self.vec.push(if value { 1u8 } else { 0u8 });
            self.nbits = nbits + 1;
            proof {
                lemma_unit_bytes();
                let nv = self.vec@;
                assert(nv.len() == bytes_for(self.nbits as nat));
                assert forall|j: int| 0 <= j < self.nbits implies #[trigger] self@[j] == before.push(value)[j] by {
                    if j < nbits {
                        assert(j / 8 < nbits / 8);
                        assert(nv[j / 8] == old(self).vec@[j / 8]);
                    } else {
                        assert(j / 8 == nbits / 8 && j % 8 == 0);
                    }
                }
                assert(self@ =~= before.push(value));
            }
        } else {
            let ghost last = self.vec@.last();
            proof {
                lemma_high_clear(last, (nbits % 8) as u8, (nbits % 8) as u8);
            }
            self.nbits = nbits + 1;
            proof {
                assert(self@ =~= before.push(false));
            }
            self.set_unchecked(nbits, value);
            proof {
                assert(before.push(false).update(nbits as int, value) =~= before.push(value));
            }
        }
    }

    /// Pops the last bit, or returns `None` when empty.
    #[verifier::rlimit(40)]
    pub fn pop(&mut self) -> (r: Option<bool>)
        requires
            old(self).wf(),
        ensures
            final(self).wf(),
            old(self)@.len() == 0 ==> r == None::<bool> && final(self)@ == old(self)@,
            old(self)@.len() > 0 ==> r == Some(old(self)@.last()) && final(self)@ == old(self)@.drop_last(),
    {
        if self.nbits == 0 {
            return None;
        }
        let n = self.nbits - 1;
        let ghost before = self@;
        let value = self.get_unchecked(n);
        self.set_unchecked(n, false);
        let ghost cleared = self.vec@;
        let ghost cleared_bits = self@;
        proof {
            let m = (n % 8) as u8;
            assert(self@.len() == before.len());
            assert(self@.len() == self.nbits);
            assert(self.nbits == n + 1);
            assert(cleared.len() == (n + 8) / 8);
            let last = cleared.last();
            if n % 8 != 0 {
                assert(cleared.len() - 1 == n as int / 8);
                assert(cleared[n as int / 8] == last);
                assert(self@[n as int] == bit_of(last, m));
                if m < 7 {
                    assert((n + 1) % 8 == m + 1);
                }
                lemma_extend_high_clear(last, m);
            }
        }
        self.nbits = n;
        if n % 8 == 0 {
            self.vec.pop();
        }
        proof {
            assert forall|j: int| 0 <= j < n implies #[trigger] self@[j] == before.drop_last()[j] by {
                assert(j / 8 < self.vec@.len());
                assert(self.vec@[j / 8] == cleared[j / 8]);
                assert(cleared_bits[j] == bit_of(cleared[j / 8], (j % 8) as u8));
                assert(cleared_bits[j] == before[j]);
            }
            assert(self@ =~= before.drop_last());
        }
        Some(value)
    }

    /// Clears the unused high bits of the last byte.
    fn set_unused_zero(&mut self)
        requires
            old(self).vec@.len() == bytes_for(old(self).nbits as nat),
        ensures
            final(self).wf(),
            final(self).nbits == old(self).nbits,
            final(self)@ == old(self)@,
            final(self).vec@ == clear_padding(old(self).vec@, old(self).nbits as nat),
    {
        if self.nbits % 8 == 0 {
            return;
        }
        let len = self.vec.len();
        let byte = self.vec[len - 1];
        let m = (self.nbits % 8) as u8;
        assert((1u8 << m) >= 1u8) by (bit_vector)
            requires
                m < 8,
        ;
        let pattern = (1u8 << m) - 1;
        let nb = byte & pattern;
        let ghost before = self@;
        proof {
            assert(((1u8 << m) - 1) as u8 == pattern) by (bit_vector)
                requires
                    0 < m < 8,
                    pattern == (1u8 << m) - 1,
            ;
            lemma_low_mask(byte, m, 0);
        }
        self.vec.set(len - 1, nb);
        proof {
            assert forall|j: int| 0 <= j < self.nbits implies #[trigger] self@[j] == before[j] by {
                if j / 8 == len - 1 {
                    assert(j % 8 < m);
                    lemma_low_mask(byte, m, (j % 8) as u8);
                }
            }
            assert(self@ =~= before);
        }
    }

    /// Constructs a `BitVec` holding the bits of `bytes`, eight per byte.
    pub fn from_bytes(bytes: &[u8]) -> (r: Self)
        requires
            bytes@.len() * 8 <= usize::MAX,
        ensures
            r.wf(),
            r.bytes() == bytes@,
            r@ == bits_of(bytes@, bytes@.len() * 8),
    {
        let mut vec = BitVec { vec: slice_to_vec(bytes), nbits: bytes.len() * 8 };
        vec.set_unused_zero();
        vec
    }

    /// Constructs a `BitVec` holding the given bits.
    pub fn from_bools(bools: &[bool]) -> (r: Self)
        ensures
            r.wf(),
            r@ == bools@,
    {
        let mut vec = Self::with_capacity(bools.len());
        let mut i: usize = 0;
        while i < bools.len()
            invariant
                vec.wf(),
                i <= bools@.len(),
                vec@ == bools@.subrange(0, i as int),
            decreases bools@.len() - i,
        {
            vec.push(bools[i]);
            i += 1;
            assert(vec@ =~= bools@.subrange(0, i as int));
        }
        assert(bools@.subrange(0, i as int) =~= bools@);
        vec
    }

    /// Constructs a `BitVec` of `len` copies of `value`.
    pub fn from_elem(len: usize, value: bool) -> (r: Self)
        ensures
            r.wf(),
            r@ == Seq::new(len as nat, |_i: int| value),
    {
        let nbytes = bytes_in_bits(len);
        let fill = byte_from_bool(value);
        let mut bytes: Vec<u8> = Vec::with_capacity(nbytes);
        let mut i: usize = 0;
        while i < nbytes
            invariant
                i <= nbytes,
                bytes@.len() == i,
                forall|q: int| 0 <= q < i ==> bytes@[q] == fill,
            decreases nbytes - i,
        {
            bytes.push(fill);
            i += 1;
        }
        let mut vec = BitVec { vec: bytes, nbits: len };
        proof {
            assert forall|j: int| 0 <= j < len implies #[trigger] vec@[j] == value by {
                assert(j / 8 < nbytes);
            }
        }
        vec.set_unused_zero();
        assert(vec@ =~= Seq::new(len as nat, |_i: int| value));
        vec
    }

    /// Returns a view of the backing bytes.
    pub fn as_bytes(&self) -> (r: &[u8])
        ensures
            r@ == self.bytes(),
    {
        self.vec.as_slice()
    }

    /// Consumes the vector and returns its bytes, `ceil(len / 8)` of them, with
    /// the unused bits of the last byte set to 0.
    pub fn into_bytes(self) -> (r: Vec<u8>)
        ensures
            r@ == self.bytes(),
    {
        self.vec
    }

    /// Removes every bit.
    pub fn clear(&mut self)
        ensures
            final(self).wf(),
            final(self)@ == Seq::<bool>::empty(),
    {
        self.vec.clear();
        self.nbits = 0;
        assert(self@ =~= Seq::<bool>::empty());
    }

    /// Shortens the vector to `len` bits; does nothing if it is not longer.
    pub fn truncate(&mut self, len: usize)
        requires
            old(self).wf(),
        ensures
            final(self).wf(),
            final(self)@ == (if len < old(self)@.len() { old(self)@.subrange(0, len as int) } else { old(self)@ }),
    {
        if len < self.len() {
            let ghost before = self@;
            let ghost old_bytes = self.vec@;
            let nbytes = bytes_in_bits(len);
            self.vec.truncate(nbytes);
            self.nbits = len;
            proof {
                assert forall|j: int| 0 <= j < len implies #[trigger] self@[j] == before[j] by {
                    assert(j / 8 < nbytes);
                    assert(self.vec@[j / 8] == old_bytes[j / 8]);
                }
                assert(self@ =~= before.subrange(0, len as int));
            }
            self.set_unused_zero();
        }
    }

    /// Sets the length to `new_len`: pushes `value` while it is shorter, and
    /// truncates, ignoring `value`, while it is longer.
    pub fn resize(&mut self, new_len: usize, value: bool)
        requires
            old(self).wf(),
        ensures
            final(self).wf(),
            final(self)@ == (if new_len > old(self)@.len() {
                old(self)@ + Seq::new((new_len - old(self)@.len()) as nat, |_i: int| value)
            } else {
                old(self)@.subrange(0, new_len as int)
            }),
    {
        if new_len > self.len() {
            let additional = new_len - self.len();
            self.reserve(additional);
            let ghost before = self@;
            let mut i: usize = 0;
            while i < additional
                invariant
                    self.wf(),
                    i <= additional,
                    additional == new_len - before.len(),
                    self@ == before + Seq::new(i as nat, |_i: int| value),
                decreases additional - i,
            {
                self.push(value);
                i += 1;
                assert(self@ =~= before + Seq::new(i as nat, |_i: int| value));
            }
        } else {
            self.truncate(new_len);
            assert(self@ =~= old(self)@.subrange(0, new_len as int));
        }
    }

    /// Reserves room for at least `additional` more bits.
    pub fn reserve(&mut self, additional: usize)
        requires
            old(self).wf(),
        ensures
            final(self).wf(),
            final(self)@ == old(self)@,
            final(self).bytes() == old(self).bytes(),
    {
        self.vec.reserve(bytes_in_bits(additional))
    }

    /// Applies `f` to the backing bytes, then clears the unused bits of the last
    /// byte again.
    pub fn with_bytes_mut<U, F: FnOnce(&mut [u8]) -> U>(&mut self, f: F) -> (r: U)
        requires
            old(self).wf(),
            forall|s: &mut [u8]| #[trigger] f.requires((s,)),
        ensures
            final(self).wf(),
            final(self)@.len() == old(self)@.len(),
            // `f` was called on the bytes and returned `r`; the bytes it left,
            // with the padding cleared, are the new bytes. Verus has no fact that
            // a `&mut [u8]` keeps its length across a call, so the last clause
            // names that condition, which every slice meets.
            exists|s: &mut [u8]| {
                &&& s@ == old(self).bytes()
                &&& #[trigger] f.ensures((s,), r)
                &&& (final(s)@.len() == s@.len() ==> final(self).bytes() == clear_padding(
                    final(s)@,
                    old(self)@.len(),
                ))
            },
    {
        let slice = self.vec.as_mut_slice();
        let ghost before = slice@;
        let val = f(slice);
        let ghost written = self.vec@;
        assert(exists|s: &mut [u8]| s@ == before && f.ensures((s,), val) && final(s)@ == written);
        // A slice keeps its length; saying so through `resize` costs nothing.
        self.vec.resize(bytes_in_bits(self.nbits), 0u8);
        assert(written.len() == before.len() ==> self.vec@ == written);
        self.set_unused_zero();
        val
    }

    /// Returns the number of bits the vector can hold without reallocating:
    /// eight per byte of capacity (see `bits_for_byte_capacity`).
    pub fn capacity(&self) -> (r: usize)
        requires
            self.wf(),
        ensures
            r >= self@.len(),
            r % 8 == 0 || r == usize::MAX,
    {
        bits_for_byte_capacity(byte_capacity(&self.vec))
    }

    /// Appends the given bits in order.
    pub fn extend(&mut self, bools: &[bool])
        requires
            old(self).wf(),
            old(self)@.len() + bools@.len() <= usize::MAX,
        ensures
            final(self).wf(),
            final(self)@ == old(self)@ + bools@,
    {
        self.reserve(bools.len());
        let ghost before = self@;
        let mut i: usize = 0;
        while i < bools.len()
            invariant
                self.wf(),
                i <= bools@.len(),
                before.len() + bools@.len() <= usize::MAX,
                self@ == before + bools@.subrange(0, i as int),
            decreases bools@.len() - i,
        {
            self.push(bools[i]);
            i += 1;
            assert(self@ =~= before + bools@.subrange(0, i as int));
        }
        assert(bools@.subrange(0, i as int) =~= bools@);
    }
}

impl core::ops::Index<usize> for BitVec {
    type Output = bool;

    /// The bit at `index` as a reference to one of two shared constants.
    fn index(&self, index: usize) -> (r: &bool)
        ensures
            *r == self@[index as int],
    {
        if self.get_unchecked(index) {
            &TRUE
        } else {
            &FALSE
        }
    }
}

impl vstd::std_specs::core::IndexSpecImpl<usize> for BitVec {
    open spec fn index_req(&self, index: &usize) -> bool {
        self.wf() && *index < self@.len()
    }
}

impl PartialEq for BitVec {
    /// Same length and same bytes.
    fn eq(&self, other: &BitVec) -> (r: bool) {
        if self.nbits != other.nbits || self.vec.len() != other.vec.len() {
            return false;
        }
        let mut i: usize = 0;
        while i < self.vec.len()
            invariant
                i <= self.vec@.len(),
                self.vec@.len() == other.vec@.len(),
                self.vec@.subrange(0, i as int) == other.vec@.subrange(0, i as int),
            decreases self.vec@.len() - i,
        {
            if self.vec[i] != other.vec[i] {
                assert(self.vec@.subrange(0, i + 1)[i as int] != other.vec@.subrange(0, i + 1)[i as int]);
                return false;
            }
            i += 1;
            assert(self.vec@.subrange(0, i as int) =~= other.vec@.subrange(0, i as int));
        }
        assert(self.vec@ =~= self.vec@.subrange(0, i as int));
        assert(other.vec@ =~= other.vec@.subrange(0, i as int));
        true
    }
}

impl vstd::std_specs::cmp::PartialEqSpecImpl for BitVec {
    open spec fn obeys_eq_spec() -> bool {
        true
    }

    open spec fn eq_spec(&self, other: &BitVec) -> bool {
        self.same_as(other)
    }
}

impl Eq for BitVec {
}

impl Default for BitVec {
    /// The empty vector.
    fn default() -> (r: BitVec)
        ensures
            r.wf(),
            r@ == Seq::<bool>::empty(),
    {
        BitVec::new()
    }
}

impl Clone for BitVec {
    fn clone(&self) -> (r: BitVec)
        ensures
            r.same_as(self),
            r@ == self@,
            r.wf() == self.wf(),
    {
        BitVec { nbits: self.nbits, vec: slice_to_vec(self.vec.as_slice()) }
    }
}

impl BitVec {
    /// Equal length and equal bytes: what `==` compares.
    pub closed spec fn same_as(&self, other: &BitVec) -> bool {
        self.nbits == other.nbits && self.vec@ == other.vec@
    }
}

} // verus!
