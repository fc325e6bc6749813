//! Laws that relate the vector's operations: the bytes are a faithful image
//! of the bits, and pushing and popping undo each other.

use vstd::prelude::*;
use crate::bits::{bits_of, lemma_bits_determine_bytes};
use crate::bitvec::BitVec;

verus! {

/// Two well-formed vectors with the same bits have the same bytes, and so are
/// `==`; the converse holds as well.
pub proof fn lemma_bits_determine_vec(v: &BitVec, w: &BitVec)
    requires
        v.wf(),
        w.wf(),
    ensures
        (v@ == w@) == (v.bytes() == w.bytes() && v@.len() == w@.len()),
        (v@ == w@) == v.same_as(w),
{
    v.lemma_layout();
    w.lemma_layout();
    v.lemma_same_as(w);
    if v@ == w@ {
        lemma_bits_determine_bytes(v.bytes(), w.bytes(), v@.len());
    }
}

/// A well-formed vector that holds the bits of the bytes `b`, eight per byte,
/// has exactly `b` as its bytes: `from_bytes(b).as_bytes() == b`.
pub proof fn lemma_round_trip(v: &BitVec, b: Seq<u8>)
    requires
        v.wf(),
        v@ == bits_of(b, b.len() * 8),
    ensures
        v.bytes() == b,
{
    v.lemma_layout();
    assert((b.len() * 8 + 7) / 8 == b.len());
    assert(v.bytes().len() == b.len());
    lemma_bits_determine_bytes(v.bytes(), b, b.len() * 8);
}

/// The bits after pushing each of `s`, in order, onto `bits`.
pub open spec fn push_all(bits: Seq<bool>, s: Seq<bool>) -> Seq<bool>
    decreases s.len(),
{
    if s.len() == 0 {
        bits
    } else {
        push_all(bits.push(s[0]), s.drop_first())
    }
}

/// Popping `n` times from `bits`: the bits left and the values popped, in the
/// order they came out.
pub open spec fn pop_n(bits: Seq<bool>, n: nat) -> (Seq<bool>, Seq<bool>)
    decreases n,
{
    if n == 0 || bits.len() == 0 {
        (bits, Seq::empty())
    } else {
        let (left, popped) = pop_n(bits.drop_last(), (n - 1) as nat);
        (left, seq![bits.last()] + popped)
    }
}

/// `s` in reverse order.
pub open spec fn reversed(s: Seq<bool>) -> Seq<bool> {
    Seq::new(s.len(), |k: int| s[s.len() - 1 - k])
}

proof fn lemma_push_all_appends(bits: Seq<bool>, s: Seq<bool>)
    ensures
        push_all(bits, s) == bits + s,
    decreases s.len(),
{
    if s.len() > 0 {
        lemma_push_all_appends(bits.push(s[0]), s.drop_first());
        assert(bits.push(s[0]) + s.drop_first() =~= bits + s);
    }
}

proof fn lemma_pop_n_appended(bits: Seq<bool>, s: Seq<bool>)
    ensures
        pop_n(bits + s, s.len()) == (bits, reversed(s)),
    decreases s.len(),
{
    if s.len() == 0 {
        assert(bits + s =~= bits);
        assert(reversed(s) =~= Seq::<bool>::empty());
    } else {
        let front = s.drop_last();
        assert((bits + s).drop_last() =~= bits + front);
        lemma_pop_n_appended(bits, front);
        assert(seq![s.last()] + reversed(front) =~= reversed(s));
    }
}

/// Pushing the bits of `s` one by one onto a vector and then popping
/// `s.len()` times yields `s` in reverse order and leaves the bits the vector
/// started with. Two well-formed vectors with those bits also have the same
/// bytes (`lemma_bits_determine_vec`), so the vector is back in its first state.
pub proof fn lemma_push_pop(bits: Seq<bool>, s: Seq<bool>)
    ensures
        pop_n(push_all(bits, s), s.len()) == (bits, reversed(s)),
{
    lemma_push_all_appends(bits, s);
    lemma_pop_n_appended(bits, s);
}

} // verus!
