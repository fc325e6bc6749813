//! Text forms of a bit vector: each bit as `1` or `.`, low index first, with a
//! space after every eighth bit; and a debug form that adds the length.

use vstd::prelude::*;
use vstd::string::StringExecFns;
use crate::bitvec::BitVec;

verus! {

/// The character that shows one bit.
pub open spec fn bit_char(b: bool) -> char {
    if b { '1' } else { '.' }
}

/// The bits shown low index first, one space before each bit whose index is a
/// nonzero multiple of 8.
pub open spec fn render(bits: Seq<bool>) -> Seq<char>
    decreases bits.len(),
{
    if bits.len() == 0 {
        Seq::empty()
    } else {
        let i = bits.len() - 1;
        let sep = if i > 0 && i % 8 == 0 { seq![' '] } else { Seq::<char>::empty() };
        render(bits.drop_last()) + sep + seq![bit_char(bits.last())]
    }
}

/// The character of the decimal digit `d`.
pub open spec fn digit_char(d: nat) -> char {
    if d == 0 { '0' } else if d == 1 { '1' } else if d == 2 { '2' } else if d == 3 { '3' }
    else if d == 4 { '4' } else if d == 5 { '5' } else if d == 6 { '6' } else if d == 7 { '7' }
    else if d == 8 { '8' } else { '9' }
}

/// `n` in decimal, without leading zeros.
pub open spec fn decimal(n: nat) -> Seq<char>
    decreases n,
{
    if n < 10 {
        seq![digit_char(n)]
    } else {
        decimal(n / 10).push(digit_char(n % 10))
    }
}

/// The debug form: `BitVec{<length>: <bits>}`.
pub open spec fn debug_form(bits: Seq<bool>) -> Seq<char> {
    seq!['B', 'i', 't', 'V', 'e', 'c', '{'] + decimal(bits.len()) + seq![':', ' '] + render(bits) + seq!['}']
}

fn digit_str(d: usize) -> (r: &'static str)
    requires
        d < 10,
    ensures
        r@ == seq![digit_char(d as nat)],
{
    proof {
        reveal_strlit("0");
        reveal_strlit("1");
        reveal_strlit("2");
        reveal_strlit("3");
        reveal_strlit("4");
        reveal_strlit("5");
        reveal_strlit("6");
        reveal_strlit("7");
        reveal_strlit("8");
        reveal_strlit("9");
    }
    match d {
        0 => "0",
        1 => "1",
        2 => "2",
        3 => "3",
        4 => "4",
        5 => "5",
        6 => "6",
        7 => "7",
        8 => "8",
        _ => "9",
    }
}

fn push_decimal(s: &mut String, n: usize)
    ensures
        final(s)@ == old(s)@ + decimal(n as nat),
    decreases n,
{
    if n >= 10 {
        push_decimal(s, n / 10);
    }
    s.append(digit_str(n % 10));
    assert(final(s)@ =~= old(s)@ + decimal(n as nat)) by {
        if n < 10 {
            assert(decimal(n as nat) == seq![digit_char(n as nat)]);
        }
    }
}

fn push_bits(s: &mut String, v: &BitVec)
    requires
        v.wf(),
    ensures
        final(s)@ == old(s)@ + render(v@),
{
    let n = v.len();
    let mut i: usize = 0;
    while i < n
        invariant
            v.wf(),
            n == v@.len(),
            i <= n,
            s@ == old(s)@ + render(v@.subrange(0, i as int)),
        decreases n - i,
    {
        proof {
            reveal_strlit(" ");
            reveal_strlit("1");
            reveal_strlit(".");
        }
        let ghost before = s@;
        let ghost sep = if i > 0 && i % 8 == 0 { seq![' '] } else { Seq::<char>::empty() };
        if i > 0 && i % 8 == 0 {
            s.append(" ");
        }
        assert(s@ =~= before + sep);
        let b = v.get_unchecked(i);
        s.append(if b { "1" } else { "." });
        proof {
            assert(s@ =~= before + sep + seq![bit_char(b)]);
            let head = v@.subrange(0, i + 1);
            assert(head.drop_last() =~= v@.subrange(0, i as int));
            assert(head.last() == b);
            assert(render(head) == render(v@.subrange(0, i as int)) + sep + seq![bit_char(b)]);
            assert(s@ =~= old(s)@ + render(head));
        }
        i += 1;
    }
    assert(v@.subrange(0, n as int) =~= v@);
}

impl BitVec {
    /// The bits as text, e.g. `1111.111 1.1..1.1 1...111.`.
    pub fn to_string(&self) -> (r: String)
        requires
            self.wf(),
        ensures
            r@ == render(self@),
    {
        let mut s = String::new();
        push_bits(&mut s, self);
        s
    }

    /// The debug text, e.g. `BitVec{24: 1111.111 1.1..1.1 1...111.}`.
    pub fn to_debug_string(&self) -> (r: String)
        requires
            self.wf(),
        ensures
            r@ == debug_form(self@),
    {
        proof {
            reveal_strlit("BitVec{");
            reveal_strlit(": ");
            reveal_strlit("}");
        }
        let mut s = String::from_str("BitVec{");
        push_decimal(&mut s, self.len());
        s.append(": ");
        push_bits(&mut s, self);
        s.append("}");
        assert(s@ =~= debug_form(self@));
        s
    }
}

} // verus!
