//! Bit-level model of a byte sequence in LSB-0 order, and the facts about
//! single bytes that the vector's proofs rest on.

use vstd::prelude::*;

verus! {

/// Whether bit `k` (counted from the least significant bit) of `b` is set.
pub open spec fn bit_of(b: u8, k: u8) -> bool {
    (b >> k) & 1u8 == 1u8
}

/// The first `n` bits of `bytes`, bit `i` taken from byte `i / 8` at offset `i % 8`.
pub open spec fn bits_of(bytes: Seq<u8>, n: nat) -> Seq<bool> {
    Seq::new(n, |i: int| bit_of(bytes[i / 8], (i % 8) as u8))
}

/// The number of bytes that hold `n` bits: `ceil(n / 8)`.
pub open spec fn bytes_for(n: nat) -> nat {
    (n + 7) / 8
}

/// The bits at positions `n` and above in the last byte of `bytes` are zero.
/// When `n` is a multiple of 8 the last byte is fully used and nothing is asked.
pub open spec fn padding_clear(bytes: Seq<u8>, n: nat) -> bool {
    n % 8 != 0 ==> bytes.last() >> ((n % 8) as u8) == 0
}

/// `bytes` with the bits from position `n` up in the last byte cleared; as it
/// is when `n` is a multiple of 8.
pub open spec fn clear_padding(bytes: Seq<u8>, n: nat) -> Seq<u8> {
    if n % 8 == 0 || bytes.len() == 0 {
        bytes
    } else {
        bytes.update(bytes.len() - 1, bytes.last() & (((1u8 << ((n % 8) as u8)) - 1) as u8))
    }
}

/// The number of bytes needed to hold `nbits` bits.
pub(crate) fn bytes_in_bits(nbits: usize) -> (r: usize)
    ensures
        r == bytes_for(nbits as nat),
{
    nbits / 8 + if nbits % 8 == 0 { 0 } else { 1 }
}

/// A byte whose eight bits all equal `bit`.
pub(crate) fn byte_from_bool(bit: bool) -> (r: u8)
    ensures
        r == (if bit { 0xffu8 } else { 0u8 }),
        forall|k: u8| k < 8 ==> bit_of(r, k) == bit,
{
    proof {
        assert forall|k: u8| k < 8 implies bit_of(0xffu8, k) && !bit_of(0u8, k) by {
            lemma_const_bits(k);
        }
    }
    if bit { 0xffu8 } else { 0u8 }
}

proof fn lemma_const_bits(k: u8)
    by (bit_vector)
    requires
        k < 8,
    ensures
        bit_of(0xffu8, k),
        !bit_of(0u8, k),
{
}

/// Setting or clearing bit `k` of `b` changes bit `k` alone.
pub proof fn lemma_write_bit(b: u8, k: u8, j: u8)
    by (bit_vector)
    requires
        k < 8,
        j < 8,
    ensures
        bit_of(b | (1u8 << k), j) == (j == k || bit_of(b, j)),
        bit_of(b & !(1u8 << k), j) == (j != k && bit_of(b, j)),
{
}

/// Testing `b` against the one-bit pattern for `k` reads bit `k`.
pub proof fn lemma_test_bit(b: u8, k: u8)
    by (bit_vector)
    requires
        k < 8,
    ensures
        (b & (1u8 << k) != 0u8) == bit_of(b, k),
{
}

/// Writing a bit below `m` keeps the bits from `m` up clear.
pub proof fn lemma_write_keeps_high_clear(b: u8, k: u8, m: u8)
    by (bit_vector)
    requires
        k < m < 8,
        b >> m == 0,
    ensures
        (b | (1u8 << k)) >> m == 0,
        (b & !(1u8 << k)) >> m == 0,
{
}

/// When the bits from `m` up are clear, so are those from any higher position,
/// and bit `m` itself reads false.
pub proof fn lemma_high_clear(b: u8, m: u8, j: u8)
    by (bit_vector)
    requires
        m <= j < 8,
        b >> m == 0,
    ensures
        !bit_of(b, j),
        j < 7 ==> b >> (j + 1) as u8 == 0,
{
}

/// Bit `m` clear and the bits above it clear: the bits from `m` up are clear.
pub proof fn lemma_extend_high_clear(b: u8, m: u8)
    by (bit_vector)
    requires
        m < 8,
        !bit_of(b, m),
        m == 7 || b >> (m + 1) as u8 == 0,
    ensures
        b >> m == 0,
{
}

/// Masking with the low `m` ones keeps the bits below `m` and clears the rest.
pub proof fn lemma_low_mask(b: u8, m: u8, j: u8)
    by (bit_vector)
    requires
        0 < m < 8,
        j < 8,
    ensures
        (b & ((1u8 << m) - 1) as u8) >> m == 0,
        j < m ==> bit_of(b & ((1u8 << m) - 1) as u8, j) == bit_of(b, j),
{
}

/// A byte is determined by its eight bits.
pub proof fn lemma_byte_from_bits(a: u8, b: u8)
    by (bit_vector)
    requires
        bit_of(a, 0) == bit_of(b, 0),
        bit_of(a, 1) == bit_of(b, 1),
        bit_of(a, 2) == bit_of(b, 2),
        bit_of(a, 3) == bit_of(b, 3),
        bit_of(a, 4) == bit_of(b, 4),
        bit_of(a, 5) == bit_of(b, 5),
        bit_of(a, 6) == bit_of(b, 6),
        bit_of(a, 7) == bit_of(b, 7),
    ensures
        a == b,
{
}

/// The bytes 0 and 1 as single bits: bit 0 is the value, the rest clear.
pub proof fn lemma_unit_bytes()
    by (bit_vector)
    ensures
        bit_of(1u8, 0),
        !bit_of(0u8, 0),
        1u8 >> 1u8 == 0,
        0u8 >> 1u8 == 0,
{
}

/// Replacing the byte that holds bit `i` by one that differs from it in that
/// bit alone, now `v`, updates bit `i` of the model to `v`.
pub proof fn lemma_bits_update(bytes: Seq<u8>, n: nat, i: int, v: bool, nb: u8)
    requires
        0 <= i < n,
        bytes.len() == bytes_for(n),
        forall|k: u8| k < 8 ==> bit_of(nb, k) == (if k == (i % 8) as u8 { v } else { bit_of(bytes[i / 8], k) }),
    ensures
        bits_of(bytes.update(i / 8, nb), n) == bits_of(bytes, n).update(i, v),
{
    let nbytes = bytes.update(i / 8, nb);
    assert forall|j: int| 0 <= j < n implies #[trigger] bits_of(nbytes, n)[j] == bits_of(bytes, n).update(i, v)[j] by {
        if j / 8 == i / 8 {
            assert(j != i ==> j % 8 != i % 8);
        }
    }
    assert(bits_of(nbytes, n) =~= bits_of(bytes, n).update(i, v));
}

/// Two byte sequences of the right length with clear padding and the same
/// first `n` bits are equal.
pub proof fn lemma_bits_determine_bytes(a: Seq<u8>, b: Seq<u8>, n: nat)
    requires
        a.len() == bytes_for(n),
        b.len() == bytes_for(n),
        padding_clear(a, n),
        padding_clear(b, n),
        bits_of(a, n) == bits_of(b, n),
    ensures
        a == b,
{
    assert forall|q: int| 0 <= q < a.len() implies a[q] == b[q] by {
        assert forall|k: u8| k < 8 implies bit_of(a[q], k) == bit_of(b[q], k) by {
            let j = 8 * q + k;
            if j < n {
                assert(j / 8 == q && j % 8 == k as int);
                assert(((j % 8) as u8) == k);
                assert(bits_of(a, n)[j] == bit_of(a[q], k));
                assert(bits_of(b, n)[j] == bit_of(b[q], k));
            } else {
                assert(q == a.len() - 1 && n % 8 != 0 && k >= n % 8);
                lemma_high_clear(a[q], (n % 8) as u8, k);
                lemma_high_clear(b[q], (n % 8) as u8, k);
            }
        }
        lemma_byte_from_bits(a[q], b[q]);
    }
    assert(a =~= b);
}

} // verus!
