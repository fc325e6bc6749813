//! A growable vector of bits with a guaranteed byte layout: bit `i` lives in
//! byte `i / 8` at offset `i % 8`, counted from the least significant bit, and
//! the unused high bits of the last byte are always zero.
//!
//! The layout makes the backing bytes safe to hand out for I/O: two vectors
//! with the same bits always have the same bytes.

mod bits;
mod bitvec;
mod iter;
mod laws;
mod render;

pub use bits::{bit_of, bits_of, bytes_for, clear_padding, padding_clear};
pub use bitvec::{bits_for_byte_capacity, BitVec};
pub use iter::{IntoIter, Iter};
pub use laws::{lemma_bits_determine_vec, lemma_push_pop, lemma_round_trip, pop_n, push_all, reversed};
pub use render::{bit_char, debug_form, decimal, digit_char, render};
