use lsb_bitvec::{bits_for_byte_capacity, BitVec};

fn padding_is_clear(v: &BitVec) -> bool {
    let bytes = v.as_bytes();
    let used = v.len() % 8;
    used == 0 || bytes[bytes.len() - 1] >> used == 0
}

fn byte_count_matches(v: &BitVec) -> bool {
    v.as_bytes().len() == (v.len() + 7) / 8
}

#[test]
fn round_trip_of_bytes() {
    let cases: Vec<Vec<u8>> = vec![
        vec![],
        vec![0x00],
        vec![0xff],
        vec![0x80, 0x01],
        vec![0xef, 0xcd, 0xab, 0x89, 0x67, 0x45, 0x23, 0x01, 0xfe],
    ];
    for bytes in cases {
        let v = BitVec::from_bytes(&bytes);
        assert_eq!(v.len(), bytes.len() * 8);
        assert_eq!(v.as_bytes(), &bytes[..]);
        assert_eq!(v.into_bytes(), bytes);
    }
}

#[test]
fn round_trip_through_bools() {
    let bytes = [0x5a, 0xc3, 0x01];
    let bits: Vec<bool> = BitVec::from_bytes(&bytes).iter().collect();
    let back = BitVec::from_bools(&bits);
    assert_eq!(back.as_bytes(), &bytes);
}

#[test]
fn padding_clear_after_operations() {
    let mut v = BitVec::from_elem(13, true);
    assert!(padding_is_clear(&v));
    v.push(true);
    assert!(padding_is_clear(&v));
    v.pop();
    v.pop();
    assert!(padding_is_clear(&v));
    assert_eq!(v.as_bytes(), &[0xff, 0x0f]);
    v.set(11, false);
    assert!(padding_is_clear(&v));
    v.truncate(9);
    assert!(padding_is_clear(&v));
    assert_eq!(v.as_bytes(), &[0xff, 0x01]);
    v.resize(20, true);
    assert!(padding_is_clear(&v));
    assert_eq!(v.as_bytes(), &[0xff, 0xff, 0x0f]);
    v.with_bytes_mut(|b| {
        for x in b.iter_mut() {
            *x = 0xff;
        }
    });
    assert!(padding_is_clear(&v));
    assert_eq!(v.as_bytes(), &[0xff, 0xff, 0x0f]);
}

#[test]
fn push_then_pop_restores() {
    let start = BitVec::from_bytes(&[0xa5, 0x3c]);
    let mut v = start.clone();
    let pushed = [true, false, true, true, false, false, true, false, true, true, true];
    for &b in pushed.iter() {
        v.push(b);
        assert!(byte_count_matches(&v));
    }
    assert_eq!(v.len(), 16 + pushed.len());
    let mut popped = Vec::new();
    for _ in 0..pushed.len() {
        popped.push(v.pop().unwrap());
        assert!(byte_count_matches(&v));
    }
    let mut reversed = pushed.to_vec();
    reversed.reverse();
    assert_eq!(popped, reversed);
    assert!(v == start);
    assert_eq!(v.as_bytes(), start.as_bytes());
}

#[test]
fn push_pop_on_empty() {
    let mut v = BitVec::new();
    for &b in [false, true, true].iter() {
        v.push(b);
    }
    assert_eq!(v.pop(), Some(true));
    assert_eq!(v.pop(), Some(true));
    assert_eq!(v.pop(), Some(false));
    assert_eq!(v.pop(), None);
    assert!(v.is_empty());
    assert_eq!(v.as_bytes(), &[]);
}

#[test]
fn byte_count_for_each_length() {
    let mut v = BitVec::new();
    for n in 0..40usize {
        assert_eq!(v.len(), n);
        assert!(byte_count_matches(&v));
        v.push(n % 3 == 0);
    }
    for n in 0..41usize {
        let e = BitVec::from_elem(n, true);
        assert_eq!(e.as_bytes().len(), (n + 7) / 8);
    }
}

#[test]
fn scenario_get_from_bytes() {
    let v = BitVec::from_bytes(&[0xef, 0xa5, 0x71]);
    assert_eq!(v.len(), 24);
    assert_eq!(v.get(0), Some(true));
    assert_eq!(v.get(4), Some(false));
    assert_eq!(v.get(15), Some(true));
    assert_eq!(v.get(24), None);
    assert_eq!(v.get(usize::MAX), None);
}

#[test]
fn scenario_repeated_true() {
    assert_eq!(BitVec::from_elem(31, true).as_bytes(), &[0xff, 0xff, 0xff, 0x7f]);
    assert_eq!(BitVec::from_elem(0, true).as_bytes(), &[]);
    assert_eq!(BitVec::from_elem(8, true).as_bytes(), &[0xff]);
    assert_eq!(BitVec::from_elem(9, false).as_bytes(), &[0x00, 0x00]);
}

#[test]
fn scenario_pop_two_from_full_byte() {
    let mut v = BitVec::from_bytes(&[0x01, 0b11100011]);
    v.truncate(16);
    assert_eq!(v.len(), 16);
    v.pop();
    v.pop();
    assert_eq!(v.len(), 14);
    assert_eq!(v.as_bytes(), &[0x01, 0b00100011]);
}

#[test]
fn scenario_rendering() {
    let v = BitVec::from_bytes(&[0xef, 0xa5, 0x71]);
    assert_eq!(v.to_string(), "1111.111 1.1..1.1 1...111.");
    assert_eq!(BitVec::new().to_string(), "");
    assert_eq!(BitVec::new().to_debug_string(), "BitVec{0: }");
    let w = BitVec::from_bools(&[true, false, true, true, false, false, false, false, true]);
    assert_eq!(w.to_string(), "1.11.... 1");
    assert_eq!(w.to_debug_string(), "BitVec{9: 1.11.... 1}");
    let long = BitVec::from_elem(123, false);
    assert!(long.to_debug_string().starts_with("BitVec{123: ........ "));
}

#[test]
fn truncate_and_resize_edges() {
    let mut v = BitVec::from_bytes(&[0xff, 0xff]);
    v.truncate(16);
    assert_eq!(v.as_bytes(), &[0xff, 0xff]);
    v.truncate(8);
    assert_eq!(v.as_bytes(), &[0xff]);
    v.truncate(0);
    assert!(v.is_empty());
    assert_eq!(v.as_bytes(), &[]);
    v.resize(3, true);
    assert_eq!(v.as_bytes(), &[0x07]);
    v.resize(10, false);
    assert_eq!(v.as_bytes(), &[0x07, 0x00]);
    v.resize(2, true);
    assert_eq!(v.as_bytes(), &[0x03]);
}

#[test]
fn swap_same_index_and_unchecked_access() {
    let mut v = BitVec::from_bytes(&[0x01]);
    v.swap(0, 0);
    assert_eq!(v.as_bytes(), &[0x01]);
    v.swap(0, 7);
    assert_eq!(v.as_bytes(), &[0x80]);
    assert_eq!(v.get_unchecked(7), true);
    v.set_unchecked(7, false);
    v.set_unchecked(3, true);
    assert_eq!(v.as_bytes(), &[0x08]);
}

#[test]
fn equality_needs_same_length() {
    let mut a = BitVec::from_bytes(&[0x00]);
    let b = BitVec::from_elem(7, false);
    assert!(a != b);
    a.pop();
    assert!(a == b);
}

#[test]
fn capacity_counts_bits() {
    let mut v = BitVec::from_bytes(&[1, 2, 3]);
    assert!(v.capacity() >= 24);
    assert_eq!(v.capacity() % 8, 0);
    v.clear();
    assert!(v.is_empty());
    assert!(v.capacity() >= 24);
}

#[test]
fn iterator_skips_and_exhausts() {
    let v = BitVec::from_bools(&[true, false, true, true]);
    let mut it = v.iter();
    assert_eq!(it.nth(2), Some(true));
    assert_eq!(it.size_hint(), (1, Some(1)));
    assert_eq!(it.nth(5), None);
    assert_eq!(it.next(), None);
    assert_eq!(it.clone().count(), 0);
    let mut owned = v.clone().into_iter();
    assert_eq!(owned.next(), Some(true));
    assert_eq!(owned.size_hint(), (3, Some(3)));
    assert_eq!(owned.nth(1), Some(true));
    assert_eq!(owned.count(), 1);
    assert_eq!(v.clone().into_iter().last(), Some(true));
    assert_eq!(BitVec::new().into_iter().last(), None);
}

#[test]
fn default_is_empty() {
    let v = BitVec::default();
    assert!(v.is_empty());
    assert_eq!(v.as_bytes(), &[]);
    assert!(v == BitVec::new());
}

#[test]
fn bit_capacity_from_bytes() {
    assert_eq!(bits_for_byte_capacity(0), 0);
    assert_eq!(bits_for_byte_capacity(1), 8);
    assert_eq!(bits_for_byte_capacity(3), 24);
    assert_eq!(bits_for_byte_capacity(usize::MAX / 8), (usize::MAX / 8) * 8);
    assert_eq!(bits_for_byte_capacity(usize::MAX / 8 + 1), usize::MAX);
    assert_eq!(bits_for_byte_capacity(usize::MAX), usize::MAX);
}

#[test]
fn bytes_mut_partial_write_and_result() {
    let mut v = BitVec::from_bytes(&[0x12, 0x34, 0x56]);
    v.truncate(20);
    assert_eq!(v.as_bytes(), &[0x12, 0x34, 0x06]);
    let r = v.with_bytes_mut(|b| {
        b[2] = 0xab;
        b.len() * 100
    });
    assert_eq!(r, 300);
    assert_eq!(v.len(), 20);
    assert_eq!(v.as_bytes(), &[0x12, 0x34, 0x0b]);
    let untouched = v.with_bytes_mut(|_| 7u8);
    assert_eq!(untouched, 7);
    assert_eq!(v.as_bytes(), &[0x12, 0x34, 0x0b]);
}
