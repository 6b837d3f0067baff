//! Setters are idempotent with their getters and touch nothing else.

use db_key::samples::debug::StdDebugKey;
use db_key::samples::{SampleKey, SignedKey};

fn checksum_outside(bytes: &[u8], lo: usize, hi: usize) -> u64 {
    bytes
        .iter()
        .enumerate()
        .filter(|(i, _)| *i < lo || *i >= hi)
        .map(|(_, b)| *b as u64)
        .sum()
}

#[test]
fn set_then_get_returns_the_value() {
    let mut k = SampleKey::from_slice(&[0x5A; 18]);
    k.set_word(0xBEEF);
    assert_eq!(k.word(), 0xBEEF);
    k.set_word(7);
    assert_eq!(k.word(), 7);
    k.set_id(u64::MAX);
    assert_eq!(k.id(), u64::MAX);
    k.set_byte(0);
    assert_eq!(k.byte(), 0);
    k.set_long(0x01020304);
    assert_eq!(k.long(), 0x01020304);
    k.set_end(&[9, 8, 7]);
    assert_eq!(k.end(), &[9, 8, 7]);
}

#[test]
fn setters_preserve_everything_outside_their_range() {
    // word occupies bytes 8..10 of the standard layout.
    let mut k = SampleKey::from_slice(&[0x5A; 18]);
    let before = checksum_outside(k.as_bytes(), 8, 10);
    k.set_word(0x1234);
    assert_eq!(checksum_outside(k.as_bytes(), 8, 10), before);
    // long occupies bytes 11..15.
    let before = checksum_outside(k.as_bytes(), 11, 15);
    k.set_long(0xFFFFFFFF);
    assert_eq!(checksum_outside(k.as_bytes(), 11, 15), before);
}

#[test]
fn signed_setters_round_trip_across_zero() {
    let mut k = SignedKey::default();
    for v in [i16::MIN, -1, 0, 1, i16::MAX] {
        k.set_word(v);
        assert_eq!(k.word(), v);
    }
    for v in [i64::MIN, -1, 0, 1, i64::MAX] {
        k.set_id(v);
        assert_eq!(k.id(), v);
    }
    // The other fields kept their defaults throughout.
    assert_eq!(k.byte(), 127);
    assert_eq!(k.long(), 0x18245637);
}

#[test]
fn wide_field_setters_round_trip() {
    let mut k = StdDebugKey::default();
    k.set_octo(u128::MAX - 5);
    assert_eq!(k.octo(), u128::MAX - 5);
    k.set_quad(3);
    assert_eq!(k.quad(), 3);
    assert_eq!(k.octo(), u128::MAX - 5);
    k.set_array(&[1, 2, 3, 4, 5]);
    assert_eq!(k.array(), &[1, 2, 3, 4, 5]);
}
