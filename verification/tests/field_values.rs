//! Per-kind configured values and copies.

use db_key::kind::FieldSize;
use db_key::value::FieldValue;

#[test]
fn kind_defaults_encode_zero() {
    // Zero of a signed kind stores as the bias pattern: sign bit set,
    // everything else clear.
    let v = FieldValue::default_of(FieldSize::Signed16);
    assert_eq!(v.raw_bytes().as_slice(), &[0x80, 0x00]);
    assert_eq!(v.try_to_i16(), Ok(0));
    let v = FieldValue::default_of(FieldSize::Unsigned32);
    assert_eq!(v.raw_bytes().as_slice(), &[0, 0, 0, 0]);
    let v = FieldValue::default_of(FieldSize::Array(4));
    assert_eq!(v.try_to_array(4), Ok(vec![0, 0, 0, 0]));
}

#[test]
fn kind_bounds_are_fills() {
    let v = FieldValue::min_of(FieldSize::Signed32);
    assert_eq!(v.raw_bytes().as_slice(), &[0, 0, 0, 0]);
    assert_eq!(v.try_to_i32(), Ok(i32::MIN));
    let v = FieldValue::max_of(FieldSize::Signed32);
    assert_eq!(v.raw_bytes().as_slice(), &[0xFF, 0xFF, 0xFF, 0xFF]);
    assert_eq!(v.try_to_i32(), Ok(i32::MAX));
    let v = FieldValue::max_of(FieldSize::Unsigned16);
    assert_eq!(v.try_to_u16(), Ok(u16::MAX));
    let v = FieldValue::min_of(FieldSize::Unsigned16);
    assert_eq!(v.try_to_u16(), Ok(0));
}

#[test]
fn duplicates_carry_the_same_stored_form() {
    let v = FieldValue::from_i64(-42);
    let w = v.duplicate();
    assert_eq!(w.kind_exec(), v.kind_exec());
    assert_eq!(w.raw_bytes(), v.raw_bytes());
    assert_eq!(w.try_to_i64(), Ok(-42));
}
