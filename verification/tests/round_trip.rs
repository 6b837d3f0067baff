//! Round-trip checks: decoding an encoded value gives the value back,
//! for every field kind at its range boundaries.

use db_key::kind::FieldSize;
use db_key::value::FieldValue;

fn u8_rt(v: u8) {
    assert_eq!(FieldValue::from_u8(v).try_to_u8(), Ok(v));
}

fn u16_rt(v: u16) {
    assert_eq!(FieldValue::from_u16(v).try_to_u16(), Ok(v));
}

fn u32_rt(v: u32) {
    assert_eq!(FieldValue::from_u32(v).try_to_u32(), Ok(v));
}

fn u64_rt(v: u64) {
    assert_eq!(FieldValue::from_u64(v).try_to_u64(), Ok(v));
}

fn u128_rt(v: u128) {
    assert_eq!(FieldValue::from_u128(v).try_to_u128(), Ok(v));
}

fn i8_rt(v: i8) {
    assert_eq!(FieldValue::from_i8(v).try_to_i8(), Ok(v));
}

fn i16_rt(v: i16) {
    assert_eq!(FieldValue::from_i16(v).try_to_i16(), Ok(v));
}

fn i32_rt(v: i32) {
    assert_eq!(FieldValue::from_i32(v).try_to_i32(), Ok(v));
}

fn i64_rt(v: i64) {
    assert_eq!(FieldValue::from_i64(v).try_to_i64(), Ok(v));
}

fn i128_rt(v: i128) {
    assert_eq!(FieldValue::from_i128(v).try_to_i128(), Ok(v));
}

#[test]
fn round_trip_unsigned_boundaries() {
    for v in [0u8, 1, 0x7F, 0x80, 0xFF] {
        u8_rt(v);
    }
    for v in [0u16, 1, 0x7FFF, 0x8000, 0xFFFF] {
        u16_rt(v);
    }
    for v in [0u32, 1, 0x7FFF_FFFF, 0x8000_0000, 0xFFFF_FFFF] {
        u32_rt(v);
    }
    for v in [0u64, 1, u64::MAX / 2, u64::MAX / 2 + 1, u64::MAX] {
        u64_rt(v);
    }
    for v in [0u128, 1, u128::MAX / 2, u128::MAX / 2 + 1, u128::MAX] {
        u128_rt(v);
    }
}

#[test]
fn round_trip_signed_boundaries() {
    for v in [i8::MIN, -1, 0, 1, i8::MAX] {
        i8_rt(v);
    }
    for v in [i16::MIN, -1, 0, 1, i16::MAX] {
        i16_rt(v);
    }
    for v in [i32::MIN, -1, 0, 1, i32::MAX] {
        i32_rt(v);
    }
    for v in [i64::MIN, -1, 0, 1, i64::MAX] {
        i64_rt(v);
    }
    for v in [i128::MIN, -1, 0, 1, i128::MAX] {
        i128_rt(v);
    }
}

#[test]
fn round_trip_arrays() {
    let data = [0u8, 1, 0x7F, 0x80, 0xFF];
    let v = FieldValue::from_bytes(&data);
    assert_eq!(v.try_to_array(5), Ok(data.to_vec()));
}

#[test]
fn signed_values_are_stored_biased() {
    // The sign-flip transform: the stored byte of a signed value is its
    // two's-complement form with the top bit flipped.
    assert_eq!(FieldValue::from_i8(i8::MIN).raw_bytes().as_slice(), &[0x00]);
    assert_eq!(FieldValue::from_i8(-1).raw_bytes().as_slice(), &[0x7F]);
    assert_eq!(FieldValue::from_i8(0).raw_bytes().as_slice(), &[0x80]);
    assert_eq!(FieldValue::from_i8(1).raw_bytes().as_slice(), &[0x81]);
    assert_eq!(FieldValue::from_i8(i8::MAX).raw_bytes().as_slice(), &[0xFF]);
    assert_eq!(
        FieldValue::from_i16(-2).raw_bytes().as_slice(),
        &[0x7F, 0xFE]
    );
    assert_eq!(
        FieldValue::from_i128(i128::MIN).try_to_i128(),
        Ok(i128::MIN)
    );
}

#[test]
fn unsigned_values_are_stored_verbatim() {
    assert_eq!(
        FieldValue::from_u32(0x12345678).raw_bytes().as_slice(),
        &[0x12, 0x34, 0x56, 0x78]
    );
    assert_eq!(
        FieldValue::from_u16(0xECA8).raw_bytes().as_slice(),
        &[0xEC, 0xA8]
    );
}

#[test]
fn random_values_are_well_formed() {
    // Whatever the generator returns, the value has its kind and width,
    // and reads back as that kind.
    for _ in 0..16 {
        let v = FieldValue::random(FieldSize::Unsigned64);
        assert_eq!(v.kind_exec(), FieldSize::Unsigned64);
        assert_eq!(v.raw_bytes().len(), 8);
        assert!(v.try_to_u64().is_ok());
        let w = FieldValue::random(FieldSize::Array(3));
        assert_eq!(w.raw_bytes().len(), 3);
        assert!(w.try_to_array(3).is_ok());
        let s = FieldValue::random(FieldSize::Signed16);
        assert!(s.try_to_i16().is_ok());
    }
}
