//! Order preservation: byte-wise comparison of encoded keys matches
//! field-by-field comparison of the value tuples.

use db_key::descriptor::{FieldDecl, KeyDescriptor};
use db_key::key::EncodedKey;
use db_key::kind::FieldSize;
use db_key::value::FieldValue;

fn two_field_desc() -> KeyDescriptor {
    let decls = vec![
        FieldDecl::new("id".to_string(), FieldSize::Unsigned64),
        FieldDecl::new("index".to_string(), FieldSize::Signed32),
    ];
    KeyDescriptor::try_new(&decls).unwrap()
}

fn key_u64_i32(d: &KeyDescriptor, a: u64, b: i32) -> EncodedKey {
    let vals = vec![FieldValue::from_u64(a), FieldValue::from_i32(b)];
    EncodedKey::encode(d, &vals).unwrap()
}

#[test]
fn tuple_order_matches_byte_order() {
    let d = two_field_desc();
    // (5, -1) < (5, 0) < (5, 1) < (6, -1), as tuples and as bytes.
    let k1 = key_u64_i32(&d, 5, -1);
    let k2 = key_u64_i32(&d, 5, 0);
    let k3 = key_u64_i32(&d, 5, 1);
    let k4 = key_u64_i32(&d, 6, -1);
    assert!(k1 < k2);
    assert!(k2 < k3);
    assert!(k3 < k4);
    assert!(k1.as_bytes() < k2.as_bytes());
    assert!(k2.as_bytes() < k3.as_bytes());
    assert!(k3.as_bytes() < k4.as_bytes());
    assert!(k2 > k1);
    assert_eq!(k1.compare(&k2), std::cmp::Ordering::Less);
    assert_eq!(k4.compare(&k1), std::cmp::Ordering::Greater);
    assert_eq!(k1.compare(&k1), std::cmp::Ordering::Equal);
}

#[test]
fn equal_tuples_encode_identically() {
    let d = two_field_desc();
    let k1 = key_u64_i32(&d, 77, -12345);
    let k2 = key_u64_i32(&d, 77, -12345);
    assert_eq!(k1, k2);
    assert_eq!(k1.as_bytes(), k2.as_bytes());
    let k3 = key_u64_i32(&d, 77, -12344);
    assert_ne!(k1, k3);
}

#[test]
fn signed_order_survives_the_sign_boundary() {
    let d = {
        let decls = vec![FieldDecl::new("v".to_string(), FieldSize::Signed64)];
        KeyDescriptor::try_new(&decls).unwrap()
    };
    let values = [i64::MIN, -1_000_000, -1, 0, 1, 1_000_000, i64::MAX];
    let keys: Vec<EncodedKey> = values
        .iter()
        .map(|v| EncodedKey::encode(&d, &vec![FieldValue::from_i64(*v)]).unwrap())
        .collect();
    for i in 1..keys.len() {
        assert!(keys[i - 1] < keys[i], "order broken at {}", i);
        assert!(keys[i - 1].as_bytes() < keys[i].as_bytes());
    }
}

#[test]
fn mixed_kind_tuples_order_lexicographically() {
    // A key of every kind class: unsigned, signed, array.
    let decls = vec![
        FieldDecl::new("a".to_string(), FieldSize::Unsigned16),
        FieldDecl::new("b".to_string(), FieldSize::Signed8),
        FieldDecl::new("c".to_string(), FieldSize::Array(2)),
    ];
    let d = KeyDescriptor::try_new(&decls).unwrap();
    let mk = |a: u16, b: i8, c: [u8; 2]| {
        let vals = vec![
            FieldValue::from_u16(a),
            FieldValue::from_i8(b),
            FieldValue::from_bytes(&c),
        ];
        EncodedKey::encode(&d, &vals).unwrap()
    };
    let ks = [
        mk(1, -5, [0, 0]),
        mk(1, -5, [0, 1]),
        mk(1, -4, [0, 0]),
        mk(1, 3, [0xFF, 0]),
        mk(2, i8::MIN, [0, 0]),
    ];
    for i in 1..ks.len() {
        assert!(ks[i - 1] < ks[i], "order broken at {}", i);
    }
}
