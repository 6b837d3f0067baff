//! The two error families: definition-time rejection of a bad key-type
//! declaration, and run-time kind mismatches on conversion.

use db_key::descriptor::{FieldDecl, FieldOverride, KeyDescriptor, KeyDefError};
use db_key::key::{EncodedKey, KeyError};
use db_key::kind::FieldSize;
use db_key::value::{FieldValue, FieldValueError};

#[test]
fn empty_declarations_are_rejected() {
    let decls: Vec<FieldDecl> = Vec::new();
    assert_eq!(KeyDescriptor::try_new(&decls).unwrap_err(), KeyDefError::NoFields);
}

#[test]
fn zero_length_arrays_are_rejected() {
    let decls = vec![
        FieldDecl::new("a".to_string(), FieldSize::Unsigned8),
        FieldDecl::new("z".to_string(), FieldSize::Array(0)),
    ];
    assert_eq!(
        KeyDescriptor::try_new(&decls).unwrap_err(),
        KeyDefError::ZeroArray { field: 1 }
    );
}

#[test]
fn duplicate_overrides_are_rejected() {
    let decls = vec![FieldDecl::new("a".to_string(), FieldSize::Unsigned16)
        .with_override(FieldOverride::Minimum(FieldValue::from_u16(1)))
        .with_override(FieldOverride::Minimum(FieldValue::from_u16(2)))];
    assert_eq!(
        KeyDescriptor::try_new(&decls).unwrap_err(),
        KeyDefError::DuplicateOverride { field: 0 }
    );
}

#[test]
fn wrong_kind_overrides_are_rejected() {
    let decls = vec![FieldDecl::new("a".to_string(), FieldSize::Unsigned16)
        .with_override(FieldOverride::Default(FieldValue::from_u8(1)))];
    assert_eq!(
        KeyDescriptor::try_new(&decls).unwrap_err(),
        KeyDefError::OverrideKind { field: 0 }
    );
}

#[test]
fn oversized_keys_are_rejected() {
    let decls = vec![
        FieldDecl::new("a".to_string(), FieldSize::Array(1000)),
        FieldDecl::new("b".to_string(), FieldSize::Array(usize::MAX - 10)),
    ];
    assert_eq!(KeyDescriptor::try_new(&decls).unwrap_err(), KeyDefError::KeyTooLarge);
}

#[test]
fn conversion_to_the_wrong_kind_fails() {
    let v = FieldValue::from_u8(7);
    assert_eq!(
        v.try_to_u16(),
        Err(FieldValueError::WrongKind {
            expected: FieldSize::Unsigned16,
            actual: FieldSize::Unsigned8,
        })
    );
    assert_eq!(
        v.try_to_i8(),
        Err(FieldValueError::WrongKind {
            expected: FieldSize::Signed8,
            actual: FieldSize::Unsigned8,
        })
    );
    assert_eq!(
        v.try_to_array(1),
        Err(FieldValueError::WrongKind {
            expected: FieldSize::Array(1),
            actual: FieldSize::Unsigned8,
        })
    );
}

#[test]
fn conversion_to_the_wrong_array_length_fails() {
    let v = FieldValue::from_bytes(&[1, 2, 3]);
    assert_eq!(
        v.try_to_array(4),
        Err(FieldValueError::WrongSize {
            expected: 4,
            actual: 3,
        })
    );
    assert_eq!(v.try_to_array(3), Ok(vec![1, 2, 3]));
}

#[test]
fn encode_rejects_wrong_arity_and_wrong_kinds() {
    let decls = vec![
        FieldDecl::new("a".to_string(), FieldSize::Unsigned16),
        FieldDecl::new("b".to_string(), FieldSize::Array(2)),
    ];
    let d = KeyDescriptor::try_new(&decls).unwrap();
    let too_few = vec![FieldValue::from_u16(1)];
    assert_eq!(
        EncodedKey::encode(&d, &too_few),
        Err(KeyError::WrongCount {
            expected: 2,
            actual: 1,
        })
    );
    let wrong_kind = vec![FieldValue::from_u16(1), FieldValue::from_u8(2)];
    assert_eq!(
        EncodedKey::encode(&d, &wrong_kind),
        Err(KeyError::Value {
            field: 1,
            error: FieldValueError::WrongKind {
                expected: FieldSize::Array(2),
                actual: FieldSize::Unsigned8,
            },
        })
    );
    let wrong_len = vec![FieldValue::from_u16(1), FieldValue::from_bytes(&[1, 2, 3])];
    assert_eq!(
        EncodedKey::encode(&d, &wrong_len),
        Err(KeyError::Value {
            field: 1,
            error: FieldValueError::WrongSize {
                expected: 2,
                actual: 3,
            },
        })
    );
}

#[test]
fn set_rejects_the_wrong_kind_and_leaves_the_key_alone() {
    let decls = vec![FieldDecl::new("a".to_string(), FieldSize::Unsigned16)];
    let d = KeyDescriptor::try_new(&decls).unwrap();
    let mut k = EncodedKey::encode(&d, &vec![FieldValue::from_u16(0x1234)]).unwrap();
    let before = k.to_vec();
    let r = k.set(&d, 0, &FieldValue::from_u32(5));
    assert_eq!(
        r,
        Err(FieldValueError::WrongKind {
            expected: FieldSize::Unsigned16,
            actual: FieldSize::Unsigned32,
        })
    );
    assert_eq!(k.to_vec(), before);
}

#[test]
fn resolution_takes_the_overrides() {
    let decls = vec![
        FieldDecl::new("a".to_string(), FieldSize::Unsigned16)
            .with_override(FieldOverride::Name("Word".to_string()))
            .with_override(FieldOverride::Default(FieldValue::from_u16(0x1234))),
        FieldDecl::new("b".to_string(), FieldSize::Unsigned8),
    ];
    let d = KeyDescriptor::try_new(&decls).unwrap();
    assert_eq!(d.field_count(), 2);
    assert_eq!(d.total_size(), 3);
    assert_eq!(d.field(0).name, "Word");
    assert_eq!(d.field(0).offset, 0);
    assert_eq!(d.field(1).name, "b");
    assert_eq!(d.field(1).offset, 2);
    assert_eq!(EncodedKey::default_key(&d).as_bytes(), &[0x12, 0x34, 0]);
}
