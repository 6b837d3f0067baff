//! The generic table-driven key operations.

use db_key::descriptor::{FieldDecl, FieldOverride, KeyDescriptor};
use db_key::key::{EncodedKey, KeyError};
use db_key::kind::FieldSize;
use db_key::value::{FieldValue, FieldValueError};

fn mixed_desc() -> KeyDescriptor {
    let decls = vec![
        FieldDecl::new("tag".to_string(), FieldSize::Unsigned8),
        FieldDecl::new("body".to_string(), FieldSize::Array(4))
            .with_override(FieldOverride::Default(FieldValue::from_bytes(&[9, 9, 9, 9]))),
        FieldDecl::new("delta".to_string(), FieldSize::Signed16),
    ];
    KeyDescriptor::try_new(&decls).unwrap()
}

#[test]
fn get_reads_every_field_kind_back() {
    let d = mixed_desc();
    let vals = vec![
        FieldValue::from_u8(7),
        FieldValue::from_bytes(&[1, 2, 3, 4]),
        FieldValue::from_i16(-2),
    ];
    let key = EncodedKey::encode(&d, &vals).unwrap();
    assert_eq!(key.len(), 7);
    assert_eq!(key.get(&d, 0).try_to_u8(), Ok(7));
    assert_eq!(key.get(&d, 1).try_to_array(4), Ok(vec![1, 2, 3, 4]));
    assert_eq!(key.get(&d, 2).try_to_i16(), Ok(-2));
}

#[test]
fn partial_encode_rejects_a_wrong_kind() {
    let d = mixed_desc();
    let opts = vec![None, Some(FieldValue::from_u8(1)), None];
    assert_eq!(
        EncodedKey::encode_partial(&d, &opts),
        Err(KeyError::Value {
            field: 1,
            error: FieldValueError::WrongKind {
                expected: FieldSize::Array(4),
                actual: FieldSize::Unsigned8,
            },
        })
    );
    let too_many = vec![None, None, None, None];
    assert_eq!(
        EncodedKey::encode_partial(&d, &too_many),
        Err(KeyError::WrongCount {
            expected: 3,
            actual: 4,
        })
    );
}

#[test]
fn partial_encode_uses_the_configured_default() {
    let d = mixed_desc();
    let opts = vec![Some(FieldValue::from_u8(1)), None, Some(FieldValue::from_i16(0))];
    let key = EncodedKey::encode_partial(&d, &opts).unwrap();
    // The omitted array field falls back to its override default, and
    // the signed zero stores as the bias pattern.
    assert_eq!(key.as_bytes(), &[1, 9, 9, 9, 9, 0x80, 0x00]);
}

#[test]
fn shorter_buffers_sort_before_their_extensions() {
    let d1 = KeyDescriptor::try_new(&vec![FieldDecl::new("a".to_string(), FieldSize::Unsigned8)])
        .unwrap();
    let d2 = KeyDescriptor::try_new(&vec![FieldDecl::new("a".to_string(), FieldSize::Unsigned16)])
        .unwrap();
    let short = EncodedKey::from_slice(&d1, &[5]);
    let long = EncodedKey::from_slice(&d2, &[5, 0]);
    assert_eq!(short.compare(&long), std::cmp::Ordering::Less);
    assert_eq!(long.compare(&short), std::cmp::Ordering::Greater);
}

#[test]
fn set_updates_an_array_field_in_place() {
    let d = mixed_desc();
    let mut key = EncodedKey::default_key(&d);
    assert_eq!(key.as_bytes(), &[0, 9, 9, 9, 9, 0x80, 0x00]);
    key.set(&d, 1, &FieldValue::from_bytes(&[4, 3, 2, 1])).unwrap();
    assert_eq!(key.as_bytes(), &[0, 4, 3, 2, 1, 0x80, 0x00]);
}
