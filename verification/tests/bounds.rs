//! Whole-key bounds: the uniform shortcut and the per-field walk.

use db_key::descriptor::{FieldDecl, FieldOverride, KeyDescriptor};
use db_key::key::EncodedKey;
use db_key::kind::FieldSize;
use db_key::samples::{MinMaxKey, NoMaxKey, NoMinKey, SampleKey, SignedKey};
use db_key::value::FieldValue;

#[test]
fn uniform_bounds_are_plain_fills() {
    // With no overrides the whole-key bounds are the all-zero and
    // all-0xFF buffers.
    assert_eq!(SampleKey::min_key().as_bytes(), &[0u8; 18]);
    assert_eq!(SampleKey::max_key().as_bytes(), &[0xFFu8; 18]);
    assert_eq!(NoMinKey::max_key().as_bytes(), &[0xFFu8; 18]);
    assert_eq!(NoMaxKey::min_key().as_bytes(), &[0u8; 18]);
}

#[test]
fn uniform_fill_equals_the_per_field_walk() {
    // The same key type built as a descriptor: the general per-field
    // composition must give the same buffers as the fills.
    let decls = vec![
        FieldDecl::new("id".to_string(), FieldSize::Unsigned64),
        FieldDecl::new("word".to_string(), FieldSize::Unsigned16),
        FieldDecl::new("byte".to_string(), FieldSize::Unsigned8),
        FieldDecl::new("long".to_string(), FieldSize::Unsigned32),
        FieldDecl::new("end".to_string(), FieldSize::Array(3)),
    ];
    let d = KeyDescriptor::try_new(&decls).unwrap();
    assert_eq!(EncodedKey::min_key(&d).as_bytes(), &[0u8; 18]);
    assert_eq!(EncodedKey::max_key(&d).as_bytes(), &[0xFFu8; 18]);
    assert_eq!(
        EncodedKey::min_key(&d).as_bytes(),
        SampleKey::min_key().as_bytes()
    );
    assert_eq!(
        EncodedKey::max_key(&d).as_bytes(),
        SampleKey::max_key().as_bytes()
    );
}

#[test]
fn overridden_bounds_need_the_per_field_walk() {
    // MinMaxKey narrows its bounds, so they are not plain fills.
    let min = MinMaxKey::min_key();
    let max = MinMaxKey::max_key();
    assert_ne!(min.as_bytes(), &[0u8; 18]);
    assert_ne!(max.as_bytes(), &[0xFFu8; 18]);
    assert_eq!(min.id(), 1);
    assert_eq!(min.word(), 150);
    assert_eq!(min.byte(), 255);
    assert_eq!(min.long(), 0x99999999);
    assert_eq!(min.end(), &[0x20, 0x20, 0x20]);
    assert_eq!(max.id(), 0x8000000000000000);
    assert_eq!(max.word(), 60000);
    assert_eq!(max.byte(), 255);
    assert_eq!(max.long(), 0xFFFFFFFF);
    assert_eq!(max.end(), &[0xEF, 0xEF, 0xEF]);
}

#[test]
fn signed_bounds_read_back_signed() {
    let min = SignedKey::min_key();
    let max = SignedKey::max_key();
    assert_eq!(min.id(), -1234567890);
    assert_eq!(max.id(), 1234567890);
    assert_eq!(min.word(), 150);
    assert_eq!(max.word(), 30000);
    assert_eq!(min.long(), 0x77777777);
    assert_eq!(max.long(), i32::MAX);
    assert!(min.as_bytes() < max.as_bytes());
}

#[test]
fn descriptor_bounds_follow_overrides() {
    let decls = vec![
        FieldDecl::new("a".to_string(), FieldSize::Unsigned8)
            .with_override(FieldOverride::Minimum(FieldValue::from_u8(10)))
            .with_override(FieldOverride::Maximum(FieldValue::from_u8(20))),
        FieldDecl::new("b".to_string(), FieldSize::Unsigned8),
    ];
    let d = KeyDescriptor::try_new(&decls).unwrap();
    assert_eq!(EncodedKey::min_key(&d).as_bytes(), &[10, 0]);
    assert_eq!(EncodedKey::max_key(&d).as_bytes(), &[20, 0xFF]);
    // The default key keeps the kind defaults where none was set.
    assert_eq!(EncodedKey::default_key(&d).as_bytes(), &[0, 0]);
}
