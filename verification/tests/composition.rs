//! Default composition and raw-byte ingestion.

use db_key::descriptor::{FieldDecl, FieldOverride, KeyDescriptor};
use db_key::key::EncodedKey;
use db_key::kind::FieldSize;
use db_key::samples::{SampleKey, SampleKeyArgs};
use db_key::value::FieldValue;

#[test]
fn partial_args_equal_default_plus_setter() {
    // Supplying only one field equals building the all-defaults key and
    // overwriting just that field.
    let supplied = 0x0102030405060708u64;
    let via_args = SampleKey::from_args(SampleKeyArgs {
        id: supplied,
        ..Default::default()
    });
    let mut via_setter = SampleKey::default();
    via_setter.set_id(supplied);
    assert_eq!(via_args, via_setter);
    assert_eq!(via_args.as_bytes(), via_setter.as_bytes());
}

#[test]
fn partial_args_for_a_middle_field() {
    let via_args = SampleKey::from_args(SampleKeyArgs {
        long: 0xCAFEBABE,
        ..Default::default()
    });
    let mut via_setter = SampleKey::default();
    via_setter.set_long(0xCAFEBABE);
    assert_eq!(via_args.as_bytes(), via_setter.as_bytes());
    // The untouched fields still read as their defaults.
    assert_eq!(via_args.id(), 0x123456789ABCDEF0);
    assert_eq!(via_args.word(), 0);
    assert_eq!(via_args.byte(), 0);
    assert_eq!(via_args.long(), 0xCAFEBABE);
    assert_eq!(via_args.end(), &[0xA5, 0xA5, 0xA5]);
}

#[test]
fn generic_partial_encode_fills_defaults() {
    let decls = vec![
        FieldDecl::new("a".to_string(), FieldSize::Unsigned16)
            .with_override(FieldOverride::Default(FieldValue::from_u16(0xBEEF))),
        FieldDecl::new("b".to_string(), FieldSize::Unsigned8),
    ];
    let d = KeyDescriptor::try_new(&decls).unwrap();
    // Supply only the second field.
    let opts = vec![None, Some(FieldValue::from_u8(0x42))];
    let key = EncodedKey::encode_partial(&d, &opts).unwrap();
    assert_eq!(key.as_bytes(), &[0xBE, 0xEF, 0x42]);
    // Supplying nothing gives the default key.
    let none = vec![None, None];
    let key = EncodedKey::encode_partial(&d, &none).unwrap();
    assert_eq!(key.as_bytes(), EncodedKey::default_key(&d).as_bytes());
    assert_eq!(key.as_bytes(), &[0xBE, 0xEF, 0x00]);
}

#[test]
fn short_slices_ingest_as_zero_padded() {
    // Ingesting a short slice equals ingesting the slice plus zeros.
    let short = [0xAA, 0xBB, 0xCC];
    let padded: Vec<u8> = {
        let mut v = short.to_vec();
        v.resize(SampleKey::KEY_LENGTH, 0);
        v
    };
    let a = SampleKey::from_slice(&short);
    let b = SampleKey::from_slice(&padded);
    assert_eq!(a, b);
    assert_eq!(a.as_bytes(), padded.as_slice());
}

#[test]
fn long_slices_ingest_truncated() {
    let mut long = vec![0x11u8; SampleKey::KEY_LENGTH];
    long.extend_from_slice(&[0xFF, 0xFF, 0xFF]);
    let k = SampleKey::from_slice(&long);
    assert_eq!(k.as_bytes(), &long[..SampleKey::KEY_LENGTH]);
}

#[test]
fn empty_slice_ingests_as_all_zero() {
    let k = SampleKey::from_slice(&[]);
    assert_eq!(k.as_bytes(), &[0u8; 18]);
    assert_eq!(k.id(), 0);
    assert_eq!(k.end(), &[0, 0, 0]);
}
