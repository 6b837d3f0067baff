//! The end-to-end scenario: a two-field key of a `u64` id and a `u32`
//! index, packed big-endian, read back, and updated in place.

use db_key::descriptor::{FieldDecl, KeyDescriptor};
use db_key::key::EncodedKey;
use db_key::kind::FieldSize;
use db_key::render::render_compact;
use db_key::value::FieldValue;

fn id_index_desc() -> KeyDescriptor {
    let decls = vec![
        FieldDecl::new("id".to_string(), FieldSize::Unsigned64),
        FieldDecl::new("index".to_string(), FieldSize::Unsigned32),
    ];
    KeyDescriptor::try_new(&decls).unwrap()
}

#[test]
fn encode_packs_big_endian() {
    let d = id_index_desc();
    assert_eq!(d.total_size(), 12);
    let vals = vec![
        FieldValue::from_u64(0x123456789ABCDEF0),
        FieldValue::from_u32(0xECA86420),
    ];
    let key = EncodedKey::encode(&d, &vals).unwrap();
    assert_eq!(
        key.as_bytes(),
        &[0x12, 0x34, 0x56, 0x78, 0x9A, 0xBC, 0xDE, 0xF0, 0xEC, 0xA8, 0x64, 0x20]
    );
}

#[test]
fn decode_reads_the_fields_back() {
    let d = id_index_desc();
    let raw = [0x12, 0x34, 0x56, 0x78, 0x9A, 0xBC, 0xDE, 0xF0, 0xEC, 0xA8, 0x64, 0x20];
    let key = EncodedKey::from_slice(&d, &raw);
    assert_eq!(key.get(&d, 0).try_to_u64(), Ok(0x123456789ABCDEF0));
    assert_eq!(key.get(&d, 1).try_to_u32(), Ok(0xECA86420));
}

#[test]
fn setter_touches_only_its_own_range() {
    let d = id_index_desc();
    let vals = vec![
        FieldValue::from_u64(0x123456789ABCDEF0),
        FieldValue::from_u32(0xECA86420),
    ];
    let mut key = EncodedKey::encode(&d, &vals).unwrap();
    let before = key.to_vec();
    key.set(&d, 1, &FieldValue::from_u32(0xFDB97531)).unwrap();
    let after = key.to_vec();
    assert_eq!(&after[0..8], &before[0..8]);
    assert_eq!(&after[8..12], &[0xFD, 0xB9, 0x75, 0x31]);
    assert_eq!(key.get(&d, 0).try_to_u64(), Ok(0x123456789ABCDEF0));
    assert_eq!(key.get(&d, 1).try_to_u32(), Ok(0xFDB97531));
}

#[test]
fn compact_rendering_groups_the_fields() {
    let raw = vec![0x12, 0x34, 0x56, 0x78, 0x9A, 0xBC, 0xDE, 0xF0, 0xEC, 0xA8, 0x64, 0x20];
    let sizes = vec![8usize, 4usize];
    let s = render_compact(&raw, &sizes);
    assert_eq!(s, "0x123456789ABCDEF0_ECA86420");
}
