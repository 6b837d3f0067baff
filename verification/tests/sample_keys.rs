//! The sample key types pack and read back exactly as declared.

use db_key::samples::{
    Args, BigKey, Key, MinMaxKey, NoDocKey, NoMaxKey, NoMinKey, NoMinMaxKey, NoNewKey,
    NoNewKeyArgs, SampleKey, SignedKey, SignedKeyArgs,
};

#[test]
fn sample_key_packs_big_endian() {
    let k = SampleKey::new(
        0x0102030405060708,
        0x1112,
        0x21,
        0x31323334,
        [0x41, 0x42, 0x43],
    );
    assert_eq!(SampleKey::KEY_LENGTH, 18);
    assert_eq!(
        k.as_bytes(),
        &[
            0x01, 0x02, 0x03, 0x04, 0x05, 0x06, 0x07, 0x08, 0x11, 0x12, 0x21, 0x31, 0x32, 0x33,
            0x34, 0x41, 0x42, 0x43
        ]
    );
    assert_eq!(k.id(), 0x0102030405060708);
    assert_eq!(k.word(), 0x1112);
    assert_eq!(k.byte(), 0x21);
    assert_eq!(k.long(), 0x31323334);
    assert_eq!(k.end(), &[0x41, 0x42, 0x43]);
    // A key built from the raw bytes is the same key.
    let k2 = SampleKey::from_slice(k.as_bytes());
    assert_eq!(k, k2);
}

#[test]
fn sample_key_default_values() {
    let k = SampleKey::default();
    assert_eq!(k.id(), 0x123456789ABCDEF0);
    assert_eq!(k.word(), 0);
    assert_eq!(k.byte(), 0);
    assert_eq!(k.long(), 0x12345678);
    assert_eq!(k.end(), &[0xA5, 0xA5, 0xA5]);
}

#[test]
fn no_new_key_builds_from_args() {
    let k = NoNewKey::from_args(NoNewKeyArgs::default());
    assert_eq!(k.id(), 0);
    assert_eq!(k.end(), &[0x12, 0x34, 0x56]);
    let k = NoNewKey::from_args(NoNewKeyArgs {
        word: 99,
        ..Default::default()
    });
    assert_eq!(k.word(), 99);
    assert_eq!(k.end(), &[0x12, 0x34, 0x56]);
}

#[test]
fn short_args_name_works() {
    let k = Key::from_args(Args {
        id: 5,
        ..Default::default()
    });
    assert_eq!(k.id(), 5);
    assert_eq!(k.word(), 12453);
    assert_eq!(k.byte(), 150);
    assert_eq!(k.long(), 0x18245637);
    assert_eq!(k.end(), &[0xBA, 0xBA, 0xBA]);
}

#[test]
fn no_doc_key_defaults() {
    let k = NoDocKey::default();
    assert_eq!(k.word(), 12345);
    assert_eq!(k.byte(), 105);
    assert_eq!(k.long(), 0x12345678);
    assert_eq!(k.end(), &[0xAB, 0xAB, 0xAB]);
}

#[test]
fn min_max_key_defaults() {
    let k = MinMaxKey::default();
    assert_eq!(k.byte(), 255);
    assert_eq!(k.word(), 12453);
}

#[test]
fn option_keys_share_the_layout() {
    let a = NoMinMaxKey::default();
    let b = NoMinKey::default();
    let c = NoMaxKey::default();
    assert_eq!(a.as_bytes(), b.as_bytes());
    assert_eq!(b.as_bytes(), c.as_bytes());
    assert_eq!(a.end(), &[0x12, 0x34, 0x7F]);
}

#[test]
fn signed_key_from_args() {
    let k = SignedKey::from_args(SignedKeyArgs {
        id: -77,
        ..Default::default()
    });
    assert_eq!(k.id(), -77);
    assert_eq!(k.word(), 12453);
    assert_eq!(k.byte(), 127);
    // Negative ids sort below the zero id, byte-wise.
    let zero = SignedKey::from_args(SignedKeyArgs {
        id: 0,
        ..Default::default()
    });
    assert!(k.as_bytes() < zero.as_bytes());
}

#[test]
fn big_key_places_every_field() {
    let mut args = [0u128; 10];
    for (i, a) in args.iter_mut().enumerate() {
        *a = (i as u128) + 1;
    }
    let k = BigKey::new(
        args[0], args[1], args[2], args[3], args[4], args[5], args[6], args[7], args[8], args[9],
        [0xEE; 160],
    );
    assert_eq!(BigKey::KEY_LENGTH, 320);
    assert_eq!(k.big0(), 1);
    assert_eq!(k.big9(), 10);
    assert_eq!(k.array().len(), 160);
    assert_eq!(k.array()[0], 0xEE);
    // Each 16-byte group holds its value big-endian.
    assert_eq!(k.as_bytes()[15], 1);
    assert_eq!(k.as_bytes()[9 * 16 + 15], 10);
    let mut k = k;
    k.set_big5(u128::MAX);
    assert_eq!(k.big5(), u128::MAX);
    assert_eq!(k.big4(), 5);
    assert_eq!(k.big6(), 7);
}

#[test]
fn keys_compare_byte_wise() {
    let a = SampleKey::new(1, 0, 0, 0, [0; 3]);
    let b = SampleKey::new(2, 0, 0, 0, [0; 3]);
    assert!(a.as_bytes() < b.as_bytes());
    assert_ne!(a, b);
    assert_eq!(a, a.clone());
}
