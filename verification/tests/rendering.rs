//! Text renderings of raw buffers and field values.

use db_key::render::RawDebugFormat;
use db_key::samples::debug::{
    LowerHexDebugKey, PrettyLowerHexDebugKey, PrettyUpperHexDebugKey, StdDebugKey,
    UpperHexDebugKey,
};
use db_key::samples::SampleKey;
use db_key::value::FieldValue;

#[test]
fn compact_debug_groups_fields_with_underscores() {
    let k = SampleKey::default();
    assert_eq!(k.raw_debug(), "0x123456789ABCDEF0_0000_00_12345678_A5A5A5");
    let k = SampleKey::new(1, 2, 3, 4, [5, 6, 7]);
    assert_eq!(k.raw_debug(), "0x0000000000000001_0002_03_00000004_050607");
}

#[test]
fn standard_debug_prints_decimal_bytes() {
    let k = StdDebugKey::new(1, 2, 3, 4, 5, [9, 8, 7, 6, 5]);
    let expected = format!("{:?}", k.as_bytes());
    assert_eq!(k.raw_debug(), expected);
}

#[test]
fn hex_debug_prints_bare_hex_bytes() {
    let k = LowerHexDebugKey::new(0xAB, 2, 3, 4, 5, [0xF; 5]);
    assert_eq!(k.raw_debug(), format!("{:x?}", k.as_bytes()));
    let k = UpperHexDebugKey::new(0xAB, 2, 3, 4, 5, [0xF; 5]);
    assert_eq!(k.raw_debug(), format!("{:X?}", k.as_bytes()));
}

#[test]
fn pretty_hex_debug_prints_prefixed_pairs() {
    let k = PrettyLowerHexDebugKey::new(0xAB, 2, 3, 4, 5, [0xF; 5]);
    let expected = format!(
        "[{}]",
        k.as_bytes()
            .iter()
            .map(|b| format!("{:#04x}", b))
            .collect::<Vec<_>>()
            .join(", ")
    );
    assert_eq!(k.raw_debug(), expected);
    let k = PrettyUpperHexDebugKey::new(0xAB, 2, 3, 4, 5, [0xF; 5]);
    let expected = format!(
        "[{}]",
        k.as_bytes()
            .iter()
            .map(|b| format!("{:#04X}", b))
            .collect::<Vec<_>>()
            .join(", ")
    );
    assert_eq!(k.raw_debug(), expected);
}

#[test]
fn field_values_render_as_literals() {
    assert_eq!(FieldValue::from_i16(12453).render(), "12453_i16");
    assert_eq!(FieldValue::from_i16(-12453).render(), "-12453_i16");
    assert_eq!(FieldValue::from_i8(0).render(), "0_i8");
    assert_eq!(FieldValue::from_i64(i64::MIN).render(), "-9223372036854775808_i64");
    assert_eq!(FieldValue::from_u8(5).render(), "0x05_u8");
    assert_eq!(FieldValue::from_u16(0xBEEF).render(), "0xBEEF_u16");
    assert_eq!(FieldValue::from_u32(0x18245637).render(), "0x18245637_u32");
    assert_eq!(
        FieldValue::from_u64(0x123456789ABCDEF0).render(),
        "0x123456789ABCDEF0_u64"
    );
    assert_eq!(
        FieldValue::from_bytes(&[0xA5, 0xB2, 0x01]).render(),
        "[0xA5_u8, 0xB2, 0x01]"
    );
}

#[test]
fn assert_eq_rendering_references_arrays() {
    let v = FieldValue::from_bytes(&[0xA5, 0xB2, 0x01]);
    assert_eq!(v.assert_eq().render(), "&[0xA5_u8, 0xB2, 0x01]");
    let v = FieldValue::from_u16(0xBEEF);
    assert_eq!(v.assert_eq().render(), "0xBEEF_u16");
}

#[test]
fn just_bytes_rendering_lists_the_bytes() {
    let v = FieldValue::from_u32(0x0A0B0C0D);
    assert_eq!(v.just_bytes().render(), "0x0A, 0x0B, 0x0C, 0x0D");
}

#[test]
fn format_names_parse() {
    assert_eq!(
        RawDebugFormat::from_text(&"compact".to_string()),
        Some(RawDebugFormat::Compact)
    );
    assert_eq!(
        RawDebugFormat::from_text(&"std".to_string()),
        Some(RawDebugFormat::Standard)
    );
    assert_eq!(
        RawDebugFormat::from_text(&"lower_hex".to_string()),
        Some(RawDebugFormat::LowerHex)
    );
    assert_eq!(
        RawDebugFormat::from_text(&"upper_hex".to_string()),
        Some(RawDebugFormat::UpperHex)
    );
    assert_eq!(
        RawDebugFormat::from_text(&"pretty_lower_hex".to_string()),
        Some(RawDebugFormat::PrettyLowerHex)
    );
    assert_eq!(
        RawDebugFormat::from_text(&"pretty_upper_hex".to_string()),
        Some(RawDebugFormat::PrettyUpperHex)
    );
    assert_eq!(RawDebugFormat::from_text(&"other".to_string()), None);
    assert_eq!(RawDebugFormat::default(), RawDebugFormat::Compact);
}
