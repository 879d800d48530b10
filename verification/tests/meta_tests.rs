use sonata_audio::meta::{
    media_format_name, parse_boolean_flag, parse_m_of_n, parse_var_signed_int, DataType, MetaError,
    MetaTagAtom, MetaTagDataAtom, MetaTagNamespaceAtom,
};

#[test]
fn data_type_codes_decode() {
    assert_eq!(DataType::from(0u32), DataType::NoType);
    assert_eq!(DataType::from(1u32), DataType::Utf8);
    assert_eq!(DataType::from(13u32), DataType::Jpeg);
    assert_eq!(DataType::from(14u32), DataType::Png);
    assert_eq!(DataType::from(21u32), DataType::SignedIntVariable);
    assert_eq!(DataType::from(79u32), DataType::AffineTransformF64);
    assert_eq!(DataType::from(99u32), DataType::Unknown(99));
}

#[test]
fn var_signed_int_sign_extends() {
    assert_eq!(parse_var_signed_int(&[0x00]), Some(0));
    assert_eq!(parse_var_signed_int(&[0x7F]), Some(127));
    assert_eq!(parse_var_signed_int(&[0x80]), Some(-128));
    assert_eq!(parse_var_signed_int(&[0xFF]), Some(-1));
    assert_eq!(parse_var_signed_int(&[0x01, 0x00]), Some(256));
    assert_eq!(parse_var_signed_int(&[0xFF, 0xFE]), Some(-2));
    assert_eq!(parse_var_signed_int(&[0x00, 0x80, 0x00]), Some(0x8000));
    assert_eq!(parse_var_signed_int(&[0xFF, 0xFF, 0xFF, 0xFF]), Some(-1));
    assert_eq!(parse_var_signed_int(&[0x7F, 0xFF, 0xFF, 0xFF]), Some(i32::MAX));
    assert_eq!(parse_var_signed_int(&[0x80, 0x00, 0x00, 0x00]), Some(i32::MIN));
}

#[test]
fn var_signed_int_rejects_bad_lengths() {
    assert_eq!(parse_var_signed_int(&[]), None);
    assert_eq!(parse_var_signed_int(&[1, 2, 3, 4, 5]), None);
}

#[test]
fn data_atom_read_parses_payload() {
    // version 0, a three-byte type code of 1 (UTF-8), four ignored country
    // and language bytes, then the data.
    let payload = [0u8, 0, 0, 1, 0x55, 0x53, 0x65, 0x6E, b'a', b'b', b'c'];
    let atom = MetaTagDataAtom::read(&payload).unwrap();
    assert_eq!(atom.data_type, DataType::Utf8);
    assert_eq!(atom.data, vec![b'a', b'b', b'c']);

    let empty_data = [0u8, 0, 0, 14, 0, 0, 0, 0];
    let atom = MetaTagDataAtom::read(&empty_data).unwrap();
    assert_eq!(atom.data_type, DataType::Png);
    assert_eq!(atom.data.len(), 0);
}

#[test]
fn data_atom_read_rejects_bad_payloads() {
    assert_eq!(MetaTagDataAtom::read(&[0u8, 0, 0, 1, 0, 0, 0]).unwrap_err(), MetaError::Truncated);
    assert_eq!(
        MetaTagDataAtom::read(&[1u8, 0, 0, 1, 0, 0, 0, 0]).unwrap_err(),
        MetaError::InvalidVersion
    );
}

#[test]
fn full_name_joins_namespace_and_name() {
    let atom = MetaTagAtom {
        values: Vec::new(),
        mean: Some(MetaTagNamespaceAtom { value: String::from("com.apple.iTunes") }),
        name: Some(MetaTagNamespaceAtom { value: String::from("iTunNORM") }),
    };
    assert_eq!(atom.full_name(), "com.apple.iTunes:iTunNORM");

    let only_name = MetaTagAtom {
        values: Vec::new(),
        mean: None,
        name: Some(MetaTagNamespaceAtom { value: String::from("key") }),
    };
    assert_eq!(only_name.full_name(), ":key");

    let neither = MetaTagAtom { values: Vec::new(), mean: None, name: None };
    assert_eq!(neither.full_name(), "");
}

#[test]
fn m_of_n_reads_fourth_and_sixth_bytes() {
    assert_eq!(parse_m_of_n(&[0, 0, 0, 3, 0, 12, 0, 0]), Some((3, 12)));
    assert_eq!(parse_m_of_n(&[0, 0, 0, 3, 0, 12, 0]), None);
    assert_eq!(parse_m_of_n(&[]), None);
}

#[test]
fn boolean_flags_need_a_leading_one() {
    assert!(parse_boolean_flag(&[1]));
    assert!(parse_boolean_flag(&[1, 0]));
    assert!(!parse_boolean_flag(&[0]));
    assert!(!parse_boolean_flag(&[2]));
    assert!(!parse_boolean_flag(&[]));
}

#[test]
fn media_format_names() {
    assert_eq!(media_format_name(0), "Movie");
    assert_eq!(media_format_name(1), "Normal");
    assert_eq!(media_format_name(2), "Audio Book");
    assert_eq!(media_format_name(10), "TV Show");
    assert_eq!(media_format_name(42), "Unknown");
}

#[test]
fn namespace_atom_read_decodes_value() {
    let payload = [0u8, 0, 0, 0, b'm', b'e', b'a', b'n'];
    let atom = MetaTagNamespaceAtom::read(&payload).unwrap();
    assert_eq!(atom.value, "mean");

    // Invalid UTF-8 is replaced, not rejected.
    let bad = [0u8, 0, 0, 0, b'a', 0xFF, b'b'];
    let atom = MetaTagNamespaceAtom::read(&bad).unwrap();
    assert_eq!(atom.value, "a\u{FFFD}b");

    // An empty value is allowed.
    let empty = [0u8, 0, 0, 0];
    let atom = MetaTagNamespaceAtom::read(&empty).unwrap();
    assert_eq!(atom.value, "");

    assert!(MetaTagNamespaceAtom::read(&[0u8, 0, 0]).is_err());
}
