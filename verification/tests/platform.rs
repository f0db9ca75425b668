use tdx_qgs::pck::fake_platform::{fake_platform_info, fake_qe_id};
use tdx_qgs::pck::platform::{
    cache_file_name, copy_fixed_hex_field, id_from_file_contents, manifest_from_efi_variable,
    pck_secret_name, platform_info_from_fields, platform_info_from_output, platform_info_output,
    platform_secret,
    resolve_id, PlatformError, PlatformField, ZERO_ID,
};

/// A well-formed, 32-hex-character sample ID for tests.
const SAMPLE_ID: &str = "a1b2c3d4e5f6a1b2c3d4e5f6a1b2c3d4";

#[test]
fn test_id_file_roundtrip() {
    // The ID file holds the ID exactly as it was written.
    let read_back = id_from_file_contents(SAMPLE_ID).expect("read should succeed");
    assert_eq!(read_back, SAMPLE_ID);
}

#[test]
fn test_id_file_trims_whitespace() {
    let contents = format!("  {SAMPLE_ID}\n");
    let read_back = id_from_file_contents(&contents).expect("read should succeed");
    assert_eq!(read_back, SAMPLE_ID);
}

#[test]
fn test_id_file_invalid_content_errors() {
    let cases = [
        ("empty", "   \n"),
        // Too short to be a valid 32-hex-character ID.
        ("wrong_length", "a1b2c3d4e5f6"),
        // Correct length, but contains a non-hex character.
        ("non_hex", "g1b2c3d4e5f6a1b2c3d4e5f6a1b2c3d4"),
    ];
    for (case, content) in cases {
        assert!(id_from_file_contents(content).is_err(), "case {case:?} should have errored");
    }
}

#[test]
fn id_file_error_carries_trimmed_content() {
    match id_from_file_contents(" a1b2c3d4e5f6 \n") {
        Err(PlatformError::InvalidIdContent(v)) => assert_eq!(v, "a1b2c3d4e5f6"),
        other => panic!("unexpected {other:?}"),
    }
    assert_eq!(id_from_file_contents("A1B2C3D4E5F6A1B2C3D4E5F6A1B2C3D4").unwrap(), "A1B2C3D4E5F6A1B2C3D4E5F6A1B2C3D4");
}

#[test]
fn test_copy_fixed_hex_field_accepts_valid_hex() {
    let out = copy_fixed_hex_field::<8>("deadbeef", "test_field").expect("should succeed");
    assert_eq!(out, *b"deadbeef");
}

#[test]
fn test_copy_fixed_hex_field_rejects_wrong_length() {
    assert!(copy_fixed_hex_field::<8>("dead", "test_field").is_err());
    assert!(copy_fixed_hex_field::<8>("deadbeefcafe", "test_field").is_err());
}

#[test]
fn test_copy_fixed_hex_field_rejects_non_hex_content() {
    // Correct length, but contains non-hex characters.
    assert!(copy_fixed_hex_field::<8>("deadbeeg", "test_field").is_err());
    assert!(copy_fixed_hex_field::<8>("../../etc", "test_field").is_err());
}

#[test]
fn copy_fixed_hex_field_error_details() {
    match copy_fixed_hex_field::<4>("abc", "pce_id") {
        Err(PlatformError::InvalidLength { field, got, expected }) => {
            assert_eq!(field, "pce_id");
            assert_eq!(got, 3);
            assert_eq!(expected, 4);
        },
        other => panic!("unexpected {other:?}"),
    }
    match copy_fixed_hex_field::<4>("0x0b", "pce_svn") {
        Err(PlatformError::InvalidContent { field, value }) => {
            assert_eq!(field, "pce_svn");
            assert_eq!(value, "0x0b");
        },
        other => panic!("unexpected {other:?}"),
    }
    // Length counts bytes: two 2-byte characters are 4 bytes.
    assert!(matches!(
        copy_fixed_hex_field::<4>("\u{e9}\u{e9}", "f"),
        Err(PlatformError::InvalidContent { .. })
    ));
}

#[test]
fn test_resolve_id_from_file_uses_id_as_cache_id() {
    let contents = format!("{SAMPLE_ID}\n");
    let (id, cache_id) = resolve_id(Some(&contents), None).expect("should resolve");
    assert_eq!(id, SAMPLE_ID);
    assert_eq!(cache_id, SAMPLE_ID);
}

#[test]
fn test_resolve_id_from_literal_uses_zero_id_as_cache_id() {
    let (id, cache_id) = resolve_id(None, Some("some-node-name")).expect("should resolve");
    assert_eq!(id, "some-node-name");
    assert_eq!(cache_id, ZERO_ID);
}

#[test]
fn test_resolve_id_empty_literal_errors() {
    assert!(resolve_id(None, Some("   ")).is_err());
}

#[test]
fn test_resolve_id_neither_source_errors() {
    assert!(resolve_id(None, None).is_err());
}

#[test]
fn resolve_id_errors_by_source() {
    assert!(matches!(resolve_id(None, None), Err(PlatformError::MissingIdSource)));
    assert!(matches!(resolve_id(None, Some(" \t")), Err(PlatformError::EmptyId)));
    assert!(matches!(resolve_id(Some("xyz"), Some("node")), Err(PlatformError::InvalidIdContent(_))));
    // The file wins over the literal.
    let (id, cache_id) = resolve_id(Some(SAMPLE_ID), Some("node")).unwrap();
    assert_eq!((id.as_str(), cache_id.as_str()), (SAMPLE_ID, SAMPLE_ID));
    let (id, _) = resolve_id(None, Some("  node-1 ")).unwrap();
    assert_eq!(id, "node-1");
    assert_eq!(ZERO_ID, "00000000000000000000000000000000");
}

#[test]
fn platform_info_output_trims_and_rejects_empty() {
    assert!(matches!(platform_info_output(" \n\t"), Err(PlatformError::EmptyOutput)));
    assert_eq!(platform_info_output("  {\"a\":1}\n").unwrap(), "{\"a\":1}");
}

#[test]
fn platform_info_from_fields_checks_in_order() {
    let cpu = "0102030405060708090a0b0c0d0e0f10";
    let qe = SAMPLE_ID;
    let info = platform_info_from_fields(Some(cpu), Some("0000"), Some("0b00"), Some(qe)).unwrap();
    assert_eq!(&info.0, cpu.as_bytes());
    assert_eq!(&info.1, b"0000");
    assert_eq!(&info.2, b"0b00");
    assert_eq!(&info.3, qe.as_bytes());
    assert!(matches!(
        platform_info_from_fields(None, None, None, None),
        Err(PlatformError::MissingField(PlatformField::CpuSvn))
    ));
    assert!(matches!(
        platform_info_from_fields(Some(cpu), None, Some("0b00"), Some(qe)),
        Err(PlatformError::MissingField(PlatformField::PceId))
    ));
    assert!(matches!(
        platform_info_from_fields(Some(cpu), Some("0000"), None, Some(qe)),
        Err(PlatformError::MissingField(PlatformField::PceSvn))
    ));
    assert!(matches!(
        platform_info_from_fields(Some(cpu), Some("0000"), Some("0b00"), None),
        Err(PlatformError::MissingField(PlatformField::QeId))
    ));
    match platform_info_from_fields(Some(cpu), Some("00000"), Some("0b00"), Some(qe)) {
        Err(PlatformError::InvalidLength { field, got, expected }) => {
            assert_eq!((field.as_str(), got, expected), ("pce_id", 5, 4));
        },
        other => panic!("unexpected {other:?}"),
    }
    match platform_info_from_fields(Some(cpu), Some("0000"), Some("0b00"), Some("z1b2c3d4e5f6a1b2c3d4e5f6a1b2c3d4")) {
        Err(PlatformError::InvalidContent { field, .. }) => assert_eq!(field, "qe_id"),
        other => panic!("unexpected {other:?}"),
    }
}

#[test]
fn manifest_is_hex_of_structure_data() {
    let data = [7u8, 0, 0, 0, 1, 0, 3, 0, 0xde, 0xad, 0x0f];
    assert_eq!(manifest_from_efi_variable(&data).unwrap(), "dead0f");
    assert!(matches!(manifest_from_efi_variable(&data[..7]), Err(PlatformError::EfiTooShort)));
    match manifest_from_efi_variable(&data[..10]) {
        Err(PlatformError::ManifestSizeMismatch { declared, actual }) => {
            assert_eq!((declared, actual), (3, 2));
        },
        other => panic!("unexpected {other:?}"),
    }
    let mut big = vec![0u8, 0, 0, 0, 0, 0, 0x00, 0x01];
    big.extend(std::iter::repeat(0xab).take(256));
    assert_eq!(manifest_from_efi_variable(&big).unwrap(), "ab".repeat(256));
    assert_eq!(manifest_from_efi_variable(&[0u8; 8]).unwrap(), "");
}

#[test]
fn platform_secret_holds_fields() {
    let info = (*b"0102030405060708090a0b0c0d0e0f10", *b"0000", *b"0b00", *b"a1b2c3d4e5f6a1b2c3d4e5f6a1b2c3d4");
    let s = platform_secret(&info, "ns", Some("dead".to_string())).unwrap();
    assert_eq!(s.name, SAMPLE_ID);
    assert_eq!(s.namespace, "ns");
    assert_eq!(s.labels, vec![("type".to_string(), "platform-data".to_string())]);
    let keys: Vec<&str> = s.string_data.iter().map(|p| p.0.as_str()).collect();
    assert_eq!(keys, vec!["enc_ppid", "pce_id", "cpu_svn", "pce_svn", "qe_id", "platform_manifest"]);
    let values: Vec<&str> = s.string_data.iter().map(|p| p.1.as_str()).collect();
    assert_eq!(values, vec!["", "0000", "0102030405060708090a0b0c0d0e0f10", "0b00", SAMPLE_ID, "dead"]);
    let s = platform_secret(&info, "ns", None).unwrap();
    assert_eq!(s.string_data.len(), 5);
    let mut bad = info;
    bad.3[0] = 0xff;
    assert!(matches!(platform_secret(&bad, "ns", None), Err(PlatformError::InvalidUtf8(PlatformField::QeId))));
    let mut bad = info;
    bad.0[5] = 0xc3;
    assert!(matches!(platform_secret(&bad, "ns", None), Err(PlatformError::InvalidUtf8(PlatformField::CpuSvn))));
}

#[test]
fn derived_names() {
    assert_eq!(cache_file_name(ZERO_ID), "00000000000000000000000000000000_0000");
    assert_eq!(pck_secret_name("node-1"), "node-1-pck");
}

#[test]
fn fake_platform_info_is_stable_per_node() {
    let id = fake_qe_id("node-a");
    assert_eq!(id.len(), 32);
    assert_eq!(id, fake_qe_id("node-a"));
    assert_ne!(id, fake_qe_id("node-b"));
    // The first 16 bytes of the SHA-256 of the empty string.
    assert_eq!(fake_qe_id(""), "e3b0c44298fc1c149afbf4c8996fb924");
    let line = fake_platform_info("");
    let expected = format!(
        "{{\"cpu_svn\":\"0102030405060708090a0b0c0d0e0f10\",\"enc_ppid\":\"{}\",\"pce_id\":\"0000\",\"pce_svn\":\"0b00\",\"qe_id\":\"{}\"}}",
        "ab".repeat(384),
        "e3b0c44298fc1c149afbf4c8996fb924"
    );
    assert_eq!(line, expected);
}

#[test]
fn platform_info_from_binary_output() {
    let out = fake_platform_info("node-a");
    let info = platform_info_from_output(&format!("  {out}\n")).unwrap();
    assert_eq!(&info.0, b"0102030405060708090a0b0c0d0e0f10");
    assert_eq!(&info.1, b"0000");
    assert_eq!(&info.2, b"0b00");
    assert_eq!(std::str::from_utf8(&info.3).unwrap(), fake_qe_id("node-a"));
    assert!(matches!(platform_info_from_output(" \n"), Err(PlatformError::EmptyOutput)));
    assert!(matches!(platform_info_from_output("{not json"), Err(PlatformError::InvalidJson)));
    assert!(matches!(
        platform_info_from_output("{\"cpu_svn\": 5}"),
        Err(PlatformError::MissingField(PlatformField::CpuSvn))
    ));
    assert!(matches!(
        platform_info_from_output("[1, 2]"),
        Err(PlatformError::MissingField(PlatformField::CpuSvn))
    ));
}
