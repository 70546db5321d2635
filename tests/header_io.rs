use projzst::container::{pack_header, read_header};
use projzst::{IgnoreUnknown, Metadata};

const ZSTD_MAGIC: [u8; 4] = [0x28, 0xB5, 0x2F, 0xFD];

fn create_test_metadata() -> Metadata {
    Metadata::new(
        "test-project",
        "Test Author",
        "test-format",
        "2024",
        "1.0.0",
        "A test project description",
    )
}

fn packed(metadata: Metadata, extra: Option<&str>) -> Vec<u8> {
    let mut data = pack_header(metadata, extra).unwrap();
    data.extend_from_slice(&ZSTD_MAGIC);
    data
}

#[test]
fn test_read_metadata_from_packed_file() {
    let expected = create_test_metadata();
    let data = packed(expected.clone(), None);

    let (read, _) = read_header(&data, IgnoreUnknown::default()).unwrap();
    assert_eq!(read.name, expected.name);
    assert_eq!(read.auth, expected.auth);
    assert_eq!(read.fmt, expected.fmt);
    assert_eq!(read.ed, expected.ed);
    assert_eq!(read.ver, expected.ver);
    assert_eq!(read.desc, expected.desc);
}

#[test]
fn test_pack_with_extra_json_file() {
    let extra_content = r#"{
        "custom_field": "custom_value",
        "numbers": [1, 2, 3],
        "nested": {"a": 1, "b": 2}
    }"#;
    let data = packed(Metadata::default(), Some(extra_content));

    let (read, _) = read_header(&data, IgnoreUnknown::default()).unwrap();
    assert_eq!(read.extra["custom_field"], "custom_value");
    assert_eq!(read.extra["numbers"][0], 1);
    assert_eq!(read.extra["nested"]["a"], 1);
}

#[test]
fn test_error_invalid_pjz_file() {
    let result = read_header(&[0u8, 1, 2], IgnoreUnknown::default());
    assert!(result.is_err());
}

#[test]
fn test_metadata_with_unicode() {
    let metadata = Metadata::new(
        "项目名称",
        "作者名 🚀",
        "フォーマット",
        "版本2024",
        "1.0.0-β",
        "Description with émojis 🎉 and spëcial çharacters",
    );
    let data = packed(metadata.clone(), None);

    let (read, _) = read_header(&data, IgnoreUnknown::default()).unwrap();
    assert_eq!(read.name, metadata.name);
    assert_eq!(read.auth, metadata.auth);
    assert_eq!(read.desc, metadata.desc);
}
