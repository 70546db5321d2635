use projzst::container::{encode_header, pack_header, read_header};
use projzst::decode::{decode_metadata, decode_value, is_known_key, partition_fields, record_from_value};
use projzst::frame::{frame_metadata, METADATA_FRAME_MAGIC};
use projzst::{IgnoreUnknown, Metadata, MetadataField, ProjzstError};
use serde_json::Value;

type JsonMap = serde_json::Map<String, Value>;

const ZSTD_MAGIC: [u8; 4] = [0x28, 0xB5, 0x2F, 0xFD];

fn object(entries: Vec<(&str, Value)>) -> Value {
    let mut m = JsonMap::new();
    for (k, v) in entries {
        m.insert(k.to_string(), v);
    }
    Value::Object(m)
}

fn container(blob: &[u8]) -> Vec<u8> {
    let mut data = frame_metadata(blob).unwrap();
    data.extend_from_slice(&ZSTD_MAGIC);
    data
}

fn bogus_blob() -> Vec<u8> {
    rmp_serde::to_vec(&object(vec![("name", Value::from("x")), ("bogus", Value::from(1))])).unwrap()
}

#[test]
fn unknown_field_dropped_silently() {
    let (m, _) = read_header(&container(&bogus_blob()), IgnoreUnknown::On).unwrap();
    assert_eq!(m.name.as_deref(), Some("x"));
    assert_eq!(m.extra, Value::Object(JsonMap::new()));
}

#[test]
fn unknown_field_rejected_strictly() {
    match read_header(&container(&bogus_blob()), IgnoreUnknown::Off) {
        Err(ProjzstError::UnknownFields(list)) => assert_eq!(list, vec!["bogus".to_string()]),
        other => panic!("unexpected: {:?}", other),
    }
}

#[test]
fn strict_policy_lists_every_unknown_field() {
    let blob = rmp_serde::to_vec(&object(vec![
        ("name", Value::from("x")),
        ("zeta", Value::from(1)),
        ("alpha", Value::from(2)),
    ]))
    .unwrap();
    match decode_metadata(&blob, IgnoreUnknown::Off) {
        Err(ProjzstError::UnknownFields(mut list)) => {
            list.sort();
            assert_eq!(list, vec!["alpha".to_string(), "zeta".to_string()]);
        },
        other => panic!("unexpected: {:?}", other),
    }
}

#[test]
fn unknown_field_exported_to_extra() {
    let (m, start) = read_header(&container(&bogus_blob()), IgnoreUnknown::Export).unwrap();
    assert_eq!(m.name.as_deref(), Some("x"));
    assert_eq!(m.extra["ignored"]["bogus"], 1);
    assert_eq!(start, 8 + bogus_blob().len());
}

#[test]
fn export_merges_into_given_extra() {
    let blob = rmp_serde::to_vec(&object(vec![
        ("extra", object(vec![("ignored", Value::from("scalar")), ("k", Value::from(2))])),
        ("foo", Value::from(1)),
    ]))
    .unwrap();
    let m = decode_metadata(&blob, IgnoreUnknown::Export).unwrap();
    assert_eq!(
        m.extra,
        object(vec![("ignored", object(vec![("foo", Value::from(1))])), ("k", Value::from(2))])
    );
}

#[test]
fn header_round_trip_keeps_record() {
    let m = Metadata::new("proj", "me", "fmt", "ed", "1.0.0", "desc")
        .with_extra(object(vec![("n", Value::from(vec![1, 2, 3])), ("neg", Value::from(-4))]));
    let header = encode_header(&m).unwrap();
    let mut data = header.clone();
    data.extend_from_slice(&ZSTD_MAGIC);
    for policy in [IgnoreUnknown::On, IgnoreUnknown::Off, IgnoreUnknown::Export] {
        let (read, start) = read_header(&data, policy).unwrap();
        assert_eq!(read, m);
        assert_eq!(start, header.len());
    }
}

#[test]
fn header_is_one_block_with_array_encoding() {
    let m = Metadata::default();
    let header = encode_header(&m).unwrap();
    assert_eq!(&header[..4], &METADATA_FRAME_MAGIC.to_le_bytes());
    let expected = rmp_serde::to_vec(&(
        None::<String>,
        None::<String>,
        None::<String>,
        None::<String>,
        None::<String>,
        None::<String>,
        Value::Object(JsonMap::new()),
    ))
    .unwrap();
    assert_eq!(&header[8..], &expected[..]);
    assert_eq!(&header[4..8], &(expected.len() as u32).to_le_bytes());
}

#[test]
fn split_record_reads_as_single_block() {
    let m = Metadata::new("proj", None::<String>, None::<String>, None::<String>, "2", None::<String>);
    let header = encode_header(&m).unwrap();
    let blob = &header[8..];
    let mut two = Vec::new();
    for part in [&blob[..3], &blob[3..]] {
        two.extend_from_slice(&METADATA_FRAME_MAGIC.to_le_bytes());
        two.extend_from_slice(&(part.len() as u32).to_le_bytes());
        two.extend_from_slice(part);
    }
    two.extend_from_slice(&ZSTD_MAGIC);
    let (a, _) = read_header(&two, IgnoreUnknown::Off).unwrap();
    let (b, _) = read_header(&container(blob), IgnoreUnknown::Off).unwrap();
    assert_eq!(a, b);
    assert_eq!(a, m);
}

#[test]
fn pack_header_takes_extra_from_json_text() {
    let header = pack_header(Metadata::default(), Some(r#"{"a": [1, 2], "b": {"c": "d"}}"#)).unwrap();
    let (m, _) = read_header(&header, IgnoreUnknown::Off).unwrap();
    assert_eq!(m.extra["a"][1], 2);
    assert_eq!(m.extra["b"]["c"], "d");
}

#[test]
fn pack_header_rejects_malformed_json() {
    assert!(matches!(
        pack_header(Metadata::default(), Some("{not json")),
        Err(ProjzstError::Json(_))
    ));
}

#[test]
fn missing_extra_decodes_as_empty_object() {
    let blob = rmp_serde::to_vec(&object(vec![("ver", Value::from("3"))])).unwrap();
    let m = decode_metadata(&blob, IgnoreUnknown::Off).unwrap();
    assert_eq!(m.ver.as_deref(), Some("3"));
    assert_eq!(m.name, None);
    assert_eq!(m.extra, Value::Object(JsonMap::new()));
}

#[test]
fn null_identity_field_is_absent() {
    let blob = rmp_serde::to_vec(&object(vec![("name", Value::Null)])).unwrap();
    let m = decode_metadata(&blob, IgnoreUnknown::On).unwrap();
    assert_eq!(m.name, None);
}

#[test]
fn wrongly_typed_field_is_named() {
    let blob = rmp_serde::to_vec(&object(vec![("auth", Value::from(5)), ("ver", Value::from(true))])).unwrap();
    assert!(matches!(
        decode_metadata(&blob, IgnoreUnknown::On),
        Err(ProjzstError::InvalidField(MetadataField::Auth))
    ));
}

#[test]
fn short_array_record_defaults_missing_fields() {
    let blob = rmp_serde::to_vec(&(Some("n"), None::<String>, Some("f"))).unwrap();
    let m = decode_metadata(&blob, IgnoreUnknown::Export).unwrap();
    assert_eq!(m.name.as_deref(), Some("n"));
    assert_eq!(m.auth, None);
    assert_eq!(m.fmt.as_deref(), Some("f"));
    assert_eq!(m.desc, None);
    assert_eq!(m.extra, Value::Object(JsonMap::new()));
}

#[test]
fn long_array_is_not_a_record() {
    let blob = rmp_serde::to_vec(&vec![Value::Null; 8]).unwrap();
    assert!(matches!(decode_metadata(&blob, IgnoreUnknown::On), Err(ProjzstError::NotARecord)));
}

#[test]
fn scalar_is_not_a_record() {
    let blob = rmp_serde::to_vec(&5u8).unwrap();
    for policy in [IgnoreUnknown::On, IgnoreUnknown::Off, IgnoreUnknown::Export] {
        assert!(matches!(decode_metadata(&blob, policy), Err(ProjzstError::NotARecord)));
    }
}

#[test]
fn undecodable_bytes_fail_as_msgpack() {
    assert!(matches!(decode_metadata(&[0xc1], IgnoreUnknown::On), Err(ProjzstError::MsgPackDecode(_))));
    assert!(matches!(
        read_header(&container(&[0x92, 0x01]), IgnoreUnknown::On),
        Err(ProjzstError::MsgPackDecode(_))
    ));
}

#[test]
fn value_level_decoding() {
    let v = object(vec![("name", Value::from("v")), ("other", Value::from(0))]);
    let m = record_from_value(v.clone()).unwrap();
    assert_eq!(m.name.as_deref(), Some("v"));
    let m = decode_value(v, IgnoreUnknown::Export).unwrap();
    assert_eq!(m.extra["ignored"]["other"], 0);
}

#[test]
fn known_keys_and_partition() {
    for k in ["name", "auth", "fmt", "ed", "ver", "desc", "extra"] {
        assert!(is_known_key(k));
    }
    assert!(!is_known_key("ignored"));
    assert!(!is_known_key("Name"));
    let mut m = JsonMap::new();
    m.insert("name".to_string(), Value::from("a"));
    m.insert("x".to_string(), Value::from(1));
    let (known, unknown) = partition_fields(m);
    assert_eq!(known.len(), 1);
    assert_eq!(known["name"], "a");
    assert_eq!(unknown.len(), 1);
    assert_eq!(unknown["x"], 1);
}
