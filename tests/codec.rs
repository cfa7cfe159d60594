use solokv::formats::{binary, json};
use solokv::util::file::{load, save};
use solokv::{DatabaseError, StorageFormat};
use std::collections::HashMap;

fn pair(k: &str, v: &str) -> (String, String) {
    (k.to_string(), v.to_string())
}

fn as_map(entries: Vec<(String, String)>) -> HashMap<String, String> {
    entries.into_iter().collect()
}

#[test]
fn test_serialize() {
    let data = vec![pair("key1", "value1"), pair("key2", "value2")];
    let bytes = json::serialize(&data).expect("Failed to serialize data");
    let contents = String::from_utf8(bytes).unwrap();
    assert!(contents.contains("\"key1\":\"value1\""));
    assert!(contents.contains("\"key2\":\"value2\""));
}

#[test]
fn test_deserialize() {
    let data = json::deserialize(b"{\"key1\":\"value1\",\"key2\":\"value2\"}")
        .expect("Failed to deserialize data");
    let data = as_map(data);
    assert_eq!(data.get("key1"), Some(&"value1".to_string()));
    assert_eq!(data.get("key2"), Some(&"value2".to_string()));
}

#[test]
fn file_test_save_json_format() {
    let data = vec![pair("key1", "value1"), pair("key2", "value2")];
    let save_result = save(StorageFormat::Json, &data);
    assert!(save_result.is_ok(), "Failed to save data: {:?}", save_result);
    let contents = String::from_utf8(save_result.unwrap()).unwrap();
    assert!(
        contents.contains("\"key1\":\"value1\"") && contents.contains("\"key2\":\"value2\"")
    );
}

#[test]
fn file_test_load_json_format() {
    let mut expected_data = HashMap::new();
    expected_data.insert("key1".to_string(), "value1".to_string());
    expected_data.insert("key2".to_string(), "value2".to_string());
    let json_content = format!("{}\n", serde_json::to_string(&expected_data).unwrap());
    let load_result = load(StorageFormat::Json, Some(json_content.as_bytes()));
    assert!(load_result.is_ok(), "Failed to load data: {:?}", load_result);
    assert_eq!(
        as_map(load_result.unwrap()),
        expected_data,
        "Loaded data does not match expected data"
    );
}

#[test]
fn serialize_exact_text_in_given_order() {
    let data = vec![pair("b", "2"), pair("a", "1")];
    let bytes = json::serialize(&data).unwrap();
    assert_eq!(bytes, b"{\"b\":\"2\",\"a\":\"1\"}".to_vec());
    assert_eq!(json::serialize(&Vec::new()).unwrap(), b"{}".to_vec());
}

#[test]
fn serialize_escapes_strings() {
    let data = vec![pair("q\"uote", "line\nbreak")];
    let bytes = json::serialize(&data).unwrap();
    assert_eq!(bytes, b"{\"q\\\"uote\":\"line\\nbreak\"}".to_vec());
}

#[test]
fn deserialize_orders_by_key() {
    let data = json::deserialize(b"{\"z\":\"26\",\"a\":\"1\"}").unwrap();
    assert_eq!(data, vec![pair("a", "1"), pair("z", "26")]);
}

#[test]
fn round_trip_preserves_mapping() {
    let cases = vec![
        vec![],
        vec![pair("key1", "value1"), pair("key2", "value2")],
        vec![pair("", ""), pair("ünïcödé", "日本"), pair("esc\"\\\n\t", "\u{1}\u{7f}")],
    ];
    for data in cases {
        let bytes = json::serialize(&data).unwrap();
        let back = json::deserialize(&bytes).unwrap();
        assert_eq!(as_map(back), as_map(data));
    }
}

#[test]
fn deserialize_empty_input_is_empty() {
    assert_eq!(json::deserialize(b"").unwrap(), Vec::new());
    assert_eq!(load(StorageFormat::Json, Some(b"")).unwrap(), Vec::new());
}

#[test]
fn deserialize_malformed_is_serde_error() {
    assert_eq!(json::deserialize(b"not json"), Err(DatabaseError::SerdeError));
    assert_eq!(json::deserialize(b"{\"a\":\"b\"} trailing"), Err(DatabaseError::SerdeError));
    assert_eq!(json::deserialize(b"{\"a\":true}"), Err(DatabaseError::SerdeError));
}

#[test]
fn load_missing_file_is_empty_in_any_format() {
    assert_eq!(load(StorageFormat::Json, None).unwrap(), Vec::new());
    assert_eq!(load(StorageFormat::Binary, None).unwrap(), Vec::new());
}

#[test]
fn binary_codec_is_unsupported() {
    let data = vec![pair("k", "v")];
    assert!(matches!(binary::serialize(&data), Err(DatabaseError::InvalidFormatError(_))));
    assert!(matches!(binary::deserialize(b""), Err(DatabaseError::InvalidFormatError(_))));
    assert!(matches!(
        save(StorageFormat::Binary, &data),
        Err(DatabaseError::InvalidFormatError(_))
    ));
    assert!(matches!(
        load(StorageFormat::Binary, Some(b"{}")),
        Err(DatabaseError::InvalidFormatError(_))
    ));
}
