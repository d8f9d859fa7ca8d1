use serde_json::Value;
use streaming_qr::{validate_data, DataReport};

fn expected_object(size: u64, is_utf8: bool, lines: u64, words: u64, is_empty: bool) -> Value {
    let mut object = serde_json::Map::new();
    object.insert(String::from("size"), Value::from(size));
    object.insert(String::from("is_utf8"), Value::from(is_utf8));
    object.insert(String::from("line_count"), Value::from(lines));
    object.insert(String::from("word_count"), Value::from(words));
    object.insert(String::from("is_empty"), Value::from(is_empty));
    Value::Object(object)
}

#[test]
fn to_json_has_the_five_members() {
    let object = validate_data("hello world").to_json();
    assert_eq!(object.len(), 5);
    assert_eq!(object.get("size"), Some(&Value::from(11u64)));
    assert_eq!(object.get("is_utf8"), Some(&Value::Bool(true)));
    assert_eq!(object.get("line_count"), Some(&Value::from(1u64)));
    assert_eq!(object.get("word_count"), Some(&Value::from(2u64)));
    assert_eq!(object.get("is_empty"), Some(&Value::Bool(false)));
}

#[test]
fn to_json_of_the_empty_text() {
    let object = validate_data("").to_json();
    assert_eq!(Value::Object(object), expected_object(0, true, 0, 0, true));
}

#[test]
fn to_json_keeps_each_statistic_apart() {
    let report =
        DataReport { size: 1, is_utf8: false, line_count: 2, word_count: 3, is_empty: true };
    let object = report.to_json();
    assert_eq!(Value::Object(object.clone()), expected_object(1, false, 2, 3, true));
    assert_eq!(object.get("size").and_then(Value::as_u64), Some(1));
    assert_eq!(object.get("line_count").and_then(Value::as_u64), Some(2));
    assert_eq!(object.get("word_count").and_then(Value::as_u64), Some(3));
    assert_eq!(object.get("is_utf8").and_then(Value::as_bool), Some(false));
    assert_eq!(object.get("is_empty").and_then(Value::as_bool), Some(true));
}

#[test]
fn to_json_is_written_as_one_object() {
    let text = serde_json::to_string(&Value::Object(validate_data("a\nb\nc").to_json())).unwrap();
    assert_eq!(
        text,
        "{\"is_empty\":false,\"is_utf8\":true,\"line_count\":3,\"size\":5,\"word_count\":3}"
    );
}

#[test]
fn to_json_holds_the_largest_count() {
    let report = DataReport {
        size: usize::MAX,
        is_utf8: true,
        line_count: usize::MAX,
        word_count: 0,
        is_empty: false,
    };
    let object = report.to_json();
    assert_eq!(object.get("size").and_then(Value::as_u64), Some(usize::MAX as u64));
    assert_eq!(object.get("line_count").and_then(Value::as_u64), Some(usize::MAX as u64));
}
