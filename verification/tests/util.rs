use amiwo::{ContainsKeys, JsonValue};

#[test]
fn contains_keys() {
    let obj = JsonValue::parse(r#"{"a": 1, "b": 2}"#).unwrap();
    assert_eq!(obj.contains_keys(&["a", "b"]), true);
    assert_eq!(obj.contains_keys(&["a", "b", "c"]), false);
}

#[test]
fn contains_keys_non_object() {
    let arr = JsonValue::parse("[1, 2]").unwrap();
    assert_eq!(arr.contains_keys(&[]), false);
}
