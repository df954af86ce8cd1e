use amiwo::{FormHashMap, FormResult, FormValues, JsonFormMap, JsonValue, OneOrMany};

#[test]
fn accumulator_yields_pushes_in_order() {
    let mut acc = FormValues::new();
    acc.push("v1".to_string());
    acc.push("v2".to_string());
    acc.push("v3".to_string());
    assert_eq!(
        acc.into_inner().unwrap().into_values(),
        vec!["v1".to_string(), "v2".to_string(), "v3".to_string()]
    );

    let mut one = FormValues::new();
    one.push(7);
    assert_eq!(one.get().unwrap().is_one(), true);
    assert_eq!(one.into_inner().unwrap().into_values(), vec![7]);
}

#[test]
fn test_new() {
    let form_string = "a=b1&a=b2&b=c";

    match FormHashMap::new(form_string.to_string()) {
        FormResult::Parsed(map) => {
            assert_eq!(
                map.get("a"),
                Some(&OneOrMany::Many(vec!["b1".to_string(), "b2".to_string()]))
            );
            assert_eq!(map.get("b"), Some(&OneOrMany::One("c".to_string())));
        },
        FormResult::Invalid(invalid_string) => {
            panic!("Unable to parse {}", invalid_string);
        },
    }
}

#[test]
fn form_keeps_raw_string() {
    match FormHashMap::new("a=b1&a=b2&b=c".to_string()) {
        FormResult::Parsed(map) => {
            assert_eq!(map.raw_form_string(), "a=b1&a=b2&b=c");
            assert_eq!(map.get("missing"), None);
        },
        FormResult::Invalid(s) => panic!("Unable to parse {}", s),
    }
}

#[test]
fn form_value_with_dot() {
    match FormHashMap::new("v=4.7.0".to_string()) {
        FormResult::Parsed(map) => {
            assert_eq!(map.get("v"), Some(&OneOrMany::One("4.7.0".to_string())));
        },
        FormResult::Invalid(s) => panic!("Unable to parse {}", s),
    }
}

#[test]
fn form_percent_decoding() {
    match FormHashMap::new("greeting=hello%20world&name=caf%C3%A9".to_string()) {
        FormResult::Parsed(map) => {
            assert_eq!(
                map.get("greeting"),
                Some(&OneOrMany::One("hello world".to_string()))
            );
            assert_eq!(map.get("name"), Some(&OneOrMany::One("caf\u{e9}".to_string())));
        },
        FormResult::Invalid(s) => panic!("Unable to parse {}", s),
    }
}

#[test]
fn form_bad_escape_is_rejected_with_raw_string() {
    match FormHashMap::new("a=b&broken=%zz".to_string()) {
        FormResult::Parsed(_) => panic!("malformed escape was accepted"),
        FormResult::Invalid(s) => {
            assert_eq!(s, "a=b&broken=%zz");
        },
    }
}

#[test]
fn form_non_utf8_escape_is_rejected_with_raw_string() {
    match FormHashMap::new("v=%FF".to_string()) {
        FormResult::Parsed(_) => panic!("non-UTF-8 value was accepted"),
        FormResult::Invalid(s) => {
            assert_eq!(s, "v=%FF");
        },
    }
}

#[test]
fn form_stops_at_piece_without_equals() {
    match FormHashMap::new("a=1&junk&b=2".to_string()) {
        FormResult::Parsed(map) => {
            assert_eq!(map.get("a"), Some(&OneOrMany::One("1".to_string())));
            assert_eq!(map.get("b"), None);
        },
        FormResult::Invalid(s) => panic!("Unable to parse {}", s),
    }
}

#[test]
fn json_form_map_object() {
    let map = JsonFormMap::from_json_data(
        r#"{"key": "value", "array": [1, 2, 3]}"#.to_string(),
    )
    .unwrap();
    assert_eq!(map.get("key"), Some(&JsonValue::Str("value".to_string())));
    assert_eq!(
        map.get("array"),
        Some(&JsonValue::Arr(vec![
            JsonValue::UInt(1),
            JsonValue::UInt(2),
            JsonValue::UInt(3),
        ]))
    );
    assert_eq!(map.raw_form_string(), r#"{"key": "value", "array": [1, 2, 3]}"#);
}

#[test]
fn json_form_map_rejects_non_object() {
    let err = JsonFormMap::from_json_data("[1, 2, 3]".to_string()).unwrap_err();
    assert_eq!(err.description(), "Invalid JSON data: [1, 2, 3]");
}

#[test]
fn json_form_map_rejects_bad_json() {
    let err = JsonFormMap::from_json_data("{not json".to_string()).unwrap_err();
    match err.cause() {
        Some(cause) => assert!(matches!(cause, amiwo::GenericError::Serde(_))),
        None => panic!("parse failure should carry its cause"),
    }
}

#[test]
fn body_size_limits() {
    assert_eq!(amiwo::body_size_limit(false, None), 32768);
    assert_eq!(amiwo::body_size_limit(true, None), 1048576);
    assert_eq!(amiwo::body_size_limit(false, Some(1000)), 1000);
    assert_eq!(amiwo::body_size_limit(true, Some(42)), 42);
    assert_eq!(amiwo::body_size_limit(false, Some(-1)), 32768);
    assert_eq!(amiwo::body_size_limit(true, Some(-1)), 1048576);
}
