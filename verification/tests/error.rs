#![allow(non_snake_case)]

use amiwo::GenericError;

#[test]
fn GenericError_test_compound() {
    let err = GenericError::new_compound(
        "test description",
        GenericError::Basic("Test error".to_string()),
    );
    assert_eq!(err.description(), "test description caused by Test error");

    match err.cause() {
        Some(err) => {
            assert_eq!(err.description(), "Test error");
            assert!(err.cause().is_none());
        },
        _ => panic!("invalid cause"),
    }
}

#[test]
fn generic_error_description_tags() {
    assert_eq!(
        GenericError::Basic("plain".to_string()).description(),
        "plain"
    );
    assert_eq!(
        GenericError::Hyper("transport down".to_string()).description(),
        "transport down"
    );
    assert_eq!(
        GenericError::Io("broken pipe".to_string()).description(),
        "broken pipe"
    );
    assert_eq!(
        GenericError::Rocket("ignition".to_string()).description(),
        "Rocket Error - not implementing Error yet"
    );
    assert!(GenericError::Basic("plain".to_string()).cause().is_none());
}

#[test]
fn serde_cause_is_exposed() {
    let err = amiwo::ResponseJSON::from_str("{not json").unwrap_err();
    assert!(err.serde_cause().is_some());
    assert!(GenericError::Basic("plain".to_string()).serde_cause().is_none());
}

#[test]
fn compound_description_joins_cause_text() {
    let cause = GenericError::Basic("Test error".to_string());
    let err = GenericError::new_compound("outer", cause);
    assert_eq!(err.description(), "outer caused by Test error");

    let parse_failure = serde_json::from_str::<serde_json::Value>("{bad").unwrap_err();
    let expected_tail = parse_failure.to_string();
    let err = GenericError::new_compound("outer", GenericError::Serde(parse_failure));
    assert_eq!(err.description(), format!("outer caused by {}", expected_tail));
}

#[test]
fn generic_error_from_conversions() {
    let err = GenericError::from("oops".to_string());
    assert!(matches!(err, GenericError::Basic(_)));
    assert_eq!(err.description(), "oops");

    let parse_failure = serde_json::from_str::<serde_json::Value>("{bad").unwrap_err();
    let err = GenericError::from(parse_failure);
    assert!(matches!(err, GenericError::Serde(_)));
}
