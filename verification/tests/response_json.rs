#![allow(non_snake_case)]

use amiwo::{GenericError, IsResponseJSON, JsonValue, ResponseJSON};

#[test]
fn ResponseJSON_test_IsResponseJSON_implem() {
    let json = r#"{
        "success": false,
        "http_code": 500,
        "resource": "some resource requested",
        "method": "GET",
        "message": "error message"
    }"#;
    assert_eq!(json.is_valid_json(), true);
    assert_eq!(json.is_ok_json(), false);
    assert_eq!(json.is_error_json(), true);

    let json = r#"{
        "success": true,
        "http_code": 200,
        "resource": "some resource requested",
        "method": "GET",
        "message": "error message"
    }"#;
    assert_eq!(json.is_valid_json(), true);
    assert_eq!(json.is_error_json(), false);
    assert_eq!(json.is_ok_json(), false);

    let json = r#"{
        "http_code": 200,
        "resource": "some resource requested",
        "method": "GET",
        "message": "error message"
    }"#;
    assert_eq!(json.is_valid_json(), false);
    assert_eq!(json.is_error_json(), false);
    assert_eq!(json.is_ok_json(), false);

    let json = r#"{
        "success": true,
        "resource": "some resource requested",
        "method": "GET",
        "message": "error message"
    }"#;
    assert_eq!(json.is_valid_json(), false);
    assert_eq!(json.is_error_json(), false);
    assert_eq!(json.is_ok_json(), false);
}

#[test]
fn ResponseJSON_test_builder_ok() {
    let json: ResponseJSON = ResponseJSON::ok();
    assert_eq!(json.success, true);
    assert_eq!(json.http_code, 200);
    assert!(json.data.is_null());
    assert_eq!(json.message, None);
    assert_eq!(json.method, None);
    assert_eq!(json.resource, None);

    let json: ResponseJSON = ResponseJSON::ok()
        .http_code(201)
        .data(JsonValue::Str("Some data".to_string()))
        .method("GET".to_string())
        .resource("some path".to_string())
        .message("error message".to_string());
    assert_eq!(json.http_code, 201);
    assert_eq!(json.data.as_str(), Some("Some data"));
    assert_eq!(json.message, None);
    assert_eq!(json.method, None);
    assert_eq!(json.resource, None);

    assert_eq!(json.is_valid_json(), true);
    assert_eq!(json.is_ok_json(), true);
    assert_eq!(json.is_error_json(), false);
}

#[test]
fn ResponseJSON_test_builder_error() {
    let json: ResponseJSON = ResponseJSON::error();
    assert_eq!(json.success, false);
    assert_eq!(json.http_code, 500);
    assert!(json.data.is_null());
    assert_eq!(json.message, Some("Unexpected error".to_string()));
    assert_eq!(json.method, None);
    assert_eq!(json.resource, None);

    let json: ResponseJSON = ResponseJSON::error()
        .http_code(401)
        .data(JsonValue::Str("Some data".to_string()))
        .method("GET".to_string())
        .resource("some path".to_string())
        .message("error message".to_string());
    assert_eq!(json.http_code, 401);
    assert_eq!(json.data.as_str(), Some("Some data"));
    assert_eq!(json.message, Some("error message".to_string()));
    assert_eq!(json.method, Some("GET".to_string()));
    assert_eq!(json.resource, Some("some path".to_string()));

    assert_eq!(json.is_valid_json(), true);
    assert_eq!(json.is_ok_json(), false);
    assert_eq!(json.is_error_json(), true);
}

#[test]
fn ResponseJSON_test_from_str() {
    // Plain object that is no envelope
    let json = ResponseJSON::from_str(
        r#"{
        "test1": "value1",
        "test2": "value2",
        "test3": [ 1, 2, 3 ]
    }"#,
    )
    .unwrap();
    assert_eq!(json.is_valid_json(), true);
    assert_eq!(json.is_ok_json(), true);
    assert_eq!(json.is_error_json(), false);
    assert_eq!(
        json.data.get("test2"),
        Some(&JsonValue::Str("value2".to_string()))
    );

    // success envelope without data
    let json = ResponseJSON::from_str(
        r#"{
        "success": true,
        "http_code": 204
    }"#,
    )
    .unwrap();
    assert_eq!(json.is_valid_json(), true);
    assert_eq!(json.is_ok_json(), true);
    assert_eq!(json.is_error_json(), false);
    assert_eq!(json.http_code, 204);
    assert_eq!(json.method.is_none(), true);
    assert_eq!(json.resource.is_none(), true);
    assert_eq!(json.message.is_none(), true);
    assert_eq!(json.data.is_null(), true);

    // improper success envelope: everything moves into data
    let json = ResponseJSON::from_str(
        r#"{
        "success": true,
        "http_code": 201,
        "resource": "some resource requested",
        "method": "GET",
        "message": "error message"
    }"#,
    )
    .unwrap();
    assert_eq!(json.is_valid_json(), true);
    assert_eq!(json.is_ok_json(), true);
    assert_eq!(json.is_error_json(), false);
    assert_eq!(json.http_code, 200);
    assert_eq!(json.method.is_none(), true);
    assert_eq!(json.resource.is_none(), true);
    assert_eq!(json.message.is_none(), true);
    assert_eq!(json.data.get("http_code"), Some(&JsonValue::UInt(201)));

    // success envelope with data
    let json = ResponseJSON::from_str(
        r#"{
        "success": true,
        "http_code": 202,
        "data": {
            "test1": "value1",
            "test2": "value2",
            "test3": [ 1, 2, 3 ]
        }
    }"#,
    )
    .unwrap();
    assert_eq!(json.is_valid_json(), true);
    assert_eq!(json.is_ok_json(), true);
    assert_eq!(json.is_error_json(), false);
    assert_eq!(json.http_code, 202);
    assert_eq!(
        json.data.get("test2"),
        Some(&JsonValue::Str("value2".to_string()))
    );

    // error envelope without data
    let json = ResponseJSON::from_str(
        r#"{
        "success": false,
        "http_code": 501,
        "resource": "some resource requested",
        "method": "GET",
        "message": "error message"
    }"#,
    )
    .unwrap();
    assert_eq!(json.is_valid_json(), true);
    assert_eq!(json.is_ok_json(), false);
    assert_eq!(json.is_error_json(), true);
    assert_eq!(json.http_code, 501);
    assert_eq!(json.resource.unwrap(), "some resource requested".to_string());

    // error envelope with data
    let json = ResponseJSON::from_str(
        r#"{
        "success": false,
        "http_code": 502,
        "data": {
            "test1": "value1",
            "test2": "value2",
            "test3": [ 1, 2, 3 ]
        },
        "resource": "some resource requested",
        "method": "GET",
        "message": "error message"
    }"#,
    )
    .unwrap();
    assert_eq!(
        json.data.get("test2"),
        Some(&JsonValue::Str("value2".to_string()))
    );

    assert_eq!(json.is_valid_json(), true);
    assert_eq!(json.is_ok_json(), false);
    assert_eq!(json.is_error_json(), true);
    assert_eq!(json.http_code, 502);
    assert_eq!(json.resource.unwrap(), "some resource requested".to_string());
    assert_eq!(
        json.data.get("test1"),
        Some(&JsonValue::Str("value1".to_string()))
    );
}

#[test]
fn ResponseJSON_test_from_serde_json() {
    // Plain object that is no envelope
    let json = JsonValue::parse(
        r#"{
        "test1": "value1",
        "test2": "value2",
        "test3": [ 1, 2, 3 ]
    }"#,
    )
    .unwrap();
    let rjson = ResponseJSON::from_serde_value(json);
    assert_eq!(rjson.is_valid_json(), true);
    assert_eq!(rjson.is_ok_json(), true);
    assert_eq!(rjson.is_error_json(), false);
    assert_eq!(
        rjson.data.get("test2"),
        Some(&JsonValue::Str("value2".to_string()))
    );

    // success envelope without data
    let json = JsonValue::parse(
        r#"{
        "success": true,
        "http_code": 204
    }"#,
    )
    .unwrap();
    let rjson = ResponseJSON::from_serde_value(json);
    assert_eq!(rjson.is_valid_json(), true);
    assert_eq!(rjson.is_ok_json(), true);
    assert_eq!(rjson.is_error_json(), false);
    assert_eq!(rjson.http_code, 204);
    assert_eq!(rjson.method.is_none(), true);
    assert_eq!(rjson.resource.is_none(), true);
    assert_eq!(rjson.message.is_none(), true);
    assert_eq!(rjson.data.is_null(), true);

    // improper success envelope: everything moves into data
    let json = JsonValue::parse(
        r#"{
        "success": true,
        "http_code": 201,
        "resource": "some resource requested",
        "method": "GET",
        "message": "error message"
    }"#,
    )
    .unwrap();
    let rjson = ResponseJSON::from_serde_value(json);
    assert_eq!(rjson.is_valid_json(), true);
    assert_eq!(rjson.is_ok_json(), true);
    assert_eq!(rjson.is_error_json(), false);
    assert_eq!(rjson.http_code, 200);
    assert_eq!(rjson.method.is_none(), true);
    assert_eq!(rjson.resource.is_none(), true);
    assert_eq!(rjson.message.is_none(), true);
    assert_eq!(rjson.data.get("http_code"), Some(&JsonValue::UInt(201)));

    // success envelope with data
    let json = JsonValue::parse(
        r#"{
        "success": true,
        "http_code": 202,
        "data": {
            "test1": "value1",
            "test2": "value2",
            "test3": [ 1, 2, 3 ]
        }
    }"#,
    )
    .unwrap();
    let rjson = ResponseJSON::from_serde_value(json);
    assert_eq!(rjson.is_valid_json(), true);
    assert_eq!(rjson.is_ok_json(), true);
    assert_eq!(rjson.is_error_json(), false);
    assert_eq!(rjson.http_code, 202);
    assert_eq!(
        rjson.data.get("test2"),
        Some(&JsonValue::Str("value2".to_string()))
    );

    // error envelope without data
    let json = JsonValue::parse(
        r#"{
        "success": false,
        "http_code": 501,
        "resource": "some resource requested",
        "method": "GET",
        "message": "error message"
    }"#,
    )
    .unwrap();
    let rjson = ResponseJSON::from_serde_value(json);
    assert_eq!(rjson.is_valid_json(), true);
    assert_eq!(rjson.is_ok_json(), false);
    assert_eq!(rjson.is_error_json(), true);
    assert_eq!(rjson.http_code, 501);
    assert_eq!(rjson.resource.unwrap(), "some resource requested".to_string());

    // error envelope with data
    let json = JsonValue::parse(
        r#"{
        "success": false,
        "http_code": 502,
        "data": {
            "test1": "value1",
            "test2": "value2",
            "test3": [ 1, 2, 3 ]
        },
        "resource": "some resource requested",
        "method": "GET",
        "message": "error message"
    }"#,
    )
    .unwrap();
    assert_eq!(
        json.get("data").unwrap().get("test2"),
        Some(&JsonValue::Str("value2".to_string()))
    );

    let rjson = ResponseJSON::from_serde_value(json);
    assert_eq!(rjson.is_valid_json(), true);
    assert_eq!(rjson.is_ok_json(), false);
    assert_eq!(rjson.is_error_json(), true);
    assert_eq!(rjson.http_code, 502);
    assert_eq!(rjson.resource.unwrap(), "some resource requested".to_string());
    assert_eq!(
        rjson.data.get("test1"),
        Some(&JsonValue::Str("value1".to_string()))
    );
}

#[test]
fn ResponseJSON_test_into_string() {
    let json = ResponseJSON::ok()
        .http_code(201)
        .data(JsonValue::Str("Some data".to_string()));

    let string = json.into_string();
    let test_json = JsonValue::parse(&string).unwrap();
    let ref_json = JsonValue::parse(
        r#"{
        "success": true,
        "http_code": 201,
        "data": "Some data"
    }"#,
    )
    .unwrap();
    assert_eq!(ref_json, test_json);
}

#[test]
fn ResponseJSON_test_to_string() {
    let json = ResponseJSON::ok()
        .http_code(201)
        .data(JsonValue::Str("Some data".to_string()));

    let ref_json: serde_json::Value =
        serde_json::from_str(r#"{"success": true, "http_code": 201, "data": "Some data"}"#)
            .unwrap();
    assert_eq!(json.to_string(), ref_json.to_string());
    assert_eq!(json.is_ok_json(), true); // ensure the value was not moved
}

#[test]
fn ResponseJSON_test_eq() {
    let json = ResponseJSON::ok()
        .http_code(201)
        .data(JsonValue::Str("Some data".to_string()));

    let ref_json: serde_json::Value =
        serde_json::from_str(r#"{"success": true, "http_code": 201, "data": "Some data"}"#)
            .unwrap();
    assert_eq!(json.to_string(), ref_json.to_string());
    assert_eq!(json, json);

    let string = ref_json.to_string();
    assert_eq!(json.to_string(), string);
}

#[test]
fn round_trip_ok_envelope() {
    let e = ResponseJSON::ok()
        .http_code(204)
        .data(JsonValue::Arr(vec![JsonValue::UInt(1), JsonValue::Bool(false)]));
    let back = ResponseJSON::from_serde_value(e.to_json_value());
    assert_eq!(back, e);
}

#[test]
fn round_trip_error_envelope() {
    let e = ResponseJSON::error()
        .http_code(501)
        .data(JsonValue::Str("detail".to_string()))
        .message("M".to_string())
        .resource("R".to_string())
        .method("GET".to_string());
    let back = ResponseJSON::from_serde_value(e.to_json_value());
    assert_eq!(back, e);
}

#[test]
fn serialization_omits_empty_fields() {
    let text = ResponseJSON::ok()
        .http_code(201)
        .data(JsonValue::Str("Some data".to_string()))
        .to_string();
    let parsed = JsonValue::parse(&text).unwrap();
    assert!(parsed.get("success").is_some());
    assert!(parsed.get("http_code").is_some());
    assert!(parsed.get("data").is_some());
    assert!(parsed.get("message").is_none());
    assert!(parsed.get("resource").is_none());
    assert!(parsed.get("method").is_none());

    let text = ResponseJSON::ok().to_string();
    assert_eq!(text, r#"{"http_code":200,"success":true}"#);
}

#[test]
fn wrapping_preserves_floats() {
    let json = ResponseJSON::from_str(r#"{"version": 4.7, "delta": -2}"#).unwrap();
    assert!(json.is_ok_json());
    assert_eq!(json.data.get("delta"), Some(&JsonValue::Int(-2)));
    let text = json.to_string();
    let back = ResponseJSON::from_str(&text).unwrap();
    assert_eq!(back.data.get("version"), json.data.get("version"));
}

#[test]
fn from_str_rejects_bad_json() {
    let err = ResponseJSON::from_str("{not json").unwrap_err();
    assert!(matches!(err, GenericError::Serde(_)));
}

#[test]
fn wrap_arbitrary_object() {
    let v = JsonValue::parse(r#"{"test1":"value1"}"#).unwrap();
    let r = ResponseJSON::from_serde_value(v);
    assert_eq!(r.success, true);
    assert_eq!(r.http_code, 200);
    assert_eq!(r.data, JsonValue::parse(r#"{"test1":"value1"}"#).unwrap());
    assert_eq!(r.message, None);
    assert_eq!(r.resource, None);
    assert_eq!(r.method, None);
}

#[test]
fn read_error_envelope_fields() {
    let v = JsonValue::parse(
        r#"{"success":false,"http_code":501,"resource":"R","method":"GET","message":"M"}"#,
    )
    .unwrap();
    let r = ResponseJSON::from_serde_value(v);
    assert_eq!(r.success, false);
    assert_eq!(r.http_code, 501);
    assert!(r.data.is_null());
    assert_eq!(r.message, Some("M".to_string()));
    assert_eq!(r.resource, Some("R".to_string()));
    assert_eq!(r.method, Some("GET".to_string()));
    assert!(r.is_error_json());
}

#[test]
fn oversized_http_code_is_wrapped() {
    // Classified like the spec says: numeric code, so valid and ok.
    let json = JsonValue::parse(r#"{"success":true,"http_code":65737}"#).unwrap();
    assert_eq!(json.is_valid_json(), true);
    assert_eq!(json.is_ok_json(), true);

    // But no envelope can store the code, so conversion wraps whole
    // instead of clipping it.
    let wrapped = ResponseJSON::from_str(r#"{"success":true,"http_code":65737}"#).unwrap();
    assert_eq!(wrapped.http_code, 200);
    assert_eq!(wrapped.data.get("http_code"), Some(&JsonValue::UInt(65737)));
}

#[test]
fn non_integer_http_codes() {
    // A non-numeric code is not a valid envelope document at all.
    let json = JsonValue::parse(r#"{"success":true,"http_code":"x"}"#).unwrap();
    assert_eq!(json.is_valid_json(), false);
    assert_eq!(json.is_ok_json(), false);
    assert_eq!(json.is_error_json(), false);

    // A negative code is numeric, so the document classifies as valid
    // and ok, but conversion wraps it whole rather than storing it.
    let json = JsonValue::parse(r#"{"success":true,"http_code":-5}"#).unwrap();
    assert_eq!(json.is_valid_json(), true);
    assert_eq!(json.is_ok_json(), true);

    let wrapped = ResponseJSON::from_str(r#"{"success":true,"http_code":-5}"#).unwrap();
    assert_eq!(wrapped.http_code, 200);
    assert_eq!(wrapped.data.get("http_code"), Some(&JsonValue::Int(-5)));

    // Same for a fractional code on the error side.
    let json = JsonValue::parse(r#"{"success":false,"http_code":4.5,"message":"M"}"#).unwrap();
    assert_eq!(json.is_valid_json(), true);
    assert_eq!(json.is_error_json(), true);
    let wrapped = ResponseJSON::from_serde_value(json);
    assert_eq!(wrapped.success, true);
    assert_eq!(wrapped.http_code, 200);
}
