use vstd::prelude::*;

use crate::error::GenericError;
use crate::json::{
    canonical_json, chars_below, json_lookup, lemma_obj_lookup_concat, lemma_obj_lookup_single,
    num_free, obj_lookup, Json, JsonValue,
};
use crate::json_text::{json_of_text, normal_form, text_of_json};

verus! {

broadcast use vstd::string::group_string_axioms;

/// Mathematical model of a response envelope.
pub struct Envelope {
    pub success: bool,
    pub http_code: u16,
    pub data: Json,
    pub message: Option<Seq<char>>,
    pub resource: Option<Seq<char>>,
    pub method: Option<Seq<char>>,
}

/// JSON wrapper for the response of a REST route: a success flag and an
/// HTTP status code, an arbitrary payload, and three optional fields
/// that only an error response carries.
#[derive(Debug, PartialEq)]
pub struct ResponseJSON {
    pub success: bool,
    pub http_code: u16,
    pub data: JsonValue,
    pub message: Option<String>,
    pub resource: Option<String>,
    pub method: Option<String>,
}

impl View for ResponseJSON {
    type V = Envelope;

    open spec fn view(&self) -> Envelope {
        Envelope {
            success: self.success,
            http_code: self.http_code,
            data: self.data@,
            message: self.message.deep_view(),
            resource: self.resource.deep_view(),
            method: self.method.deep_view(),
        }
    }
}

/// The envelopes this library builds: the three guarded fields stay
/// empty on a success envelope, and an error envelope always carries a
/// message.
pub open spec fn is_well_formed(e: Envelope) -> bool {
    &&& e.success ==> e.message is None && e.resource is None && e.method is None
    &&& !e.success ==> e.message is Some
}

/// A field read out of a document: missing keys read as null.
pub open spec fn null_or_absent(o: Option<Json>) -> bool {
    match o {
        None => true,
        Some(j) => j is Null,
    }
}

/// A field that, when present, must be a string.
pub open spec fn absent_or_string(o: Option<Json>) -> bool {
    match o {
        None => true,
        Some(j) => j is Str,
    }
}

/// A present field holding a number of any kind.
pub open spec fn present_number(o: Option<Json>) -> bool {
    match o {
        Some(j) => j is UInt || j is Int || j is Num,
        None => false,
    }
}

/// A document shaped like some envelope: an object carrying at least
/// `success` and `http_code`, with a numeric code.
pub open spec fn valid_shape(j: Json) -> bool {
    &&& json_lookup(j, "success"@) is Some
    &&& present_number(json_lookup(j, "http_code"@))
}

/// A code an envelope can store: a non-negative integer that 16 bits
/// hold. Only a document whose code fits is read field by field; any
/// other valid document is wrapped whole, so no code is ever clipped.
pub open spec fn code_fits(j: Json) -> bool {
    json_lookup(j, "http_code"@) matches Some(Json::UInt(u)) && u < 65536
}

/// A document shaped like a success envelope: valid, `success` is
/// true, and the error-only fields are null or absent.
pub open spec fn ok_shape(j: Json) -> bool {
    &&& valid_shape(j)
    &&& json_lookup(j, "success"@) == Some(Json::Bool(true))
    &&& null_or_absent(json_lookup(j, "method"@))
    &&& null_or_absent(json_lookup(j, "resource"@))
    &&& null_or_absent(json_lookup(j, "message"@))
}

/// A document shaped like an error envelope: valid, `success` is
/// false, and the error-only fields, where present, are strings.
pub open spec fn error_shape(j: Json) -> bool {
    &&& valid_shape(j)
    &&& json_lookup(j, "success"@) == Some(Json::Bool(false))
    &&& absent_or_string(json_lookup(j, "message"@))
    &&& absent_or_string(json_lookup(j, "resource"@))
    &&& absent_or_string(json_lookup(j, "method"@))
}

/// The HTTP code a document carries, read where the code fits the
/// envelope's 16 bits, so that nothing is lost in the narrowing.
pub open spec fn shape_code(j: Json) -> u16 {
    (json_lookup(j, "http_code"@)->Some_0->UInt_0) as u16
}

/// The payload a shaped document carries: its `data` field, or null
/// when the field is missing.
pub open spec fn shape_data(j: Json) -> Json {
    match json_lookup(j, "data"@) {
        Some(d) => d,
        None => Json::Null,
    }
}

/// An optional string field of a shaped document; anything but a
/// present string reads as absent.
pub open spec fn shape_string_field(j: Json, key: Seq<char>) -> Option<Seq<char>> {
    match json_lookup(j, key) {
        Some(Json::Str(s)) => Some(s),
        _ => None,
    }
}

/// The envelope an arbitrary document converts to: a success document
/// and an error document whose code fits the envelope are read field
/// by field; anything else — a document of some other shape, or one
/// whose numeric code no envelope can store — is wrapped whole as the
/// payload of a fresh success envelope.
pub open spec fn envelope_of_json(j: Json) -> Envelope {
    if ok_shape(j) && code_fits(j) {
        Envelope {
            success: true,
            http_code: shape_code(j),
            data: shape_data(j),
            message: None,
            resource: None,
            method: None,
        }
    } else if error_shape(j) && code_fits(j) {
        Envelope {
            success: false,
            http_code: shape_code(j),
            data: shape_data(j),
            message: (match shape_string_field(j, "message"@) {
                Some(s) => Some(s),
                None => Some("Unexpected error"@),
            }),
            resource: shape_string_field(j, "resource"@),
            method: shape_string_field(j, "method"@),
        }
    } else {
        Envelope {
            success: true,
            http_code: 200,
            data: j,
            message: None,
            resource: None,
            method: None,
        }
    }
}

/// The entries of the object an envelope serializes to, in increasing
/// key order; fields that hold nothing are left out entirely.
pub open spec fn envelope_entries(e: Envelope) -> Seq<(Seq<char>, Json)> {
    (if e.data is Null {
        Seq::empty()
    } else {
        seq![("data"@, e.data)]
    }) + seq![("http_code"@, Json::UInt(e.http_code as u64))] + (match e.message {
        Some(s) => seq![("message"@, Json::Str(s))],
        None => Seq::empty(),
    }) + (match e.method {
        Some(s) => seq![("method"@, Json::Str(s))],
        None => Seq::empty(),
    }) + (match e.resource {
        Some(s) => seq![("resource"@, Json::Str(s))],
        None => Seq::empty(),
    }) + seq![("success"@, Json::Bool(e.success))]
}

/// The document an envelope serializes to.
pub open spec fn envelope_to_json(e: Envelope) -> Json {
    Json::Obj(envelope_entries(e))
}

impl ResponseJSON {
    /// A fresh success envelope: code 200, null payload, nothing else.
    pub fn ok() -> (r: ResponseJSON)
        ensures
            r@ == (Envelope {
                success: true,
                http_code: 200,
                data: Json::Null,
                message: None,
                resource: None,
                method: None,
            }),
    {
        ResponseJSON {
            success: true,
            http_code: 200,
            data: JsonValue::Null,
            message: None,
            resource: None,
            method: None,
        }
    }

    /// A fresh error envelope: code 500 and a standing message.
    pub fn error() -> (r: ResponseJSON)
        ensures
            r@ == (Envelope {
                success: false,
                http_code: 500,
                data: Json::Null,
                message: Some("Unexpected error"@),
                resource: None,
                method: None,
            }),
    {
        ResponseJSON {
            success: false,
            http_code: 500,
            data: JsonValue::Null,
            message: Some("Unexpected error".to_owned()),
            resource: None,
            method: None,
        }
    }

    /// Set the HTTP code.
    pub fn http_code(self, code: u16) -> (r: ResponseJSON)
        ensures
            r@ == (Envelope { http_code: code, ..self@ }),
    {
        ResponseJSON { http_code: code, ..self }
    }

    /// Set the payload.
    pub fn data(self, data: JsonValue) -> (r: ResponseJSON)
        ensures
            r@ == (Envelope { data: data@, ..self@ }),
    {
        ResponseJSON { data, ..self }
    }

    /// Set the error message; on a success envelope the call changes
    /// nothing.
    pub fn message(self, string: String) -> (r: ResponseJSON)
        ensures
            !self.success ==> r@ == (Envelope { message: Some(string@), ..self@ }),
            self.success ==> r@ == self@,
    {
        if !self.success {
            ResponseJSON { message: Some(string), ..self }
        } else {
            self
        }
    }

    /// Set the resource that was addressed; on a success envelope the
    /// call changes nothing.
    pub fn resource(self, string: String) -> (r: ResponseJSON)
        ensures
            !self.success ==> r@ == (Envelope { resource: Some(string@), ..self@ }),
            self.success ==> r@ == self@,
    {
        if !self.success {
            ResponseJSON { resource: Some(string), ..self }
        } else {
            self
        }
    }

    /// Set the HTTP method that was used; on a success envelope the
    /// call changes nothing.
    pub fn method(self, string: String) -> (r: ResponseJSON)
        ensures
            !self.success ==> r@ == (Envelope { method: Some(string@), ..self@ }),
            self.success ==> r@ == self@,
    {
        if !self.success {
            ResponseJSON { method: Some(string), ..self }
        } else {
            self
        }
    }
}

/// Test whether the underlying value is, or describes, a response
/// envelope of some shape.
pub trait IsResponseJSON {
    /// What it means for this thing to describe some envelope.
    spec fn spec_is_valid(&self) -> bool;

    /// What it means for this thing to describe a success envelope.
    spec fn spec_is_ok(&self) -> bool;

    /// What it means for this thing to describe an error envelope.
    spec fn spec_is_error(&self) -> bool;

    fn is_valid_json(&self) -> (r: bool)
        ensures
            r == self.spec_is_valid(),
    ;

    fn is_ok_json(&self) -> (r: bool)
        ensures
            r == self.spec_is_ok(),
    ;

    fn is_error_json(&self) -> (r: bool)
        ensures
            r == self.spec_is_error(),
    ;
}

impl IsResponseJSON for ResponseJSON {
    open spec fn spec_is_valid(&self) -> bool {
        true
    }

    open spec fn spec_is_ok(&self) -> bool {
        &&& self@.success
        &&& self@.message is None
        &&& self@.resource is None
        &&& self@.method is None
    }

    open spec fn spec_is_error(&self) -> bool {
        !self@.success
    }

    /// A constructed envelope is always valid.
    fn is_valid_json(&self) -> bool {
        true
    }

    fn is_ok_json(&self) -> bool {
        self.success && self.method.is_none() && self.message.is_none()
            && self.resource.is_none()
    }

    fn is_error_json(&self) -> bool {
        !self.success
    }
}

impl IsResponseJSON for JsonValue {
    open spec fn spec_is_valid(&self) -> bool {
        valid_shape(self@)
    }

    open spec fn spec_is_ok(&self) -> bool {
        ok_shape(self@)
    }

    open spec fn spec_is_error(&self) -> bool {
        error_shape(self@)
    }

    fn is_valid_json(&self) -> bool {
        let code_ok = match self.get("http_code") {
            Some(v) => v.is_number(),
            None => false,
        };
        self.get("success").is_some() && code_ok
    }

    fn is_ok_json(&self) -> bool {
        let success_ok = match self.get("success") {
            Some(v) => match v {
                JsonValue::Bool(b) => *b,
                _ => false,
            },
            None => false,
        };
        let code_ok = match self.get("http_code") {
            Some(v) => v.is_number(),
            None => false,
        };
        let method_ok = match self.get("method") {
            Some(v) => v.is_null(),
            None => true,
        };
        let resource_ok = match self.get("resource") {
            Some(v) => v.is_null(),
            None => true,
        };
        let message_ok = match self.get("message") {
            Some(v) => v.is_null(),
            None => true,
        };
        success_ok && code_ok && method_ok && resource_ok && message_ok
    }

    fn is_error_json(&self) -> bool {
        let success_ok = match self.get("success") {
            Some(v) => match v {
                JsonValue::Bool(b) => !*b,
                _ => false,
            },
            None => false,
        };
        let code_ok = match self.get("http_code") {
            Some(v) => v.is_number(),
            None => false,
        };
        let message_ok = match self.get("message") {
            Some(v) => v.is_string(),
            None => true,
        };
        let resource_ok = match self.get("resource") {
            Some(v) => v.is_string(),
            None => true,
        };
        let method_ok = match self.get("method") {
            Some(v) => v.is_string(),
            None => true,
        };
        success_ok && code_ok && message_ok && resource_ok && method_ok
    }
}

/// Whether the document's code is one the envelope can store.
fn code_fits_field(json: &JsonValue) -> (r: bool)
    ensures
        r == code_fits(json@),
{
    match json.get("http_code") {
        Some(v) => match v {
            JsonValue::UInt(u) => *u < 65536,
            _ => false,
        },
        None => false,
    }
}

/// The HTTP code of a document whose code fits; the bound makes the
/// narrowing exact.
fn code_field(json: &JsonValue) -> (r: u16)
    requires
        code_fits(json@),
    ensures
        r == shape_code(json@),
{
    match json.get("http_code") {
        Some(v) => match v {
            JsonValue::UInt(u) => (*u as u16),
            _ => {
                proof {
                    assert(false);
                }
                0
            },
        },
        None => {
            proof {
                assert(false);
            }
            0
        },
    }
}

/// A copy of the payload under `data`, null when the field is missing.
fn data_field(json: &JsonValue) -> (r: JsonValue)
    ensures
        r@ == shape_data(json@),
{
    match json.get("data") {
        Some(v) => v.duplicate(),
        None => JsonValue::Null,
    }
}

/// A copy of an optional string field; anything but a present string
/// reads as absent.
fn string_field(json: &JsonValue, key: &str) -> (r: Option<String>)
    ensures
        match shape_string_field(json@, key@) {
            Some(s) => r matches Some(x) && x@ == s,
            None => r is None,
        },
{
    match json.get(key) {
        Some(v) => match v {
            JsonValue::Str(s) => Some(s.clone()),
            _ => None,
        },
        None => None,
    }
}

impl ResponseJSON {
    /// Convert an arbitrary document into an envelope, reading it field
    /// by field when it is shaped like one and its code fits, and
    /// wrapping it whole as a payload otherwise. The conversion never
    /// fails.
    pub fn from_serde_value(json: JsonValue) -> (r: ResponseJSON)
        ensures
            r@ == envelope_of_json(json@),
    {
        if json.is_ok_json() && code_fits_field(&json) {
            let code = code_field(&json);
            let data = data_field(&json);
            ResponseJSON {
                success: true,
                http_code: code,
                data,
                message: None,
                resource: None,
                method: None,
            }
        } else if json.is_error_json() && code_fits_field(&json) {
            let code = code_field(&json);
            let data = data_field(&json);
            let message = match string_field(&json, "message") {
                Some(s) => Some(s),
                None => Some("Unexpected error".to_owned()),
            };
            let resource = string_field(&json, "resource");
            let method = string_field(&json, "method");
            ResponseJSON { success: false, http_code: code, data, message, resource, method }
        } else {
            ResponseJSON {
                success: true,
                http_code: 200,
                data: json,
                message: None,
                resource: None,
                method: None,
            }
        }
    }

    /// Parse a text and convert the document it holds; a text that is
    /// no JSON document is the one input that is rejected.
    pub fn from_str(s: &str) -> (r: Result<ResponseJSON, GenericError>)
        ensures
            r is Ok <==> json_of_text(s@) is Some,
            r matches Ok(e) ==> (json_of_text(s@) matches Some(j) && e@ == envelope_of_json(j)),
            r matches Err(err) ==> err is Serde,
    {
        match JsonValue::parse(s) {
            Ok(v) => Ok(ResponseJSON::from_serde_value(v)),
            Err(e) => Err(e),
        }
    }

    /// The document this envelope serializes to: `success` and
    /// `http_code` always, the other fields only where they hold
    /// something.
    pub fn to_json_value(&self) -> (r: JsonValue)
        ensures
            r@ == envelope_to_json(self@),
    {
        let mut out: Vec<(String, JsonValue)> = Vec::new();
        if !self.data.is_null() {
            out.push(("data".to_owned(), self.data.duplicate()));
        }
        out.push(("http_code".to_owned(), JsonValue::UInt(self.http_code as u64)));
        match &self.message {
            Some(m) => {
                out.push(("message".to_owned(), JsonValue::Str(m.clone())));
            },
            None => {},
        }
        match &self.method {
            Some(m) => {
                out.push(("method".to_owned(), JsonValue::Str(m.clone())));
            },
            None => {},
        }
        match &self.resource {
            Some(rsc) => {
                out.push(("resource".to_owned(), JsonValue::Str(rsc.clone())));
            },
            None => {},
        }
        out.push(("success".to_owned(), JsonValue::Bool(self.success)));
        let r = JsonValue::Obj(out);
        proof {
            let e = self@;
            let target = envelope_entries(e);
            assert(out@.len() == target.len());
            assert forall|i: int| 0 <= i < out@.len() implies ((#[trigger] out@[i]).0@, out@[i].1@)
                == target[i] by {
                assert(0 <= i < target.len());
            };
            assert(r@->Obj_0 =~= target);
            assert(r@ =~= envelope_to_json(e));
        }
        r
    }
}

/// What looking any key up in a serialized envelope finds: the first
/// piece of the entry list that carries the key and holds something.
proof fn lemma_entries_lookup(e: Envelope, key: Seq<char>)
    ensures
        obj_lookup(envelope_entries(e), key) == (if key == "data"@ && !(e.data is Null) {
            Some(e.data)
        } else if key == "http_code"@ && !(key == "data"@ && !(e.data is Null)) {
            Some(Json::UInt(e.http_code as u64))
        } else if key == "message"@ && e.message is Some {
            Some(Json::Str(e.message->0))
        } else if key == "method"@ && e.method is Some {
            Some(Json::Str(e.method->0))
        } else if key == "resource"@ && e.resource is Some {
            Some(Json::Str(e.resource->0))
        } else if key == "success"@ {
            Some(Json::Bool(e.success))
        } else {
            None::<Json>
        }),
{
    let p1: Seq<(Seq<char>, Json)> = if e.data is Null {
        Seq::empty()
    } else {
        seq![("data"@, e.data)]
    };
    let p2: Seq<(Seq<char>, Json)> = seq![("http_code"@, Json::UInt(e.http_code as u64))];
    let p3: Seq<(Seq<char>, Json)> = match e.message {
        Some(s) => seq![("message"@, Json::Str(s))],
        None => Seq::empty(),
    };
    let p4: Seq<(Seq<char>, Json)> = match e.method {
        Some(s) => seq![("method"@, Json::Str(s))],
        None => Seq::empty(),
    };
    let p5: Seq<(Seq<char>, Json)> = match e.resource {
        Some(s) => seq![("resource"@, Json::Str(s))],
        None => Seq::empty(),
    };
    let p6: Seq<(Seq<char>, Json)> = seq![("success"@, Json::Bool(e.success))];
    assert(envelope_entries(e) == p1 + p2 + p3 + p4 + p5 + p6);
    lemma_obj_lookup_concat(p1 + p2 + p3 + p4 + p5, p6, key);
    lemma_obj_lookup_concat(p1 + p2 + p3 + p4, p5, key);
    lemma_obj_lookup_concat(p1 + p2 + p3, p4, key);
    lemma_obj_lookup_concat(p1 + p2, p3, key);
    lemma_obj_lookup_concat(p1, p2, key);
    if e.data is Null {
        assert(obj_lookup(p1, key) is None);
    } else {
        lemma_obj_lookup_single("data"@, e.data, key);
    }
    lemma_obj_lookup_single("http_code"@, Json::UInt(e.http_code as u64), key);
    match e.message {
        Some(s) => lemma_obj_lookup_single("message"@, Json::Str(s), key),
        None => assert(obj_lookup(p3, key) is None),
    }
    match e.method {
        Some(s) => lemma_obj_lookup_single("method"@, Json::Str(s), key),
        None => assert(obj_lookup(p4, key) is None),
    }
    match e.resource {
        Some(s) => lemma_obj_lookup_single("resource"@, Json::Str(s), key),
        None => assert(obj_lookup(p5, key) is None),
    }
    lemma_obj_lookup_single("success"@, Json::Bool(e.success), key);
}

/// The six field names differ from one another.
proof fn lemma_keys_distinct()
    ensures
        "data"@ != "http_code"@,
        "data"@ != "message"@,
        "data"@ != "method"@,
        "data"@ != "resource"@,
        "data"@ != "success"@,
        "http_code"@ != "message"@,
        "http_code"@ != "method"@,
        "http_code"@ != "resource"@,
        "http_code"@ != "success"@,
        "message"@ != "method"@,
        "message"@ != "resource"@,
        "message"@ != "success"@,
        "method"@ != "resource"@,
        "method"@ != "success"@,
        "resource"@ != "success"@,
{
    reveal_strlit("data");
    reveal_strlit("http_code");
    reveal_strlit("message");
    reveal_strlit("method");
    reveal_strlit("resource");
    reveal_strlit("success");
    assert("data"@.len() == 4);
    assert("http_code"@.len() == 9);
    assert("message"@.len() == 7);
    assert("method"@.len() == 6);
    assert("resource"@.len() == 8);
    assert("success"@.len() == 7);
    assert("message"@[0] == 'm');
    assert("success"@[0] == 's');
}

/// Serializing always writes the success flag and the code, and leaves
/// out every optional field that holds nothing.
pub proof fn lemma_serialization_omits_empty_fields(e: Envelope)
    ensures
        json_lookup(envelope_to_json(e), "success"@) == Some(Json::Bool(e.success)),
        json_lookup(envelope_to_json(e), "http_code"@) == Some(Json::UInt(e.http_code as u64)),
        e.message is None ==> json_lookup(envelope_to_json(e), "message"@) is None,
        e.method is None ==> json_lookup(envelope_to_json(e), "method"@) is None,
        e.resource is None ==> json_lookup(envelope_to_json(e), "resource"@) is None,
        e.data is Null ==> json_lookup(envelope_to_json(e), "data"@) is None,
{
    lemma_keys_distinct();
    lemma_entries_lookup(e, "success"@);
    lemma_entries_lookup(e, "http_code"@);
    lemma_entries_lookup(e, "message"@);
    lemma_entries_lookup(e, "method"@);
    lemma_entries_lookup(e, "resource"@);
    lemma_entries_lookup(e, "data"@);
}

/// Round trip: converting a well-formed envelope's serialized document
/// back yields the same envelope.
pub proof fn lemma_envelope_round_trip(e: Envelope)
    requires
        is_well_formed(e),
    ensures
        envelope_of_json(envelope_to_json(e)) == e,
{
    let j = envelope_to_json(e);
    lemma_keys_distinct();
    lemma_entries_lookup(e, "success"@);
    lemma_entries_lookup(e, "http_code"@);
    lemma_entries_lookup(e, "message"@);
    lemma_entries_lookup(e, "method"@);
    lemma_entries_lookup(e, "resource"@);
    lemma_entries_lookup(e, "data"@);
    assert(json_lookup(j, "success"@) == Some(Json::Bool(e.success)));
    assert(json_lookup(j, "http_code"@) == Some(Json::UInt(e.http_code as u64)));
    if e.success {
        assert(ok_shape(j));
        assert(shape_code(j) == e.http_code);
        assert(shape_data(j) == e.data);
    } else {
        assert(!ok_shape(j));
        assert(error_shape(j));
        assert(shape_code(j) == e.http_code);
        assert(shape_data(j) == e.data);
        assert(shape_string_field(j, "message"@) == e.message);
        assert(shape_string_field(j, "resource"@) == e.resource);
        assert(shape_string_field(j, "method"@) == e.method);
    }
}

/// The six field names stand in strictly increasing order.
proof fn lemma_keys_ordered()
    ensures
        chars_below("data"@, "http_code"@),
        chars_below("http_code"@, "message"@),
        chars_below("message"@, "method"@),
        chars_below("method"@, "resource"@),
        chars_below("resource"@, "success"@),
        chars_below("data"@, "message"@),
        chars_below("data"@, "method"@),
        chars_below("data"@, "resource"@),
        chars_below("data"@, "success"@),
        chars_below("http_code"@, "method"@),
        chars_below("http_code"@, "resource"@),
        chars_below("http_code"@, "success"@),
        chars_below("message"@, "resource"@),
        chars_below("message"@, "success"@),
        chars_below("method"@, "success"@),
{
    reveal_strlit("data");
    reveal_strlit("http_code");
    reveal_strlit("message");
    reveal_strlit("method");
    reveal_strlit("resource");
    reveal_strlit("success");
    let a = "message"@;
    let b = "method"@;
    assert(a.len() == 7);
    assert(b.len() == 6);
    assert(a[0] == 'm' && b[0] == 'm' && a[1] == 'e' && b[1] == 'e' && a[2] == 's' && b[2]
        == 't');
    assert(a.drop_first().drop_first()[0] == 's');
    assert(b.drop_first().drop_first()[0] == 't');
    assert(chars_below(a.drop_first().drop_first(), b.drop_first().drop_first()));
    assert(a.drop_first()[0] == 'e' && b.drop_first()[0] == 'e');
    assert(a.drop_first().drop_first() == a.skip(1).drop_first());
    assert(chars_below(a.drop_first(), b.drop_first()));
    assert(chars_below(a, b));
}

/// A serialized envelope lists its keys in strictly increasing order,
/// so its text is pinned down whenever its payload does too.
proof fn lemma_envelope_canonical(e: Envelope)
    requires
        canonical_json(e.data),
        num_free(e.data),
    ensures
        canonical_json(envelope_to_json(e)),
        num_free(envelope_to_json(e)),
{
    lemma_keys_ordered();
    let entries = envelope_entries(e);
    assert forall|i: int| 0 <= i < entries.len() - 1 implies chars_below(
        (#[trigger] entries[i]).0,
        entries[i + 1].0,
    ) by {}
    assert forall|i: int| 0 <= i < entries.len() implies canonical_json(
        (#[trigger] entries[i]).1,
    ) && num_free(entries[i].1) by {}
}

impl ResponseJSON {
    /// Serialize this envelope; the emission itself cannot fail, and
    /// the text is a function of the envelope alone. A payload in the
    /// form the parser leaves documents in, with integer numbers — the
    /// only kind this library itself produces — is emitted as it
    /// stands.
    pub fn to_string(&self) -> (r: String)
        ensures
            r@ == text_of_json(normal_form(envelope_to_json(self@))),
            canonical_json(self@.data) && num_free(self@.data) ==> r@ == text_of_json(
                envelope_to_json(self@),
            ),
    {
        let jv = self.to_json_value();
        proof {
            if canonical_json(self@.data) && num_free(self@.data) {
                lemma_envelope_canonical(self@);
            }
        }
        jv.into_text()
    }

    /// Consume the envelope and serialize it; the text is exactly what
    /// `to_string` emits for the same envelope.
    pub fn into_string(self) -> (r: String)
        ensures
            r@ == text_of_json(normal_form(envelope_to_json(self@))),
            canonical_json(self@.data) && num_free(self@.data) ==> r@ == text_of_json(
                envelope_to_json(self@),
            ),
    {
        self.to_string()
    }
}

impl IsResponseJSON for str {
    open spec fn spec_is_valid(&self) -> bool {
        json_of_text(self@) matches Some(j) && valid_shape(j)
    }

    open spec fn spec_is_ok(&self) -> bool {
        json_of_text(self@) matches Some(j) && ok_shape(j)
    }

    open spec fn spec_is_error(&self) -> bool {
        json_of_text(self@) matches Some(j) && error_shape(j)
    }

    fn is_valid_json(&self) -> bool {
        match JsonValue::parse(self) {
            Ok(v) => v.is_valid_json(),
            Err(_) => false,
        }
    }

    fn is_ok_json(&self) -> bool {
        match JsonValue::parse(self) {
            Ok(v) => v.is_ok_json(),
            Err(_) => false,
        }
    }

    fn is_error_json(&self) -> bool {
        match JsonValue::parse(self) {
            Ok(v) => v.is_error_json(),
            Err(_) => false,
        }
    }
}

impl IsResponseJSON for String {
    open spec fn spec_is_valid(&self) -> bool {
        json_of_text(self@) matches Some(j) && valid_shape(j)
    }

    open spec fn spec_is_ok(&self) -> bool {
        json_of_text(self@) matches Some(j) && ok_shape(j)
    }

    open spec fn spec_is_error(&self) -> bool {
        json_of_text(self@) matches Some(j) && error_shape(j)
    }

    fn is_valid_json(&self) -> bool {
        self.as_str().is_valid_json()
    }

    fn is_ok_json(&self) -> bool {
        self.as_str().is_ok_json()
    }

    fn is_error_json(&self) -> bool {
        self.as_str().is_error_json()
    }
}

} // verus!
