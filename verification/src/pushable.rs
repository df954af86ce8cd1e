use vstd::prelude::*;

use crate::error::GenericError;
use crate::json::{Json, JsonValue};
use crate::json_text::json_of_text;

verus! {

/// Types a value can be pushed onto, accumulating into a collection.
pub trait Pushable<T>: Sized {
    /// The inputs a push is defined on.
    spec fn push_req(pre: Self, value: T) -> bool;

    /// How the receiver after the push relates to the receiver before.
    spec fn push_ok(pre: Self, value: T, post: Self) -> bool;

    fn push(&mut self, value: T)
        requires
            Self::push_req(*old(self), value),
        ensures
            Self::push_ok(*old(self), value, *final(self)),
    ;
}

impl<T> Pushable<T> for Vec<T> {
    open spec fn push_req(pre: Self, value: T) -> bool {
        true
    }

    open spec fn push_ok(pre: Self, value: T, post: Self) -> bool {
        post@ == pre@.push(value)
    }

    fn push(&mut self, value: T) {
        Vec::push(self, value);
    }
}

/// The document after appending a value: an array appends it, null
/// starts a fresh array holding it, and any other document becomes the
/// first element of a fresh array.
pub open spec fn json_push(pre: Json, v: Json) -> Json {
    match pre {
        Json::Arr(items) => Json::Arr(items.push(v)),
        Json::Null => Json::Arr(seq![v]),
        _ => Json::Arr(seq![pre, v]),
    }
}

/// What a pushed text stands for: the document it parses to, or the
/// text itself as a JSON string when it parses to none.
pub open spec fn parsed_or_string(s: Seq<char>) -> Json {
    match json_of_text(s) {
        Some(j) => j,
        None => Json::Str(s),
    }
}

impl Pushable<JsonValue> for JsonValue {
    open spec fn push_req(pre: Self, value: JsonValue) -> bool {
        true
    }

    open spec fn push_ok(pre: Self, value: JsonValue, post: Self) -> bool {
        post@ == json_push(pre@, value@)
    }

    fn push(&mut self, value: JsonValue) {
        let ghost pre = *self;
        let mut taken = JsonValue::Null;
        core::mem::swap(self, &mut taken);
        let mut vect: Vec<JsonValue> = Vec::new();
        match taken {
            JsonValue::Arr(mut existing) => {
                vect.append(&mut existing);
            },
            JsonValue::Null => {},
            other => {
                vect.push(other);
            },
        }
        vect.push(value);
        proof {
            let target = json_push(pre@, value@);
            let ts = target->Arr_0;
            assert(vect@.len() == ts.len());
            assert forall|i: int| 0 <= i < vect@.len() implies (#[trigger] vect@[i])@ == ts[i] by {
                if pre@ is Arr && i < vect@.len() - 1 {
                    assert(vect@[i] == pre->Arr_0@[i]);
                    assert(ts[i] == pre@->Arr_0[i]);
                }
            };
            assert(JsonValue::Arr(vect)@->Arr_0 =~= ts);
            assert(JsonValue::Arr(vect)@ =~= target);
        }
        *self = JsonValue::Arr(vect);
    }
}

impl Pushable<String> for JsonValue {
    open spec fn push_req(pre: Self, value: String) -> bool {
        true
    }

    open spec fn push_ok(pre: Self, value: String, post: Self) -> bool {
        post@ == json_push(pre@, parsed_or_string(value@))
    }

    /// A pushed text is first read as JSON; a text that is no JSON
    /// document is pushed as a JSON string.
    fn push(&mut self, value: String) {
        match JsonValue::parse(value.as_str()) {
            Ok(v) => Pushable::<JsonValue>::push(self, v),
            Err(_) => Pushable::<JsonValue>::push(self, JsonValue::Str(value)),
        }
    }
}

impl<'s> Pushable<&'s str> for JsonValue {
    open spec fn push_req(pre: Self, value: &'s str) -> bool {
        true
    }

    open spec fn push_ok(pre: Self, value: &'s str, post: Self) -> bool {
        post@ == json_push(pre@, parsed_or_string(value@))
    }

    /// A pushed text is first read as JSON; a text that is no JSON
    /// document is pushed as a JSON string.
    fn push(&mut self, value: &'s str) {
        match JsonValue::parse(value) {
            Ok(v) => Pushable::<JsonValue>::push(self, v),
            Err(_) => Pushable::<JsonValue>::push(self, JsonValue::Str(value.to_owned())),
        }
    }
}

impl Pushable<Result<JsonValue, GenericError>> for JsonValue {
    /// Only a successful parse result can be pushed.
    open spec fn push_req(pre: Self, value: Result<JsonValue, GenericError>) -> bool {
        value is Ok
    }

    open spec fn push_ok(
        pre: Self,
        value: Result<JsonValue, GenericError>,
        post: Self,
    ) -> bool {
        value matches Ok(v) ==> post@ == json_push(pre@, v@)
    }

    fn push(&mut self, value: Result<JsonValue, GenericError>) {
        match value {
            Ok(v) => Pushable::<JsonValue>::push(self, v),
            Err(_) => {
                proof {
                    assert(false);
                }
            },
        }
    }
}

} // verus!
