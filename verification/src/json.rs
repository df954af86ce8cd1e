use vstd::prelude::*;

verus! {

broadcast use vstd::std_specs::vec::group_vec_axioms;

/// Mathematical model of a JSON document. Strings become character
/// sequences, arrays and objects become sequences; an object keeps its
/// entries in order. Numbers that are not 64-bit integers are carried as
/// the opaque value they came in as.
#[verifier::ext_equal]
pub enum Json {
    Null,
    Bool(bool),
    UInt(u64),
    Int(i64),
    Num(serde_json::Number),
    Str(Seq<char>),
    Arr(Seq<Json>),
    Obj(Seq<(Seq<char>, Json)>),
}

/// A JSON document held as plain values. Integer numbers are split by
/// sign so that the logic can read them; any other number stays the
/// opaque value that the text gave, and is only carried through.
#[derive(Debug, PartialEq)]
pub enum JsonValue {
    Null,
    Bool(bool),
    UInt(u64),
    /// An integer below zero.
    Int(i64),
    /// A number that is not a 64-bit integer.
    Num(serde_json::Number),
    Str(String),
    Arr(Vec<JsonValue>),
    Obj(Vec<(String, JsonValue)>),
}

impl JsonValue {
    /// The document this value holds, as a mathematical JSON value.
    pub open spec fn model(self) -> Json
        decreases self,
    {
        match self {
            JsonValue::Null => Json::Null,
            JsonValue::Bool(b) => Json::Bool(b),
            JsonValue::UInt(u) => Json::UInt(u),
            JsonValue::Int(i) => Json::Int(i),
            JsonValue::Num(n) => Json::Num(n),
            JsonValue::Str(s) => Json::Str(s@),
            JsonValue::Arr(items) => Json::Arr(
                Seq::new(
                    items@.len(),
                    |i: int|
                        if 0 <= i < items@.len() {
                            items[i].model()
                        } else {
                            Json::Null
                        },
                ),
            ),
            JsonValue::Obj(pairs) => Json::Obj(
                Seq::new(
                    pairs@.len(),
                    |i: int|
                        if 0 <= i < pairs@.len() {
                            (pairs[i].0@, pairs[i].1.model())
                        } else {
                            (Seq::empty(), Json::Null)
                        },
                ),
            ),
        }
    }
}

impl View for JsonValue {
    type V = Json;

    open spec fn view(&self) -> Json {
        self.model()
    }
}

/// The value under `key` in an object's entry list: the first entry that
/// carries the key, or `None` when no entry does.
pub open spec fn obj_lookup(entries: Seq<(Seq<char>, Json)>, key: Seq<char>) -> Option<Json>
    decreases entries.len(),
{
    if entries.len() == 0 {
        None
    } else if entries[0].0 == key {
        Some(entries[0].1)
    } else {
        obj_lookup(entries.drop_first(), key)
    }
}

/// The value under `key` of a JSON document: looked up when the document
/// is an object, absent otherwise.
pub open spec fn json_lookup(j: Json, key: Seq<char>) -> Option<Json> {
    match j {
        Json::Obj(entries) => obj_lookup(entries, key),
        _ => None,
    }
}

/// Looking a key up in a joined entry list reads the left part first
/// and falls back to the right part.
pub proof fn lemma_obj_lookup_concat(
    xs: Seq<(Seq<char>, Json)>,
    ys: Seq<(Seq<char>, Json)>,
    key: Seq<char>,
)
    ensures
        obj_lookup(xs + ys, key) == (match obj_lookup(xs, key) {
            Some(v) => Some(v),
            None => obj_lookup(ys, key),
        }),
    decreases xs.len(),
{
    if xs.len() == 0 {
        assert(xs + ys =~= ys);
    } else {
        assert((xs + ys)[0] == xs[0]);
        if xs[0].0 != key {
            assert((xs + ys).drop_first() =~= xs.drop_first() + ys);
            lemma_obj_lookup_concat(xs.drop_first(), ys, key);
        }
    }
}

/// Looking a key up in a one-entry list finds the entry exactly when
/// the keys agree.
pub proof fn lemma_obj_lookup_single(k: Seq<char>, v: Json, key: Seq<char>)
    ensures
        obj_lookup(seq![(k, v)], key) == (if k == key {
            Some(v)
        } else {
            None::<Json>
        }),
{
    assert(seq![(k, v)].len() == 1);
    assert(seq![(k, v)][0] == (k, v));
    if k != key {
        assert(seq![(k, v)].drop_first() =~= Seq::<(Seq<char>, Json)>::empty());
        assert(obj_lookup(Seq::<(Seq<char>, Json)>::empty(), key) is None);
    }
}

/// True when no opaque number occurs in the document: every number it
/// holds is a 64-bit integer.
pub open spec fn num_free(j: Json) -> bool
    decreases j,
{
    match j {
        Json::Num(_) => false,
        Json::Arr(items) => forall|i: int| 0 <= i < items.len() ==> num_free(#[trigger] items[i]),
        Json::Obj(entries) => forall|i: int|
            0 <= i < entries.len() ==> num_free((#[trigger] entries[i]).1),
        _ => true,
    }
}

/// Character-for-character equality of two string slices.
pub(crate) fn str_eq_str(a: &str, b: &str) -> (r: bool)
    ensures
        r == (a@ == b@),
{
    a.to_owned().eq(&b.to_owned())
}

impl JsonValue {
    /// True exactly when this document is an object.
    pub fn is_object(&self) -> (r: bool)
        ensures
            r == (self@ is Obj),
    {
        match self {
            JsonValue::Obj(_) => true,
            _ => false,
        }
    }

    /// True exactly when this document is null.
    pub fn is_null(&self) -> (r: bool)
        ensures
            r == (self@ is Null),
    {
        match self {
            JsonValue::Null => true,
            _ => false,
        }
    }

    /// True exactly when this document is a number of any kind.
    pub fn is_number(&self) -> (r: bool)
        ensures
            r == (self@ is UInt || self@ is Int || self@ is Num),
    {
        match self {
            JsonValue::UInt(_) => true,
            JsonValue::Int(_) => true,
            JsonValue::Num(_) => true,
            _ => false,
        }
    }

    /// True exactly when this document is a string.
    pub fn is_string(&self) -> (r: bool)
        ensures
            r == (self@ is Str),
    {
        match self {
            JsonValue::Str(_) => true,
            _ => false,
        }
    }

    /// The string this document holds, when it is one.
    pub fn as_str(&self) -> (r: Option<&str>)
        ensures
            self@ matches Json::Str(s) ==> (r matches Some(v) && v@ == s),
            !(self@ is Str) ==> r is None,
    {
        match self {
            JsonValue::Str(s) => Some(s.as_str()),
            _ => None,
        }
    }

    /// The value under `key` when this document is an object holding the
    /// key; `None` otherwise.
    #[verifier::loop_isolation(false)]
    pub fn get<'a>(&'a self, key: &str) -> (r: Option<&'a JsonValue>)
        ensures
            match json_lookup(self@, key@) {
                Some(j) => r matches Some(v) && v@ == j,
                None => r is None,
            },
    {
        match self {
            JsonValue::Obj(pairs) => {
                let ghost entries = self@->Obj_0;
                proof {
                    assert(entries.skip(0) =~= entries);
                }
                let mut idx: usize = 0;
                while idx < pairs.len()
                    invariant
                        idx <= pairs@.len(),
                        entries == self@->Obj_0,
                        self@ == JsonValue::Obj(*pairs)@,
                        entries.len() == pairs@.len(),
                        forall|j: int| 0 <= j < idx ==> (#[trigger] entries[j]).0 != key@,
                        obj_lookup(entries, key@) == obj_lookup(entries.skip(idx as int), key@),
                    decreases pairs@.len() - idx,
                {
                    proof {
                        assert(entries[idx as int] == (pairs[idx as int].0@, pairs[idx as int].1@));
                    }
                    if str_eq_str(pairs[idx].0.as_str(), key) {
                        proof {
                            assert(entries.skip(idx as int)[0] == entries[idx as int]);
                        }
                        return Some(&pairs[idx].1);
                    }
                    proof {
                        assert(entries.skip(idx as int)[0] == entries[idx as int]);
                        assert(entries.skip(idx as int).drop_first() =~= entries.skip(idx as int + 1));
                    }
                    idx += 1;
                }
                proof {
                    assert(entries.skip(idx as int) =~= Seq::empty());
                }
                None
            },
            _ => None,
        }
    }

    /// A copy of this document that holds the same value.
    #[verifier::loop_isolation(false)]
    pub fn duplicate(&self) -> (r: JsonValue)
        ensures
            r@ == self@,
        decreases *self,
    {
        match self {
            JsonValue::Null => JsonValue::Null,
            JsonValue::Bool(b) => JsonValue::Bool(*b),
            JsonValue::UInt(u) => JsonValue::UInt(*u),
            JsonValue::Int(i) => JsonValue::Int(*i),
            JsonValue::Num(n) => JsonValue::Num(n.clone()),
            JsonValue::Str(s) => JsonValue::Str(s.clone()),
            JsonValue::Arr(items) => {
                let mut out: Vec<JsonValue> = Vec::new();
                let mut idx: usize = 0;
                while idx < items.len()
                    invariant
                        idx <= items@.len(),
                        out@.len() == idx as int,
                        forall|j: int| 0 <= j < idx ==> (#[trigger] out@[j])@ == items@[j]@,
                    decreases items@.len() - idx,
                {
                    proof {
                        assert(*self == JsonValue::Arr(*items));
                        assert(decreases_to!(*self => (*self)->Arr_0));
                        assert(decreases_to!(*items => items@));
                        assert(decreases_to!(items@ => items@[idx as int]));
                    }
                    let copied = items[idx].duplicate();
                    out.push(copied);
                    idx += 1;
                }
                let r = JsonValue::Arr(out);
                proof {
                    assert(forall|j: int| 0 <= j < out@.len() ==> (#[trigger] out@[j])@ == items@[j]@);
                    assert(r@->Arr_0 =~= self@->Arr_0);
                    assert(r@ =~= self@);
                }
                r
            },
            JsonValue::Obj(pairs) => {
                let mut out: Vec<(String, JsonValue)> = Vec::new();
                let mut idx: usize = 0;
                while idx < pairs.len()
                    invariant
                        idx <= pairs@.len(),
                        out@.len() == idx as int,
                        forall|j: int| 0 <= j < idx ==> (#[trigger] out@[j]).0@ == pairs@[j].0@
                            && out@[j].1@ == pairs@[j].1@,
                    decreases pairs@.len() - idx,
                {
                    proof {
                        assert(*self == JsonValue::Obj(*pairs));
                        assert(decreases_to!(*self => (*self)->Obj_0));
                        assert(decreases_to!(*pairs => pairs@));
                        assert(decreases_to!(pairs@ => pairs@[idx as int]));
                        assert(decreases_to!(pairs@[idx as int] => pairs@[idx as int].1));
                    }
                    let entry = &pairs[idx];
                    let copied = entry.1.duplicate();
                    out.push((entry.0.clone(), copied));
                    idx += 1;
                }
                let r = JsonValue::Obj(out);
                proof {
                    assert(forall|j: int| 0 <= j < out@.len() ==> (#[trigger] out@[j]).0@ == pairs@[j].0@
                        && out@[j].1@ == pairs@[j].1@);
                    assert(r@->Obj_0 =~= self@->Obj_0);
                    assert(r@ =~= self@);
                }
                r
            },
        }
    }
}

/// Strict order on character sequences by code point, which is the order
/// strings take when compared byte by byte in their UTF-8 form.
pub open spec fn chars_below(a: Seq<char>, b: Seq<char>) -> bool
    decreases a.len(),
{
    if b.len() == 0 {
        false
    } else if a.len() == 0 {
        true
    } else if (a[0] as u32) < (b[0] as u32) {
        true
    } else if a[0] == b[0] {
        chars_below(a.drop_first(), b.drop_first())
    } else {
        false
    }
}

/// True when the document is in the form the parser leaves it: every
/// object lists its keys in strictly increasing order, as an ordered
/// map writes them, and every signed integer is below zero.
pub open spec fn canonical_json(j: Json) -> bool
    decreases j,
{
    match j {
        Json::Int(i) => i < 0,
        Json::Arr(items) => forall|i: int| 0 <= i < items.len() ==> canonical_json(#[trigger] items[i]),
        Json::Obj(entries) => {
            &&& forall|i: int|
                0 <= i < entries.len() - 1 ==> chars_below(
                    #[trigger] entries[i].0,
                    entries[i + 1].0,
                )
            &&& forall|i: int| 0 <= i < entries.len() ==> canonical_json(#[trigger] entries[i].1)
        },
        _ => true,
    }
}

} // verus!
