use vstd::prelude::*;
use vstd::utf8::{decode_utf8, encode_scalar, encode_utf8, valid_utf8};

use vstd::string::StringExecFns;

use crate::chars::{char_utf8_bytes, str_chars, string_from_utf8};
use crate::error::GenericError;
use crate::json::{json_lookup, Json, JsonValue};
use crate::json_text::json_of_text;
use crate::one_or_many::OneOrMany;

verus! {

broadcast use vstd::std_specs::vec::group_vec_axioms;

/// Accumulator for the values of one key: empty until the first push,
/// then one value, then an ordered list.
#[derive(Debug, PartialEq)]
pub struct FormValues<T> {
    pub value: Option<OneOrMany<T>>,
}

impl<T> FormValues<T> {
    /// All values pushed so far, in push order.
    pub open spec fn values(self) -> Seq<T> {
        match self.value {
            None => Seq::empty(),
            Some(v) => v.values(),
        }
    }

    /// A fresh, empty accumulator.
    pub fn new() -> (r: FormValues<T>)
        ensures
            r.values() == Seq::<T>::empty(),
            r.value is None,
    {
        FormValues { value: None }
    }

    /// Add a value: the first push holds it alone, a second push turns
    /// the accumulator into a list, and later pushes append.
    pub fn push(&mut self, new_value: T)
        ensures
            final(self).values() == old(self).values().push(new_value),
            old(self).value is None ==> final(self).value == Some(OneOrMany::One(new_value)),
            old(self).value is Some ==> (final(self).value matches Some(om) && om is Many),
    {
        let old_value = self.value.take();
        self.value = match old_value {
            None => Some(OneOrMany::One(new_value)),
            Some(OneOrMany::One(existing)) => Some(
                OneOrMany::Many(vec![existing, new_value]),
            ),
            Some(OneOrMany::Many(mut vect)) => {
                vect.push(new_value);
                Some(OneOrMany::Many(vect))
            },
        };
        proof {
            assert(final(self).values() =~= old(self).values().push(new_value));
        }
    }

    /// A reference to what has been pushed, if anything has.
    pub fn get(&self) -> (r: Option<&OneOrMany<T>>)
        ensures
            r is Some <==> self.value is Some,
            r matches Some(v) ==> *v == self.value->0,
    {
        self.value.as_ref()
    }

    /// Consume the accumulator and move its content out.
    pub fn into_inner(self) -> (r: Option<OneOrMany<T>>)
        ensures
            r == self.value,
    {
        self.value
    }
}

/// The sequence left after pushing each of `pushes`, in order, onto an
/// accumulator already holding `init`.
pub open spec fn pushed_values<T>(init: Seq<T>, pushes: Seq<T>) -> Seq<T>
    decreases pushes.len(),
{
    if pushes.len() == 0 {
        init
    } else {
        pushed_values(init.push(pushes[0]), pushes.drop_first())
    }
}

proof fn lemma_pushed_values_concat<T>(init: Seq<T>, pushes: Seq<T>)
    ensures
        pushed_values(init, pushes) == init + pushes,
    decreases pushes.len(),
{
    if pushes.len() == 0 {
        assert(init + pushes =~= init);
    } else {
        lemma_pushed_values_concat(init.push(pushes[0]), pushes.drop_first());
        assert(init.push(pushes[0]) + pushes.drop_first() =~= init + pushes);
    }
}

/// Pushing v1..vn, in order, into a fresh accumulator leaves exactly
/// [v1, ..., vn]: each push appends one value (the contract of `push`),
/// so the sequence of held values is the sequence of pushes, and
/// `into_values` on the result hands back exactly that sequence.
pub proof fn lemma_pushes_in_order<T>(pushes: Seq<T>)
    ensures
        pushed_values(Seq::empty(), pushes) == pushes,
{
    lemma_pushed_values_concat(Seq::empty(), pushes);
    assert(Seq::empty() + pushes =~= pushes);
}

/// A hexadecimal digit, upper or lower case.
pub open spec fn is_hex_digit(c: char) -> bool {
    ('0' <= c && c <= '9') || ('a' <= c && c <= 'f') || ('A' <= c && c <= 'F')
}

/// The value of a hexadecimal digit.
pub open spec fn hex_val(c: char) -> int {
    if '0' <= c && c <= '9' {
        c as int - '0' as int
    } else if 'a' <= c && c <= 'f' {
        c as int - 'a' as int + 10
    } else {
        c as int - 'A' as int + 10
    }
}

/// The byte sequence a component decodes to: a percent escape of two
/// hexadecimal digits yields its byte, any other character yields its
/// own UTF-8 bytes, and a stray or short escape fails the component.
pub open spec fn pct_bytes(s: Seq<char>) -> Option<Seq<u8>>
    decreases s.len(),
{
    if s.len() == 0 {
        Some(Seq::empty())
    } else if s[0] == '%' {
        if s.len() >= 3 && is_hex_digit(s[1]) && is_hex_digit(s[2]) {
            match pct_bytes(s.skip(3)) {
                Some(rest) => Some(seq![(hex_val(s[1]) * 16 + hex_val(s[2])) as u8] + rest),
                None => None,
            }
        } else {
            None
        }
    } else {
        match pct_bytes(s.skip(1)) {
            Some(rest) => Some(encode_scalar(s[0] as u32) + rest),
            None => None,
        }
    }
}

/// The characters a component decodes to: its percent-decoded bytes
/// read back as UTF-8; a component whose escapes are malformed or
/// whose bytes are not UTF-8 fails.
pub open spec fn decode_chars(s: Seq<char>) -> Option<Seq<char>> {
    match pct_bytes(s) {
        Some(bytes) => if valid_utf8(bytes) {
            Some(decode_utf8(bytes))
        } else {
            None
        },
        None => None,
    }
}

/// The position of the first occurrence of `c` in `s`, or the length
/// of `s` when `c` does not occur.
pub open spec fn first_index(s: Seq<char>, c: char) -> int
    decreases s.len(),
{
    if s.len() == 0 {
        0
    } else if s[0] == c {
        0
    } else {
        1 + first_index(s.drop_first(), c)
    }
}

proof fn lemma_first_index_is(s: Seq<char>, c: char, i: int)
    requires
        0 <= i <= s.len(),
        i < s.len() ==> s[i] == c,
        forall|j: int| 0 <= j < i ==> s[j] != c,
        i == s.len() ==> forall|j: int| 0 <= j < s.len() ==> s[j] != c,
    ensures
        first_index(s, c) == i,
    decreases s.len(),
{
    if s.len() > 0 && s[0] != c {
        lemma_first_index_is(s.drop_first(), c, i - 1);
    }
}

/// The pieces of `s` between occurrences of `sep`: always at least one
/// piece, and one more piece than separators.
pub open spec fn split_on(s: Seq<char>, sep: char) -> Seq<Seq<char>>
    decreases s.len(),
{
    let i = first_index(s, sep);
    if 0 <= i && i < s.len() {
        seq![s.take(i)] + split_on(s.skip(i + 1), sep)
    } else {
        seq![s]
    }
}

/// The key/value pairs of a piece list: each piece splits at its first
/// `=`; a piece with no `=` ends the pairing there, leaving the rest
/// of the input unconsumed.
pub open spec fn pieces_pairs(pieces: Seq<Seq<char>>) -> Seq<(Seq<char>, Seq<char>)>
    decreases pieces.len(),
{
    if pieces.len() == 0 {
        Seq::empty()
    } else {
        let p = pieces[0];
        let i = first_index(p, '=');
        if 0 <= i && i < p.len() {
            seq![(p.take(i), p.skip(i + 1))] + pieces_pairs(pieces.drop_first())
        } else {
            Seq::empty()
        }
    }
}

/// The raw key/value pairs of a query string: pieces between `&`,
/// each split at its first `=`.
pub open spec fn query_pairs(s: Seq<char>) -> Seq<(Seq<char>, Seq<char>)> {
    pieces_pairs(split_on(s, '&'))
}

/// The position of the first occurrence of `c` in `v` at or after
/// `from`, or the length of `v`.
#[verifier::loop_isolation(false)]
fn find_char_from(v: &Vec<char>, from: usize, c: char) -> (r: usize)
    requires
        from <= v@.len(),
    ensures
        from <= r <= v@.len(),
        r - from == first_index(v@.skip(from as int), c),
{
    let mut idx: usize = from;
    while idx < v.len()
        invariant
            from <= idx <= v@.len(),
            forall|j: int| from <= j < idx ==> v@[j] != c,
        decreases v@.len() - idx,
    {
        if v[idx] == c {
            proof {
                lemma_first_index_is(v@.skip(from as int), c, idx - from);
            }
            return idx;
        }
        idx = idx + 1;
    }
    proof {
        lemma_first_index_is(v@.skip(from as int), c, idx - from);
    }
    idx
}

/// A copy of the characters of `v` from `a` up to `b`.
#[verifier::loop_isolation(false)]
fn subrange_vec(v: &Vec<char>, a: usize, b: usize) -> (r: Vec<char>)
    requires
        a <= b <= v@.len(),
    ensures
        r@ == v@.subrange(a as int, b as int),
{
    let mut out: Vec<char> = Vec::new();
    let mut idx: usize = a;
    while idx < b
        invariant
            a <= idx <= b,
            out@ == v@.subrange(a as int, idx as int),
        decreases b - idx,
    {
        out.push(v[idx]);
        proof {
            assert(v@.subrange(a as int, idx as int).push(v@[idx as int]) =~= v@.subrange(
                a as int,
                idx as int + 1,
            ));
        }
        idx = idx + 1;
    }
    out
}

/// The model of a list of character vectors.
pub open spec fn seqs_model(vs: Seq<Vec<char>>) -> Seq<Seq<char>> {
    vs.map_values(|x: Vec<char>| x@)
}

/// Split the characters into the pieces between separators.
#[verifier::loop_isolation(false)]
fn split_chars(v: &Vec<char>, sep: char) -> (r: Vec<Vec<char>>)
    ensures
        seqs_model(r@) == split_on(v@, sep),
{
    let mut out: Vec<Vec<char>> = Vec::new();
    let mut start: usize = 0;
    proof {
        assert(v@.skip(0) =~= v@);
    }
    loop
        invariant
            start <= v@.len(),
            split_on(v@, sep) == seqs_model(out@) + split_on(v@.skip(start as int), sep),
        decreases v@.len() - start + 1,
    {
        let i = find_char_from(v, start, sep);
        let piece = subrange_vec(v, start, i);
        let ghost tail = v@.skip(start as int);
        proof {
            assert(tail.take(i - start) =~= v@.subrange(start as int, i as int));
        }
        if i == v.len() {
            proof {
                assert(first_index(tail, sep) == tail.len());
                assert(split_on(tail, sep) == seq![tail]);
                assert(tail =~= v@.subrange(start as int, i as int));
            }
            out.push(piece);
            proof {
                assert(seqs_model(out@) =~= seqs_model(out@.drop_last()) + seq![tail]);
                assert(split_on(v@, sep) =~= seqs_model(out@));
            }
            return out;
        }
        out.push(piece);
        proof {
            assert(first_index(tail, sep) == i - start);
            assert(i - start < tail.len());
            assert(tail.skip(i - start + 1) =~= v@.skip(i as int + 1));
            assert(split_on(tail, sep) == seq![tail.take(i - start)] + split_on(
                v@.skip(i as int + 1),
                sep,
            ));
            assert(seqs_model(out@) =~= seqs_model(out@.drop_last()) + seq![tail.take(
                i - start,
            )]);
            assert(seqs_model(out@.drop_last()) + split_on(tail, sep) =~= seqs_model(out@)
                + split_on(v@.skip(i as int + 1), sep));
        }
        start = i + 1;
    }
}

/// Turn the piece list into key/value pairs, stopping at the first
/// piece that carries no `=`.
#[verifier::loop_isolation(false)]
fn pieces_to_pairs(pieces: &Vec<Vec<char>>) -> (r: Vec<(Vec<char>, Vec<char>)>)
    ensures
        r@.map_values(|p: (Vec<char>, Vec<char>)| (p.0@, p.1@)) == pieces_pairs(
            seqs_model(pieces@),
        ),
{
    let mut out: Vec<(Vec<char>, Vec<char>)> = Vec::new();
    let mut idx: usize = 0;
    proof {
        assert(seqs_model(pieces@).skip(0) =~= seqs_model(pieces@));
    }
    while idx < pieces.len()
        invariant
            idx <= pieces@.len(),
            pieces_pairs(seqs_model(pieces@)) == out@.map_values(
                |p: (Vec<char>, Vec<char>)| (p.0@, p.1@),
            ) + pieces_pairs(seqs_model(pieces@).skip(idx as int)),
        decreases pieces@.len() - idx,
    {
        let ghost tail = seqs_model(pieces@).skip(idx as int);
        proof {
            assert(tail[0] == pieces@[idx as int]@);
        }
        let piece = &pieces[idx];
        let i = find_char_from(piece, 0, '=');
        proof {
            assert(piece@.skip(0) =~= piece@);
        }
        if i == piece.len() {
            proof {
                assert(first_index(tail[0], '=') == tail[0].len());
                assert(pieces_pairs(tail) == Seq::<(Seq<char>, Seq<char>)>::empty());
                assert(out@.map_values(|p: (Vec<char>, Vec<char>)| (p.0@, p.1@))
                    + Seq::<(Seq<char>, Seq<char>)>::empty() =~= out@.map_values(
                    |p: (Vec<char>, Vec<char>)| (p.0@, p.1@),
                ));
            }
            return out;
        }
        let key = subrange_vec(piece, 0, i);
        let val = subrange_vec(piece, i + 1, piece.len());
        out.push((key, val));
        proof {
            assert(first_index(tail[0], '=') == i as int);
            assert(tail[0].take(i as int) =~= piece@.subrange(0, i as int));
            assert(tail[0].skip(i as int + 1) =~= piece@.subrange(i as int + 1, piece@.len() as int));
            assert(tail.drop_first() =~= seqs_model(pieces@).skip(idx as int + 1));
            assert(pieces_pairs(tail) == seq![(tail[0].take(i as int), tail[0].skip(i as int + 1))]
                + pieces_pairs(tail.drop_first()));
            assert(out@.map_values(|p: (Vec<char>, Vec<char>)| (p.0@, p.1@)) =~= out@.drop_last()
                .map_values(|p: (Vec<char>, Vec<char>)| (p.0@, p.1@)) + seq![(tail[0].take(i as int),
                tail[0].skip(i as int + 1))]);
        }
        idx = idx + 1;
    }
    proof {
        assert(seqs_model(pieces@).skip(idx as int) =~= Seq::empty());
        assert(pieces_pairs(Seq::empty()) == Seq::<(Seq<char>, Seq<char>)>::empty());
        assert(out@.map_values(|p: (Vec<char>, Vec<char>)| (p.0@, p.1@))
            + Seq::<(Seq<char>, Seq<char>)>::empty() =~= out@.map_values(
            |p: (Vec<char>, Vec<char>)| (p.0@, p.1@),
        ));
    }
    out
}

/// The value of one hexadecimal digit character, if it is one.
fn hex_value(c: char) -> (r: Option<u8>)
    ensures
        r is Some <==> is_hex_digit(c),
        r matches Some(b) ==> b == hex_val(c),
{
    let u = c as u32;
    if 48 <= u && u <= 57 {
        Some((u - 48) as u8)
    } else if 97 <= u && u <= 102 {
        Some((u - 97 + 10) as u8)
    } else if 65 <= u && u <= 70 {
        Some((u - 65 + 10) as u8)
    } else {
        None
    }
}

/// Percent-decode one component of a query string.
#[verifier::loop_isolation(false)]
fn decode_component(v: &Vec<char>) -> (r: Option<String>)
    ensures
        match decode_chars(v@) {
            Some(cs) => r matches Some(s) && s@ == cs,
            None => r is None,
        },
{
    let mut bytes: Vec<u8> = Vec::new();
    let mut idx: usize = 0;
    proof {
        assert(v@.skip(0) =~= v@);
    }
    while idx < v.len()
        invariant
            idx <= v@.len(),
            match pct_bytes(v@.skip(idx as int)) {
                Some(rest) => pct_bytes(v@) == Some(bytes@ + rest),
                None => pct_bytes(v@) is None,
            },
        decreases v@.len() - idx,
    {
        let ghost suffix = v@.skip(idx as int);
        proof {
            assert(suffix[0] == v@[idx as int]);
        }
        let c = v[idx];
        if c == '%' {
            if v.len() - idx < 3 {
                proof {
                    assert(suffix.len() < 3);
                    assert(pct_bytes(suffix) is None);
                }
                return None;
            }
            let h1 = hex_value(v[idx + 1]);
            let h2 = hex_value(v[idx + 2]);
            proof {
                assert(suffix[1] == v@[idx as int + 1]);
                assert(suffix[2] == v@[idx as int + 2]);
            }
            match (h1, h2) {
                (Some(a), Some(b)) => {
                    let ghost pre_bytes = bytes@;
                    let ghost rest3 = pct_bytes(v@.skip(idx as int + 3));
                    bytes.push(a * 16 + b);
                    proof {
                        assert(suffix.skip(3) =~= v@.skip(idx as int + 3));
                        match rest3 {
                            Some(r3) => {
                                assert(pct_bytes(suffix) == Some(
                                    seq![(hex_val(suffix[1]) * 16 + hex_val(suffix[2])) as u8]
                                        + r3,
                                ));
                                assert(pre_bytes + (seq![(hex_val(suffix[1]) * 16 + hex_val(
                                    suffix[2],
                                )) as u8] + r3) =~= bytes@ + r3);
                            },
                            None => {
                                assert(pct_bytes(suffix) is None);
                            },
                        }
                    }
                    idx = idx + 3;
                },
                _ => {
                    proof {
                        assert(pct_bytes(suffix) is None);
                    }
                    return None;
                },
            }
        } else {
            let ghost pre_bytes = bytes@;
            let ghost rest1 = pct_bytes(v@.skip(idx as int + 1));
            let mut cb = char_utf8_bytes(c);
            bytes.append(&mut cb);
            proof {
                assert(suffix.skip(1) =~= v@.skip(idx as int + 1));
                match rest1 {
                    Some(r1) => {
                        assert(pct_bytes(suffix) == Some(encode_scalar(suffix[0] as u32) + r1));
                        assert(pre_bytes + (encode_scalar(suffix[0] as u32) + r1) =~= bytes@
                            + r1);
                    },
                    None => {
                        assert(pct_bytes(suffix) is None);
                    },
                }
            }
            idx = idx + 1;
        }
    }
    proof {
        assert(v@.skip(idx as int) =~= Seq::empty());
        assert(pct_bytes(v@.skip(idx as int)) == Some(Seq::<u8>::empty()));
        assert(bytes@ + Seq::<u8>::empty() =~= bytes@);
    }
    match string_from_utf8(bytes) {
        Some(s) => {
            proof {
                vstd::utf8::encode_utf8_decode_utf8(s@);
            }
            Some(s)
        },
        None => None,
    }
}

/// The position of the first entry carrying key `k`, or the length of
/// the map when no entry does.
pub open spec fn assoc_key_index(m: Seq<(Seq<char>, Seq<Seq<char>>)>, k: Seq<char>) -> int
    decreases m.len(),
{
    if m.len() == 0 {
        0
    } else if m[0].0 == k {
        0
    } else {
        1 + assoc_key_index(m.drop_first(), k)
    }
}

/// The values under key `k`, when some entry carries it.
pub open spec fn assoc_lookup(m: Seq<(Seq<char>, Seq<Seq<char>>)>, k: Seq<char>) -> Option<
    Seq<Seq<char>>,
> {
    let i = assoc_key_index(m, k);
    if 0 <= i && i < m.len() {
        Some(m[i].1)
    } else {
        None
    }
}

/// Add one value under key `k`: append to the entry that carries the
/// key, or add a fresh entry at the end.
pub open spec fn assoc_push(
    m: Seq<(Seq<char>, Seq<Seq<char>>)>,
    k: Seq<char>,
    v: Seq<char>,
) -> Seq<(Seq<char>, Seq<Seq<char>>)> {
    let i = assoc_key_index(m, k);
    if 0 <= i && i < m.len() {
        m.update(i, (m[i].0, m[i].1.push(v)))
    } else {
        m.push((k, seq![v]))
    }
}

proof fn lemma_assoc_key_index_is(m: Seq<(Seq<char>, Seq<Seq<char>>)>, k: Seq<char>, i: int)
    requires
        0 <= i <= m.len(),
        i < m.len() ==> m[i].0 == k,
        forall|j: int| 0 <= j < i ==> m[j].0 != k,
        i == m.len() ==> forall|j: int| 0 <= j < m.len() ==> m[j].0 != k,
    ensures
        assoc_key_index(m, k) == i,
    decreases m.len(),
{
    if m.len() > 0 && m[0].0 != k {
        lemma_assoc_key_index_is(m.drop_first(), k, i - 1);
    }
}

/// Fold raw pairs into the map, left to right: both sides of a pair
/// are percent-decoded, a pair whose key fails to decode is left out,
/// and a pair whose value fails to decode ends the fold.
pub open spec fn fold_pairs(
    acc: Seq<(Seq<char>, Seq<Seq<char>>)>,
    pairs: Seq<(Seq<char>, Seq<char>)>,
) -> Seq<(Seq<char>, Seq<Seq<char>>)>
    decreases pairs.len(),
{
    if pairs.len() == 0 {
        acc
    } else {
        match (decode_chars(pairs[0].0), decode_chars(pairs[0].1)) {
            (Some(dk), Some(dv)) => fold_pairs(assoc_push(acc, dk, dv), pairs.drop_first()),
            (None, Some(dv)) => fold_pairs(acc, pairs.drop_first()),
            _ => acc,
        }
    }
}

/// What a form string parses to: its pairs folded into a map, or
/// nothing when the value of some pair fails to decode.
pub open spec fn form_model(s: Seq<char>) -> Option<Seq<(Seq<char>, Seq<Seq<char>>)>> {
    let pairs = query_pairs(s);
    if forall|i: int| 0 <= i < pairs.len() ==> decode_chars((#[trigger] pairs[i]).1) is Some {
        Some(fold_pairs(Seq::empty(), pairs))
    } else {
        None
    }
}

/// Outcome of parsing a form string: the parsed map, or the raw string
/// when the input was malformed.
#[derive(Debug)]
pub enum FormResult<T> {
    Parsed(T),
    Invalid(String),
}

/// Every entry of the list holds at least one value, and a list-holding
/// entry holds at least two.
pub open spec fn entries_well_formed(entries: Seq<(String, FormValues<String>)>) -> bool {
    forall|i: int|
        0 <= i < entries.len() ==> {
            &&& (#[trigger] entries[i]).1.value is Some
            &&& (entries[i].1.value->0 is Many ==> entries[i].1.value->0.values().len() >= 2)
        }
}

/// The model of a map's entry list: each key with its values, in
/// insertion order.
pub open spec fn entries_model(entries: Seq<(String, FormValues<String>)>) -> Seq<
    (Seq<char>, Seq<Seq<char>>),
> {
    entries.map_values(
        |e: (String, FormValues<String>)| (e.0@, e.1.values().map_values(|s: String| s@)),
    )
}

/// Map from key to the one or many values the key took in a form
/// string, keeping the raw string for diagnostics.
#[derive(Debug)]
pub struct FormHashMap {
    pub form_string: String,
    pub entries: Vec<(String, FormValues<String>)>,
}

impl FormHashMap {
    /// The mapping this map holds.
    pub open spec fn model(self) -> Seq<(Seq<char>, Seq<Seq<char>>)> {
        entries_model(self.entries@)
    }

    /// Every entry holds at least one value, and one that holds a list
    /// holds at least two: parsing creates an entry to hold one value
    /// and only makes a list by adding a second. A single-valued key
    /// therefore always shows as `One`, a repeated key as `Many`.
    pub open spec fn well_formed(self) -> bool {
        entries_well_formed(self.entries@)
    }

    /// The raw form string this map was parsed from.
    pub fn raw_form_string(&self) -> (r: &str)
        ensures
            r@ == self.form_string@,
    {
        self.form_string.as_str()
    }

    /// The value (or values) under `key`, if the key appeared: `One`
    /// exactly when the key took a single value.
    #[verifier::loop_isolation(false)]
    pub fn get<'a>(&'a self, key: &str) -> (r: Option<&'a OneOrMany<String>>)
        ensures
            self.well_formed() ==> match assoc_lookup(self.model(), key@) {
                Some(vals) => r matches Some(v) && v.values().map_values(|s: String| s@)
                    == vals && ((*v is One) <==> vals.len() == 1),
                None => r is None,
            },
    {
        let mut idx: usize = 0;
        while idx < self.entries.len()
            invariant
                idx <= self.entries@.len(),
                forall|j: int| 0 <= j < idx ==> (#[trigger] self.entries@[j]).0@ != key@,
            decreases self.entries@.len() - idx,
        {
            proof {
                assert(self.model()[idx as int] == (self.entries@[idx as int].0@, self.entries@[
                    idx as int].1.values().map_values(|s: String| s@)));
            }
            if crate::json::str_eq_str(self.entries[idx].0.as_str(), key) {
                proof {
                    assert forall|j: int| 0 <= j < idx implies (#[trigger] self.model()[j]).0
                        != key@ by {
                        assert(self.model()[j].0 == self.entries@[j].0@);
                    }
                    lemma_assoc_key_index_is(self.model(), key@, idx as int);
                }
                match self.entries[idx].1.get() {
                    Some(v) => {
                        return Some(v);
                    },
                    None => {
                        return None;
                    },
                }
            }
            idx = idx + 1;
        }
        proof {
            assert forall|j: int| 0 <= j < self.model().len() implies (#[trigger] self.model()[
                j]).0 != key@ by {
                assert(self.model()[j].0 == self.entries@[j].0@);
            }
            lemma_assoc_key_index_is(self.model(), key@, self.model().len() as int);
        }
        None
    }
}

/// Fold one decoded pair into the entry list.
#[verifier::loop_isolation(false)]
fn push_entry(entries: &mut Vec<(String, FormValues<String>)>, key: String, val: String)
    requires
        entries_well_formed(old(entries)@),
    ensures
        entries_model(final(entries)@) == assoc_push(entries_model(old(entries)@), key@, val@),
        entries_well_formed(final(entries)@),
{
    let ghost m = entries_model(entries@);
    let mut idx: usize = 0;
    while idx < entries.len()
        invariant
            idx <= entries@.len(),
            *entries == *old(entries),
            forall|j: int| 0 <= j < idx ==> (#[trigger] entries@[j]).0@ != key@,
        decreases entries@.len() - idx,
    {
        proof {
            assert(m[idx as int] == (entries@[idx as int].0@, entries@[idx as int
                ].1.values().map_values(|s: String| s@)));
        }
        if crate::json::str_eq_str(entries[idx].0.as_str(), key.as_str()) {
            proof {
                assert forall|j: int| 0 <= j < idx implies (#[trigger] m[j]).0 != key@ by {
                    assert(m[j].0 == entries@[j].0@);
                }
                lemma_assoc_key_index_is(m, key@, idx as int);
            }
            entries[idx].1.push(val);
            proof {
                assert(entries_model(entries@) =~~= assoc_push(m, key@, val@));
            }
            return ;
        }
        idx = idx + 1;
    }
    proof {
        assert forall|j: int| 0 <= j < m.len() implies (#[trigger] m[j]).0 != key@ by {
            assert(m[j].0 == entries@[j].0@);
        }
        lemma_assoc_key_index_is(m, key@, m.len() as int);
    }
    let mut fresh: FormValues<String> = FormValues::new();
    fresh.push(val);
    entries.push((key, fresh));
    proof {
        assert(fresh.values() =~= seq![val]);
        assert(entries_model(entries@) =~~= assoc_push(m, key@, val@));
    }
}

impl FormHashMap {
    /// Parse a url-encoded form or query string into a map from key to
    /// its values, in encounter order. A value whose percent escapes
    /// are malformed rejects the whole input, handing the raw string
    /// back; a pair whose key is malformed is left out; a piece with
    /// no `=` ends parsing there.
    #[verifier::loop_isolation(false)]
    pub fn new(form_string: String) -> (r: FormResult<FormHashMap>)
        ensures
            r is Parsed <==> form_model(form_string@) is Some,
            r matches FormResult::Parsed(m) ==> m.model() == form_model(form_string@)->0
                && m.form_string@ == form_string@ && m.well_formed(),
            r matches FormResult::Invalid(s) ==> s@ == form_string@ && form_model(
                form_string@,
            ) is None,
    {
        let chars = str_chars(form_string.as_str());
        let pieces = split_chars(&chars, '&');
        let pairs = pieces_to_pairs(&pieces);
        let ghost qp = query_pairs(form_string@);
        proof {
            assert(qp == pairs@.map_values(|p: (Vec<char>, Vec<char>)| (p.0@, p.1@)));
        }
        let mut idx: usize = 0;
        while idx < pairs.len()
            invariant
                idx <= pairs@.len(),
                forall|j: int| 0 <= j < idx ==> decode_chars((#[trigger] qp[j]).1) is Some,
            decreases pairs@.len() - idx,
        {
            proof {
                assert(qp[idx as int] == (pairs@[idx as int].0@, pairs@[idx as int].1@));
            }
            match decode_component(&pairs[idx].1) {
                Some(_) => {},
                None => {
                    return FormResult::Invalid(form_string);
                },
            }
            idx = idx + 1;
        }
        assert(form_model(form_string@) == Some(fold_pairs(Seq::empty(), qp)));
        let mut entries: Vec<(String, FormValues<String>)> = Vec::new();
        let mut k: usize = 0;
        proof {
            assert(qp.skip(0) =~= qp);
            assert(entries_model(entries@) =~= Seq::empty());
        }
        while k < pairs.len()
            invariant
                k <= pairs@.len(),
                fold_pairs(entries_model(entries@), qp.skip(k as int)) == fold_pairs(
                    Seq::empty(),
                    qp,
                ),
                entries_well_formed(entries@),
                forall|j: int| 0 <= j < qp.len() ==> decode_chars((#[trigger] qp[j]).1) is Some,
            decreases pairs@.len() - k,
        {
            let ghost tail = qp.skip(k as int);
            proof {
                assert(qp[k as int] == (pairs@[k as int].0@, pairs@[k as int].1@));
                assert(tail[0] == qp[k as int]);
                assert(tail.drop_first() =~= qp.skip(k as int + 1));
            }
            let dk = decode_component(&pairs[k].0);
            let dv = decode_component(&pairs[k].1);
            match (dk, dv) {
                (Some(key), Some(val)) => {
                    push_entry(&mut entries, key, val);
                },
                (None, Some(_)) => {},
                (_, None) => {
                    proof {
                        assert(decode_chars(qp[k as int].1) is Some);
                        assert(false);
                    }
                },
            }
            k = k + 1;
        }
        proof {
            assert(qp.skip(k as int) =~= Seq::empty());
        }
        FormResult::Parsed(FormHashMap { form_string, entries })
    }
}

/// The default cap on a request body, by content type.
pub open spec fn default_size_limit(json_content: bool) -> u64 {
    if json_content {
        1048576
    } else {
        32768
    }
}

/// The cap under which a request body is read, by content type: a
/// configured non-negative value where the configuration holds one,
/// else 32 KiB for url-encoded bodies and 1 MiB for JSON bodies; a
/// missing or negative configured value falls back to the default.
pub fn body_size_limit(json_content: bool, configured: Option<i64>) -> (r: u64)
    ensures
        configured matches Some(n) ==> (if n >= 0 {
            r == n as u64
        } else {
            r == default_size_limit(json_content)
        }),
        configured is None ==> r == default_size_limit(json_content),
{
    match configured {
        Some(n) if n >= 0 => n as u64,
        _ => if json_content {
            1048576
        } else {
            32768
        },
    }
}

/// Map built from a JSON object body: each top-level key with its
/// value, which is not flattened any further.
#[derive(Debug)]
pub struct JsonFormMap {
    pub form_string: String,
    pub map: JsonValue,
}

impl JsonFormMap {
    /// The object this map holds.
    pub open spec fn model(self) -> Json {
        self.map@
    }

    /// The raw body this map was parsed from.
    pub fn raw_form_string(&self) -> (r: &str)
        ensures
            r@ == self.form_string@,
    {
        self.form_string.as_str()
    }

    /// The value under `key`, if the object carries the key.
    pub fn get<'a>(&'a self, key: &str) -> (r: Option<&'a JsonValue>)
        ensures
            match json_lookup(self.model(), key@) {
                Some(j) => r matches Some(v) && v@ == j,
                None => r is None,
            },
    {
        self.map.get(key)
    }

    /// Parse a JSON body into the map of its top-level entries. A body
    /// that is no JSON document fails with the parse failure as cause;
    /// one that is a document but no object fails with a plain message;
    /// either failure's description names the raw body.
    pub fn from_json_data(form_string: String) -> (r: Result<JsonFormMap, GenericError>)
        ensures
            r is Ok <==> (json_of_text(form_string@) matches Some(j) && j is Obj),
            r matches Ok(m) ==> (json_of_text(form_string@) matches Some(j) && m.model() == j
                && m.form_string@ == form_string@),
            r matches Err(e) ==> (match json_of_text(form_string@) {
                None => e matches GenericError::Compound(p) && *p.1 is Serde && p.0@
                    == "Error parsing form string: "@ + form_string@ + " caused by "@
                    + (*p.1).spec_description(),
                Some(_) => e matches GenericError::Basic(s) && s@ == "Invalid JSON data: "@
                    + form_string@,
            }),
    {
        match JsonValue::parse(form_string.as_str()) {
            Ok(v) => {
                if v.is_object() {
                    Ok(JsonFormMap { form_string, map: v })
                } else {
                    let mut text = "Invalid JSON data: ".to_owned();
                    text.append(form_string.as_str());
                    Err(GenericError::Basic(text))
                }
            },
            Err(e) => {
                let mut text = "Error parsing form string: ".to_owned();
                text.append(form_string.as_str());
                Err(GenericError::new_compound(text.as_str(), e))
            },
        }
    }
}

} // verus!
