use vstd::prelude::*;
use vstd::utf8::{encode_scalar, encode_utf8, valid_utf8};

verus! {

/// Relies on str::chars and Iterator::collect: the characters of the
/// string, in order.
#[verifier::external_body]
pub(crate) fn str_chars(s: &str) -> (r: Vec<char>)
    ensures
        r@ == s@,
{
    s.chars().collect()
}

/// Relies on char's ToString and String::into_bytes: the UTF-8
/// encoding of one character.
#[verifier::external_body]
pub(crate) fn char_utf8_bytes(c: char) -> (r: Vec<u8>)
    ensures
        r@ == encode_scalar(c as u32),
{
    c.to_string().into_bytes()
}

/// Relies on String::from_utf8: building a string from bytes succeeds
/// exactly on valid UTF-8, and the string then carries those bytes.
#[verifier::external_body]
pub(crate) fn string_from_utf8(v: Vec<u8>) -> (r: Option<String>)
    ensures
        r is Some <==> valid_utf8(v@),
        r matches Some(s) ==> encode_utf8(s@) == v@,
{
    String::from_utf8(v).ok()
}

} // verus!
