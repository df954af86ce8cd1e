use vstd::prelude::*;
use vstd::string::StringExecFns;

use crate::json_text::{serde_error_string, serde_error_text};

verus! {

/// Failure tags used across the library: the transport layer, I/O, the
/// web framework, JSON (de)serialization, a compound of a description
/// with a nested cause, and a plain message. Transport, I/O and
/// framework failures reach this library only as the text that the
/// failing layer reported.
#[derive(Debug)]
pub enum GenericError {
    Hyper(String),
    Io(String),
    Rocket(String),
    Serde(serde_json::Error),
    Compound((String, Box<GenericError>)),
    Basic(String),
}

impl GenericError {
    /// The description this error reports: the held text for the tags
    /// that store one, a fixed line for the framework tag, and the
    /// outside error's message for a serialization failure.
    pub open spec fn spec_description(self) -> Seq<char> {
        match self {
            GenericError::Hyper(s) => s@,
            GenericError::Io(s) => s@,
            GenericError::Rocket(_) => "Rocket Error - not implementing Error yet"@,
            GenericError::Serde(e) => serde_error_text(e),
            GenericError::Compound(pair) => pair.0@,
            GenericError::Basic(s) => s@,
        }
    }

    /// The tag-specific message of this error.
    pub fn description(&self) -> (r: String)
        ensures
            r@ == self.spec_description(),
    {
        match self {
            GenericError::Hyper(s) => s.clone(),
            GenericError::Io(s) => s.clone(),
            GenericError::Rocket(_) => "Rocket Error - not implementing Error yet".to_owned(),
            GenericError::Serde(err) => serde_error_string(err),
            GenericError::Compound(pair) => pair.0.clone(),
            GenericError::Basic(s) => s.clone(),
        }
    }

    /// The underlying serialization failure, for the one tag that still
    /// holds its outside error value.
    pub fn serde_cause(&self) -> (r: Option<&serde_json::Error>)
        ensures
            r is Some <==> self is Serde,
            self matches GenericError::Serde(e) ==> (r matches Some(c) && *c == e),
    {
        match self {
            GenericError::Serde(e) => Some(e),
            _ => None,
        }
    }

    /// The nested cause: only a compound error carries one that this
    /// library can hand out.
    pub fn cause(&self) -> (r: Option<&GenericError>)
        ensures
            r is Some <==> self is Compound,
            self matches GenericError::Compound(pair) ==> (r matches Some(c) && *c == *pair.1),
    {
        match self {
            GenericError::Compound(pair) => Some(&pair.1),
            _ => None,
        }
    }

    /// Pair a description with a nested cause; the combined description
    /// is the given text, a fixed joining phrase, and the cause's own
    /// description.
    pub fn new_compound(desc: &str, err: GenericError) -> (r: GenericError)
        ensures
            r matches GenericError::Compound(pair) && *pair.1 == err && pair.0@ == desc@
                + " caused by "@ + err.spec_description(),
    {
        let mut description = desc.to_owned();
        description.append(" caused by ");
        let cause_text = err.description();
        description.append(cause_text.as_str());
        GenericError::Compound((description, Box::new(err)))
    }
}

impl From<String> for GenericError {
    /// A plain message becomes the basic tag.
    fn from(err: String) -> (r: GenericError) {
        GenericError::Basic(err)
    }
}

impl vstd::std_specs::convert::FromSpecImpl<String> for GenericError {
    open spec fn obeys_from_spec() -> bool {
        true
    }

    open spec fn from_spec(err: String) -> Self {
        GenericError::Basic(err)
    }
}

impl From<serde_json::Error> for GenericError {
    /// A JSON (de)serialization failure keeps its cause.
    fn from(err: serde_json::Error) -> (r: GenericError) {
        GenericError::Serde(err)
    }
}

impl vstd::std_specs::convert::FromSpecImpl<serde_json::Error> for GenericError {
    open spec fn obeys_from_spec() -> bool {
        true
    }

    open spec fn from_spec(err: serde_json::Error) -> Self {
        GenericError::Serde(err)
    }
}

} // verus!
