mod chars;
pub mod error;
pub mod form;
pub mod json;
pub mod json_text;
pub mod one_or_many;
pub mod pushable;
pub mod response_json;
pub mod util;

pub use error::GenericError;
pub use form::{body_size_limit, FormHashMap, FormResult, FormValues, JsonFormMap};
pub use json::{Json, JsonValue};
pub use one_or_many::OneOrMany;
pub use pushable::Pushable;
pub use response_json::{Envelope, IsResponseJSON, ResponseJSON};
pub use util::ContainsKeys;
