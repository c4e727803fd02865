//! The shapes of the `fromaddresses` parameter.

use vstd::prelude::*;

verus! {

/// A JSON value, as far as the method looks into one: anything that is neither
/// a string nor an array is turned away unread.
pub enum JsonValue {
    String(String),
    Array(Vec<JsonValue>),
    Other,
}

impl JsonValue {
    /// The text of a string.
    pub open spec fn text(self) -> Option<Seq<char>> {
        match self {
            JsonValue::String(text) => Some(text@),
            _ => None,
        }
    }
}

} // verus!
