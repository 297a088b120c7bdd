//! Reading JSON payloads: what a JSON pointer designates in a document, by kind.

use vstd::prelude::*;

verus! {

/// What a JSON pointer designates in a document, as the decoders see it.
pub enum JsonSlot {
    /// The document is not one valid JSON text.
    Invalid,
    /// Nothing is found at the pointer.
    Absent,
    Null,
    Text(Seq<char>),
    Array,
    Object,
    /// A number or a boolean.
    Other,
}

/// The executable counterpart of [`JsonSlot`].
#[derive(Debug, Clone, PartialEq, Eq)]
pub enum JsonField {
    Invalid,
    Absent,
    Null,
    Text(String),
    Array,
    Object,
    Other,
}

impl View for JsonField {
    type V = JsonSlot;

    open spec fn view(&self) -> JsonSlot {
        match self {
            JsonField::Invalid => JsonSlot::Invalid,
            JsonField::Absent => JsonSlot::Absent,
            JsonField::Null => JsonSlot::Null,
            JsonField::Text(s) => JsonSlot::Text(s@),
            JsonField::Array => JsonSlot::Array,
            JsonField::Object => JsonSlot::Object,
            JsonField::Other => JsonSlot::Other,
        }
    }
}

/// What the JSON pointer `pointer` designates in the JSON document `doc`.
pub uninterp spec fn json_slot_at(doc: Seq<u8>, pointer: Seq<char>) -> JsonSlot;

/// Relies on `serde_json::from_slice` into a `serde_json::Value`, then on
/// `Value::pointer`: the kind of value that `pointer` designates in `doc`
/// (with the text of a string), `Invalid` when `doc` is not valid JSON.
#[verifier::external_body]
pub fn json_field(doc: &[u8], pointer: &str) -> (r: JsonField)
    ensures
        r@ == json_slot_at(doc@, pointer@),
{
    match serde_json::from_slice::<serde_json::Value>(doc) {
        Err(_) => JsonField::Invalid,
        Ok(v) => match v.pointer(pointer) {
            None => JsonField::Absent,
            Some(serde_json::Value::Null) => JsonField::Null,
            Some(serde_json::Value::String(s)) => JsonField::Text(s.clone()),
            Some(serde_json::Value::Array(_)) => JsonField::Array,
            Some(serde_json::Value::Object(_)) => JsonField::Object,
            Some(_) => JsonField::Other,
        },
    }
}

/// A string field that defaults to empty: absent gives empty text, a string
/// gives its text, anything else does not conform.
pub open spec fn text_or_default(s: JsonSlot) -> Option<Seq<char>> {
    match s {
        JsonSlot::Absent => Some(Seq::empty()),
        JsonSlot::Text(t) => Some(t),
        _ => None,
    }
}

/// An optional string field: absent or null gives no text, a string gives
/// its text, anything else does not conform.
pub open spec fn optional_text(s: JsonSlot) -> Option<Option<Seq<char>>> {
    match s {
        JsonSlot::Absent => Some(None),
        JsonSlot::Null => Some(None),
        JsonSlot::Text(t) => Some(Some(t)),
        _ => None,
    }
}

/// Reads a string field that defaults to empty.
pub fn take_text_or_default(f: JsonField) -> (r: Option<String>)
    ensures
        match text_or_default(f@) {
            Some(t) => r is Some && r->Some_0@ == t,
            None => r is None,
        },
{
    match f {
        JsonField::Absent => Some(String::new()),
        JsonField::Text(t) => Some(t),
        _ => None,
    }
}

/// Reads an optional string field.
pub fn take_optional_text(f: JsonField) -> (r: Option<Option<String>>)
    ensures
        match optional_text(f@) {
            Some(Some(t)) => r is Some && r->Some_0 is Some && r->Some_0->Some_0@ == t,
            Some(None) => r == Some(None::<String>),
            None => r is None,
        },
{
    match f {
        JsonField::Absent => Some(None),
        JsonField::Null => Some(None),
        JsonField::Text(t) => Some(Some(t)),
        _ => None,
    }
}

} // verus!
