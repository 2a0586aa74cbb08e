//! JSON texts, read with `serde_json`.

use crate::document::{Document, Field, Item, Member, Pair};
use serde_json::Value as Json;
use vstd::prelude::*;

verus! {

#[verifier::external_type_specification]
#[verifier::external_body]
pub struct ExJson(serde_json::Value);

/// What `serde_json::from_str` makes of a text: `Malformed` where the text
/// is no JSON, `NotAnObject` where it is JSON and no object, and otherwise
/// the members of the object in the order in which the parser lists them,
/// each value as far as a manifest is read.
pub uninterp spec fn json_document(text: Seq<char>) -> Document;

/// A value within a list or a table.
///
/// Trusted: this is `serde_json::Value::as_str`, which gives the text of a
/// JSON string and nothing for any other value. Nothing is claimed of the
/// result.
#[verifier::external_body]
fn item_of(v: &serde_json::Value) -> Item {
    match v.as_str() {
        Some(s) => Item::Text(s.to_owned()),
        None => Item::Other,
    }
}

/// The value of a member.
///
/// Trusted: this tells the variants of `serde_json::Value` apart, one for
/// one; a number is `Whole` where `serde_json::Number::as_i64` gives an
/// integer and `Fraction` otherwise, and a list and a table keep the order
/// of their iterators. Nothing is claimed of the result.
#[verifier::external_body]
fn field_of(v: &serde_json::Value) -> Field {
    match v {
        Json::Null => Field::Null,
        Json::String(s) => Field::Text(s.clone()),
        Json::Bool(b) => Field::Truth(*b),
        Json::Number(n) => n.as_i64().map_or(Field::Fraction, Field::Whole),
        Json::Array(a) => Field::List(a.iter().map(item_of).collect()),
        Json::Object(o) => Field::Table(
            o.iter().map(|(k, v)| Pair { key: k.clone(), value: item_of(v) }).collect(),
        ),
    }
}

/// Parses a text as JSON.
///
/// Trusted: this is `serde_json::from_str` at the type `serde_json::Value`,
/// whose result depends on the text alone; the contract gives what is made
/// of it its name. A failure becomes `Malformed`, a value that is no object
/// `NotAnObject`, and of an object each member is taken in the order of
/// `serde_json::Map::iter`.
#[verifier::external_body]
pub(crate) fn parse_document(text: &str) -> (out: Document)
    ensures
        out == json_document(text@),
{
    match serde_json::from_str::<Json>(text) {
        Err(_) => Document::Malformed,
        Ok(Json::Object(m)) => Document::Object(
            m.iter().map(|(k, v)| Member { key: k.clone(), value: field_of(v) }).collect(),
        ),
        Ok(_) => Document::NotAnObject,
    }
}

} // verus!
