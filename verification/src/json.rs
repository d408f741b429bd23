//! JSON documents.

use vstd::prelude::*;

use crate::float::Float64;
use crate::string_map::{lemma_entry_is_smaller, mapped, StringMap};

verus! {

/// A JSON number.
#[derive(Debug, Clone, Copy, PartialEq, Eq, Structural)]
pub enum JsonNumber {
    Signed(i64),
    Unsigned(u64),
    Float(Float64),
}

/// A JSON document.
#[derive(Debug)]
pub enum JsonValue {
    Null,
    Bool(bool),
    Number(JsonNumber),
    String(String),
    Array(Vec<JsonValue>),
    Object(StringMap<JsonValue>),
}

/// What a JSON document says. An integer is the same number whatever it was made from.
pub enum JsonView {
    Null,
    Bool(bool),
    Integer(int),
    Float(Float64),
    String(Seq<char>),
    Array(Seq<JsonView>),
    Object(Seq<(Seq<char>, JsonView)>),
}

impl JsonValue {
    /// What the document says.
    pub open spec fn view(&self) -> JsonView
        decreases self,
    {
        match *self {
            JsonValue::Null => JsonView::Null,
            JsonValue::Bool(b) => JsonView::Bool(b),
            JsonValue::Number(JsonNumber::Signed(i)) => JsonView::Integer(i as int),
            JsonValue::Number(JsonNumber::Unsigned(u)) => JsonView::Integer(u as int),
            JsonValue::Number(JsonNumber::Float(f)) => JsonView::Float(f),
            JsonValue::String(s) => JsonView::String(s@),
            JsonValue::Array(items) => JsonView::Array(
                Seq::new(
                    items@.len(),
                    |i: int|
                        if 0 <= i < items@.len() {
                            items@[i].view()
                        } else {
                            arbitrary()
                        },
                ),
            ),
            JsonValue::Object(members) => JsonView::Object(
                Seq::new(
                    members@.len(),
                    |i: int|
                        if 0 <= i < members@.len() {
                            proof {
                                lemma_entry_is_smaller(members, i);
                            }
                            (members@[i].0@, members@[i].1.view())
                        } else {
                            arbitrary()
                        },
                ),
            ),
        }
    }
}

/// What the members of a JSON object say.
pub open spec fn json_members(members: StringMap<JsonValue>) -> Seq<(Seq<char>, JsonView)> {
    mapped(members.keyed(), |member: JsonValue| member.view())
}

/// What the items of a JSON array say.
pub open spec fn json_items(items: Seq<JsonValue>) -> Seq<JsonView> {
    Seq::new(items.len(), |i: int| items[i].view())
}

} // verus!
