//! YAMCS messages.

use vstd::prelude::*;

use crate::float::{Float32, Float64};
use crate::json::JsonValue;
use crate::string_map::StringMap;

verus! {

/// A name, with the namespace that it belongs to.
#[derive(Debug, Clone)]
pub struct NamedObjectId {
    pub name: String,
    pub namespace: Option<String>,
}

/// Severity of an event.
#[derive(Debug, Clone, Copy, PartialEq, Eq, Structural)]
pub enum EventSeverity {
    Info,
    Watch,
    Warning,
    Distress,
    Critical,
    Severe,
    /// Superseded by the other severities.
    Error,
}

/// An event.
#[derive(Debug, Clone)]
pub struct Event {
    pub source: String,
    /// Generation time, ISO 8601
    pub generation_time: String,
    pub event_type: String,
    pub seq_number: i64,
    pub message: String,
    pub severity: EventSeverity,
    pub extra: Option<StringMap<String>>,
}

/// Definition of a parameter.
#[derive(Debug, Clone)]
pub struct Parameter {
    pub parameter_type: Option<ParameterType>,
}

/// Type of a parameter.
#[derive(Debug, Clone)]
pub struct ParameterType {
    pub alias: Vec<NamedObjectId>,
    /// Members of an aggregate type.
    pub member: Option<Vec<ParameterMember>>,
}

/// Member of an aggregate parameter type.
#[derive(Debug, Clone)]
pub struct ParameterMember {
    pub name: String,
    pub alias: Vec<NamedObjectId>,
}

/// Names and values of the members of an aggregate, side by side.
#[derive(Debug)]
pub struct AggregateValue {
    pub name: Vec<String>,
    pub value: Vec<Value>,
}

/// A parameter or argument value.
#[derive(Debug)]
pub enum Value {
    Float { float_value: Float32 },
    Double { double_value: Float64 },
    Uint32 { uint32_value: u32 },
    Sint32 { sint32_value: i32 },
    Uint64 { uint64_value: u64 },
    Sint64 { sint64_value: i64 },
    Boolean { boolean_value: bool },
    String { string_value: String },
    /// Bytes, in base64.
    Binary { binary_value: String },
    Timestamp { timestamp_value: i64 },
    Aggregate { aggregate_value: AggregateValue },
    Array { array_value: Vec<Value> },
    Enumerated { string_value: String },
    NoValue,
}

/// What a YAMCS value says.
pub enum ValueView {
    Float(Float32),
    Double(Float64),
    Uint32(u32),
    Sint32(i32),
    Uint64(u64),
    Sint64(i64),
    Boolean(bool),
    String(Seq<char>),
    Binary(Seq<char>),
    Timestamp(i64),
    Aggregate { name: Seq<Seq<char>>, value: Seq<ValueView> },
    Array(Seq<ValueView>),
    Enumerated(Seq<char>),
    NoValue,
}

/// A list of strings, as text.
pub open spec fn texts(strings: Seq<String>) -> Seq<Seq<char>> {
    Seq::new(strings.len(), |i: int| strings[i]@)
}

impl Value {
    /// What the value says.
    pub open spec fn view(&self) -> ValueView
        decreases self,
    {
        match *self {
            Value::Float { float_value } => ValueView::Float(float_value),
            Value::Double { double_value } => ValueView::Double(double_value),
            Value::Uint32 { uint32_value } => ValueView::Uint32(uint32_value),
            Value::Sint32 { sint32_value } => ValueView::Sint32(sint32_value),
            Value::Uint64 { uint64_value } => ValueView::Uint64(uint64_value),
            Value::Sint64 { sint64_value } => ValueView::Sint64(sint64_value),
            Value::Boolean { boolean_value } => ValueView::Boolean(boolean_value),
            Value::String { string_value } => ValueView::String(string_value@),
            Value::Binary { binary_value } => ValueView::Binary(binary_value@),
            Value::Timestamp { timestamp_value } => ValueView::Timestamp(timestamp_value),
            Value::Aggregate { aggregate_value } => ValueView::Aggregate {
                name: texts(aggregate_value.name@),
                value: Seq::new(
                    aggregate_value.value@.len(),
                    |i: int|
                        if 0 <= i < aggregate_value.value@.len() {
                            aggregate_value.value@[i].view()
                        } else {
                            arbitrary()
                        },
                ),
            },
            Value::Array { array_value } => ValueView::Array(
                Seq::new(
                    array_value@.len(),
                    |i: int|
                        if 0 <= i < array_value@.len() {
                            array_value@[i].view()
                        } else {
                            arbitrary()
                        },
                ),
            ),
            Value::Enumerated { string_value } => ValueView::Enumerated(string_value@),
            Value::NoValue => ValueView::NoValue,
        }
    }
}

/// A parameter value as it was reported.
#[derive(Debug)]
pub struct ParameterValue {
    /// The name of the parameter, where it is known.
    pub id: Option<NamedObjectId>,
    /// Generation time, ISO 8601
    pub generation_time: String,
    pub eng_value: Option<Value>,
}

/// Options for issuing a command.
#[derive(Debug)]
pub struct IssueCommandOptions {
    pub args: Option<StringMap<JsonValue>>,
    pub origin: Option<String>,
    pub comment: Option<String>,
}

/// A YAMCS instance.
#[derive(Debug, Clone)]
pub struct Instance {
    pub name: String,
}

} // verus!
