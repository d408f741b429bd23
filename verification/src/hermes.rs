//! Hermes messages.

pub mod value;

use vstd::prelude::*;

use crate::float::Float64;
use crate::string_map::{lemma_entry_is_smaller, mapped, StringMap};

verus! {

/// Type of the numbers in a byte array.
#[derive(Debug, Clone, Copy, PartialEq, Eq, Structural)]
pub enum NumberKind {
    NumberU8,
    NumberI8,
    NumberU16,
    NumberI16,
    NumberU32,
    NumberI32,
    NumberU64,
    NumberI64,
    NumberF32,
    NumberF64,
}

/// An enumeration constant: its number and its text.
#[derive(Debug, Clone)]
pub struct EnumValue {
    pub raw: i64,
    pub formatted: String,
}

/// An object: values by name.
#[derive(Debug)]
pub struct ObjectValue {
    pub o: StringMap<Value>,
}

/// A list of values.
#[derive(Debug)]
pub struct ArrayValue {
    pub value: Vec<Value>,
}

/// Packed numbers.
#[derive(Debug, Clone, PartialEq, Eq)]
pub struct BytesValue {
    pub kind: NumberKind,
    pub big_endian: bool,
    pub value: Vec<u8>,
}

/// A Hermes value, or none.
#[derive(Debug)]
pub struct Value {
    pub value: Option<value::Value>,
}

/// What a Hermes value says.
pub enum ValueView {
    Missing,
    I(i64),
    U(u64),
    F(Float64),
    B(bool),
    S(Seq<char>),
    E { raw: i64, formatted: Seq<char> },
    O(Seq<(Seq<char>, ValueView)>),
    A(Seq<ValueView>),
    R { kind: NumberKind, big_endian: bool, value: Seq<u8> },
}

impl Value {
    /// What the value says.
    pub open spec fn view(&self) -> ValueView
        decreases self,
    {
        match self.value {
            None => ValueView::Missing,
            Some(value::Value::I(i)) => ValueView::I(i),
            Some(value::Value::U(u)) => ValueView::U(u),
            Some(value::Value::F(f)) => ValueView::F(f),
            Some(value::Value::B(b)) => ValueView::B(b),
            Some(value::Value::S(s)) => ValueView::S(s@),
            Some(value::Value::E(e)) => ValueView::E { raw: e.raw, formatted: e.formatted@ },
            Some(value::Value::O(object)) => ValueView::O(
                Seq::new(
                    object.o@.len(),
                    |i: int|
                        if 0 <= i < object.o@.len() {
                            proof {
                                lemma_entry_is_smaller(object.o, i);
                            }
                            (object.o@[i].0@, object.o@[i].1.view())
                        } else {
                            arbitrary()
                        },
                ),
            ),
            Some(value::Value::A(array)) => ValueView::A(
                Seq::new(
                    array.value@.len(),
                    |i: int|
                        if 0 <= i < array.value@.len() {
                            array.value@[i].view()
                        } else {
                            arbitrary()
                        },
                ),
            ),
            Some(value::Value::R(bytes)) => ValueView::R {
                kind: bytes.kind,
                big_endian: bytes.big_endian,
                value: bytes.value@,
            },
        }
    }
}

/// What a list of Hermes values says.
pub open spec fn value_views(values: Seq<Value>) -> Seq<ValueView> {
    Seq::new(values.len(), |i: int| values[i].view())
}

/// What Hermes values by name say.
pub open spec fn member_views(members: StringMap<Value>) -> Seq<(Seq<char>, ValueView)> {
    mapped(members.keyed(), |member: Value| member.view())
}

/// A command to send, with its arguments in order.
#[derive(Debug)]
pub struct CommandValue {
    pub args: Vec<Value>,
    pub metadata: StringMap<String>,
}

/// An argument of a command.
#[derive(Debug, Clone)]
pub struct CommandArgument {
    pub name: String,
}

/// Definition of a command.
#[derive(Debug, Clone)]
pub struct CommandDef {
    pub arguments: Vec<CommandArgument>,
}

/// A point in time: seconds since the Unix epoch, and nanoseconds.
#[derive(Debug, Clone, Copy, PartialEq, Eq, Structural)]
pub struct Timestamp {
    pub seconds: i64,
    pub nanos: i32,
}

/// A point in time, on the ground clock and on the spacecraft clock.
#[derive(Debug, Clone, Copy, PartialEq, Eq, Structural)]
pub struct Time {
    pub unix: Option<Timestamp>,
    pub sclk: Float64,
}

/// What a subscriber wants to see. An empty field lets everything through.
#[derive(Debug, Clone)]
pub struct BusFilter {
    pub source: String,
    pub names: Vec<String>,
}

/// Where data was collected.
#[derive(Debug, Clone, Copy, PartialEq, Eq, Structural)]
pub enum SourceContext {
    Realtime,
    Recorded,
    Simulation,
}

/// Severity of an event.
#[derive(Debug, Clone, Copy, PartialEq, Eq, Structural)]
pub enum EvrSeverity {
    EvrDiagnostic,
    EvrActivityLow,
    EvrActivityHigh,
    EvrWarningLow,
    EvrWarningHigh,
    EvrCommand,
    EvrFatal,
}

/// Which event an event is.
#[derive(Debug, Clone)]
pub struct EventRef {
    pub id: i32,
    pub name: String,
    pub component: String,
    pub severity: EvrSeverity,
    pub arguments: Vec<String>,
    pub dictionary: String,
}

/// An event.
#[derive(Debug)]
pub struct Event {
    pub reference: Option<EventRef>,
    pub time: Option<Time>,
    pub message: String,
    pub args: Vec<Value>,
    pub tags: StringMap<Value>,
}

/// An event, with where it came from.
#[derive(Debug)]
pub struct SourcedEvent {
    pub event: Option<Event>,
    pub source: String,
    pub context: SourceContext,
}

/// Which channel a telemetry value belongs to.
#[derive(Debug, Clone)]
pub struct TelemetryRef {
    pub id: i32,
    pub name: String,
    pub component: String,
    pub dictionary: String,
}

/// A telemetry value.
#[derive(Debug)]
pub struct Telemetry {
    pub reference: Option<TelemetryRef>,
    pub time: Option<Time>,
    pub value: Option<Value>,
    pub labels: StringMap<String>,
}

/// A telemetry value, with where it came from.
#[derive(Debug)]
pub struct SourcedTelemetry {
    pub telemetry: Option<Telemetry>,
    pub source: String,
    pub context: SourceContext,
}

/// What can be done with a flight software connection.
#[derive(Debug, Clone, Copy, PartialEq, Eq, Structural)]
pub enum FswCapability {
    Command,
    ParseCommand,
    Sequence,
    File,
    Request,
}

/// A flight software connection.
#[derive(Debug, Clone)]
pub struct Fsw {
    pub id: String,
    pub fsw_type: String,
    pub profile_id: String,
    pub forwards: Vec<String>,
    pub capabilities: Vec<FswCapability>,
    pub dictionary: String,
}

/// How a downlink ended.
#[derive(Debug, Clone, Copy, PartialEq, Eq, Structural)]
pub enum FileDownlinkCompletionStatus {
    DownlinkUnknown,
    DownlinkCompleted,
    DownlinkPartial,
    DownlinkCrcFailed,
}

/// Record of a downlinked file.
#[derive(Debug, Clone)]
pub struct FileDownlink {
    pub uid: String,
    pub time_start: Option<Timestamp>,
    pub time_end: Option<Timestamp>,
    pub status: FileDownlinkCompletionStatus,
    pub source: String,
    pub source_path: String,
    pub destination_path: String,
    pub file_path: String,
    pub missing_chunks: Vec<FileDownlinkChunk>,
    pub duplicate_chunks: Vec<FileDownlinkChunk>,
    pub size: u64,
    pub metadata: StringMap<String>,
}

/// A range of bytes of a downlinked file.
#[derive(Debug, Clone, Copy, PartialEq, Eq, Structural)]
pub struct FileDownlinkChunk {
    pub offset: u64,
    pub size: u64,
}

} // verus!
