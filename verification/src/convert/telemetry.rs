//! Telemetry: from YAMCS to Hermes.

use vstd::prelude::*;

use crate::convert::filter::holds_name;
use crate::convert::hints::BinaryTypeHints;
use crate::convert::names::{component_of, name_of, split_qualified_name};
use crate::convert::values::{hermes_of, hints_view, yamcs_value_to_hermes};
use crate::hermes::{
    BusFilter, SourceContext, SourcedTelemetry, Telemetry, TelemetryRef, Time, Value, ValueView,
};
use crate::status::{Status, StatusView};
use crate::string_map::StringMap;
use crate::time::{parse_yamcs_time, yamcs_time};
use crate::yamcs::{texts, NamedObjectId, ParameterValue};

verus! {

/// The filter lets a channel of this name through: it names it, or all of them with `*`, or no
/// channel at all.
pub open spec fn wants_channel(filter: BusFilter, name: Seq<char>) -> bool {
    ||| filter.names@.len() == 0
    ||| texts(filter.names@).contains(name)
    ||| texts(filter.names@).contains("*"@)
}

/// `telemetry` is the value that the channel of a qualified name had at a time, for a subscriber
/// to `source`.
pub open spec fn is_telemetry(
    telemetry: SourcedTelemetry,
    qualified_name: Seq<char>,
    time: Time,
    value: ValueView,
    source: Seq<char>,
) -> bool {
    &&& telemetry.source@ == source
    &&& telemetry.context == SourceContext::Realtime
    &&& telemetry.telemetry matches Some(t)
    &&& t.time == Some(time)
    &&& t.value matches Some(v)
    &&& v@ == value
    &&& t.labels@.len() == 0
    &&& t.reference matches Some(channel)
    &&& channel.id == 0
    &&& channel.name@ == name_of(qualified_name)
    &&& channel.component@ == component_of(qualified_name)
    &&& channel.dictionary@.len() == 0
}

/// Whether the filter lets a channel of this name through.
pub fn filter_wants_channel(filter: &BusFilter, name: &String) -> (wanted: bool)
    ensures
        wanted == wants_channel(*filter, name@),
{
    filter.names.len() == 0 || holds_name(&filter.names, name) || holds_name(
        &filter.names,
        &"*".to_owned(),
    )
}

/// The telemetry of a channel, from its qualified name, its time and its value.
///
/// Hermes keeps a channel's component and name as separate fields (so the UI can group by
/// component), but YAMCS gives us both as one path, e.g. "/BigData/bigDataComponent/Counter".
pub fn telemetry_at(qualified_name: &str, time: Time, value: Value, source: &String) -> (telemetry:
    SourcedTelemetry)
    ensures
        is_telemetry(telemetry, qualified_name@, time, value@, source@),
{
    let (component, name) = split_qualified_name(qualified_name);
    SourcedTelemetry {
        telemetry: Some(
            Telemetry {
                reference: Some(
                    TelemetryRef { id: 0, name, component, dictionary: String::new() },
                ),
                time: Some(time),
                value: Some(value),
                labels: StringMap::new(),
            },
        ),
        source: source.clone(),
        context: SourceContext::Realtime,
    }
}

/// The outcome of converting a parameter value whose time reads as `time`.
pub open spec fn is_param_outcome(
    result: Result<Option<SourcedTelemetry>, Status>,
    param: ParameterValue,
    filter: BusFilter,
    binary_hints: Option<&BinaryTypeHints>,
    time: Result<Time, StatusView>,
) -> bool {
    match param.id {
        // A value whose name is not known yet is skipped.
        None => result == Ok::<Option<SourcedTelemetry>, Status>(None),
        Some(id) => if !wants_channel(filter, id.name@) {
            result == Ok::<Option<SourcedTelemetry>, Status>(None)
        } else {
            match (time, param.eng_value) {
                (Err(status), _) => result matches Err(e) && e@ == status,
                // There is nothing to report without a value.
                (Ok(_), None) => result == Ok::<Option<SourcedTelemetry>, Status>(None),
                (Ok(time), Some(eng_value)) => match hermes_of(
                    eng_value@,
                    hints_view(binary_hints),
                ) {
                    Err(status) => result matches Err(e) && e@ == status,
                    Ok(value) => result matches Ok(Some(telemetry)) && is_telemetry(
                        telemetry,
                        id.name@,
                        time,
                        value,
                        filter.source@,
                    ),
                },
            }
        },
    }
}

/// Convert a YAMCS parameter value that the filter lets through, once its time has been read.
pub fn wanted_param_to_hermes(
    param: &ParameterValue,
    id: &NamedObjectId,
    filter: &BusFilter,
    binary_hints: Option<&BinaryTypeHints>,
    time: Result<Time, Status>,
) -> (result: Result<Option<SourcedTelemetry>, Status>)
    requires
        param.id == Some(*id),
        wants_channel(*filter, id.name@),
    ensures
        is_param_outcome(
            result,
            *param,
            *filter,
            binary_hints,
            match time {
                Ok(t) => Ok(t),
                Err(status) => Err(status@),
            },
        ),
{
    let time = match time {
        Ok(time) => time,
        Err(status) => {
            return Err(status);
        },
    };
    match &param.eng_value {
        // No value available; skip this parameter
        None => Ok(None),
        Some(eng_value) => match yamcs_value_to_hermes(eng_value, binary_hints) {
            Ok(value) => Ok(Some(telemetry_at(id.name.as_str(), time, value, &filter.source))),
            Err(status) => Err(status),
        },
    }
}

/// Convert YAMCS ParameterValue to Hermes SourcedTelemetry
///
/// YAMCS only sends a channel's name the first time it reports that channel; after that it
/// sends just a numeric id to save bandwidth. If we still get no name, the mapping for this id
/// hasn't arrived yet (e.g. a subscription that just started) - skip for now, it resolves itself
/// on the next update.
pub fn yamcs_param_to_hermes(
    param: &ParameterValue,
    filter: &BusFilter,
    binary_hints: Option<&BinaryTypeHints>,
) -> (result: Result<Option<SourcedTelemetry>, Status>)
    ensures
        is_param_outcome(
            result,
            *param,
            *filter,
            binary_hints,
            yamcs_time(param.generation_time@),
        ),
{
    match &param.id {
        None => Ok(None),
        Some(id) => {
            // Apply name filter
            if !filter_wants_channel(filter, &id.name) {
                return Ok(None);
            }
            let time = parse_yamcs_time(param.generation_time.as_str());
            wanted_param_to_hermes(param, id, filter, binary_hints, time)
        },
    }
}

} // verus!
