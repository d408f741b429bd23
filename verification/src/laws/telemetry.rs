//! Telemetry.

use vstd::prelude::*;

use crate::convert::hints::BinaryTypeHints;
use crate::convert::names::split_qualified_name;
use crate::convert::telemetry::yamcs_param_to_hermes;
use crate::convert::values::yamcs_value_to_hermes;
use crate::hermes::{BusFilter, SourceContext, SourcedTelemetry, Time, Value};
use crate::laws::filter::{among, lemma_among};
use crate::status::Status;
use crate::time::parse_yamcs_time;
use crate::yamcs;
use crate::yamcs::ParameterValue;

verus! {

/// The filter names channels, and neither this one nor all of them.
pub open spec fn leaves_out(filter: &BusFilter, name: Seq<char>) -> bool {
    filter.names@.len() > 0 && !among(filter.names@, name) && !among(filter.names@, seq!['*'])
}

proof fn lemma_star(filter: &BusFilter, name: Seq<char>)
    ensures
        leaves_out(filter, name) <==> !crate::convert::telemetry::wants_channel(*filter, name),
{
    reveal_strlit("*");
    assert("*"@ =~= seq!['*']);
    lemma_among(filter.names@, name);
    lemma_among(filter.names@, "*"@);
}

/// A value is skipped where its name is not known, or where the filter leaves its channel out.
pub proof fn law_unwanted_value_is_skipped(
    param: &ParameterValue,
    filter: &BusFilter,
    binary_hints: Option<&BinaryTypeHints>,
    result: Result<Option<SourcedTelemetry>, Status>,
)
    requires
        call_ensures(yamcs_param_to_hermes, (param, filter, binary_hints), result),
        param.id matches Some(id) ==> leaves_out(filter, id.name@),
    ensures
        result == Ok::<Option<SourcedTelemetry>, Status>(None),
{
    if let Some(id) = param.id {
        lemma_star(filter, id.name@);
    }
}

/// A wanted value whose generation time stands for no instant fails as the reading of the time
/// does, and one without a value is skipped.
pub proof fn law_wanted_value_needs_a_time_and_a_value(
    param: &ParameterValue,
    filter: &BusFilter,
    binary_hints: Option<&BinaryTypeHints>,
    generation_time: &str,
    time: Result<Time, Status>,
    result: Result<Option<SourcedTelemetry>, Status>,
)
    requires
        call_ensures(yamcs_param_to_hermes, (param, filter, binary_hints), result),
        param.id matches Some(id) && !leaves_out(filter, id.name@),
        generation_time@ == param.generation_time@,
        call_ensures(parse_yamcs_time, (generation_time,), time),
    ensures
        time matches Err(status) ==> (result matches Err(e) && e.code == status.code && e.message@
            == status.message@),
        time is Ok && param.eng_value is None ==> result == Ok::<Option<SourcedTelemetry>, Status>(
            None,
        ),
{
    lemma_star(filter, param.id->0.name@);
}

/// A wanted value with a time is delivered as the value that it becomes, under the component and
/// the name that its qualified name splits into, for the source that the filter gives. Where the
/// value cannot be converted, it fails as that does.
pub proof fn law_wanted_value_is_delivered(
    param: &ParameterValue,
    filter: &BusFilter,
    binary_hints: Option<&BinaryTypeHints>,
    generation_time: &str,
    time: Time,
    eng_value: yamcs::Value,
    value: Result<Value, Status>,
    qualified_name: &str,
    split: (String, String),
    result: Result<Option<SourcedTelemetry>, Status>,
)
    requires
        call_ensures(yamcs_param_to_hermes, (param, filter, binary_hints), result),
        param.id matches Some(id) && !leaves_out(filter, id.name@) && qualified_name@ == id.name@,
        generation_time@ == param.generation_time@,
        call_ensures(parse_yamcs_time, (generation_time,), Ok::<Time, Status>(time)),
        param.eng_value == Some(eng_value),
        call_ensures(yamcs_value_to_hermes, (&eng_value, binary_hints), value),
        call_ensures(split_qualified_name, (qualified_name,), split),
    ensures
        match value {
            Err(status) => result matches Err(e) && e.code == status.code && e.message@
                == status.message@,
            Ok(converted) => {
                &&& result matches Ok(Some(sourced))
                &&& sourced.source@ == filter.source@
                &&& sourced.context == SourceContext::Realtime
                &&& sourced.telemetry matches Some(telemetry)
                &&& telemetry.time == Some(time)
                &&& telemetry.value matches Some(delivered)
                &&& delivered@ == converted@
                &&& telemetry.labels@.len() == 0
                &&& telemetry.reference matches Some(channel)
                &&& channel.id == 0
                &&& channel.component@ == split.0@
                &&& channel.name@ == split.1@
                &&& channel.dictionary@.len() == 0
            },
        },
{
    lemma_star(filter, param.id->0.name@);
}

} // verus!
