//! Events.

use vstd::prelude::*;

use crate::convert::event::{
    event_tags, lemma_first_tags_in_order, severity_to_hermes, tags_of, yamcs_event_to_hermes,
};
use crate::hermes::value;
use crate::hermes::{
    member_views, BusFilter, EvrSeverity, SourceContext, SourcedEvent, Time, ValueView,
};
use crate::laws::filter::{among, lemma_among};
use crate::status::Status;
use crate::time::parse_yamcs_time;
use crate::yamcs::{Event, EventSeverity};

verus! {

/// An event is not delivered where the filter gives another source, whatever names it gives, nor
/// where it gives names and the type of the event is none of them, whatever source it gives.
pub proof fn law_unwanted_event_is_not_delivered(
    event: &Event,
    filter: &BusFilter,
    result: Result<Option<SourcedEvent>, Status>,
)
    requires
        call_ensures(yamcs_event_to_hermes, (event, filter), result),
        ({
            ||| filter.source@.len() > 0 && filter.source@ != event.source@
            ||| filter.names@.len() > 0 && !among(filter.names@, event.event_type@)
        }),
    ensures
        result == Ok::<Option<SourcedEvent>, Status>(None),
{
    lemma_among(filter.names@, event.event_type@);
}

/// An event of the source and of one of the types that the filter gives, if it gives any, is
/// delivered with the time that its generation time stands for; where that stands for none, the
/// conversion fails as the reading of the time does.
pub proof fn law_wanted_event_is_delivered(
    event: &Event,
    filter: &BusFilter,
    generation_time: &str,
    time: Result<Time, Status>,
    severity: EvrSeverity,
    result: Result<Option<SourcedEvent>, Status>,
)
    requires
        call_ensures(yamcs_event_to_hermes, (event, filter), result),
        filter.source@.len() == 0 || filter.source@ == event.source@,
        filter.names@.len() == 0 || among(filter.names@, event.event_type@),
        generation_time@ == event.generation_time@,
        call_ensures(parse_yamcs_time, (generation_time,), time),
        call_ensures(severity_to_hermes, (event.severity,), severity),
    ensures
        match time {
            Err(status) => result matches Err(e) && e.code == status.code && e.message@
                == status.message@,
            Ok(t) => {
                &&& result matches Ok(Some(sourced))
                &&& sourced.source@ == event.source@
                &&& sourced.context == SourceContext::Realtime
                &&& sourced.event matches Some(delivered)
                &&& delivered.time == Some(t)
                &&& delivered.message@ == event.message@
                &&& delivered.args@.len() == 0
                &&& delivered.reference matches Some(reference)
                &&& reference.name@ == event.event_type@
                &&& reference.component@ == event.source@
                &&& reference.severity == severity
                &&& reference.arguments@.len() == 0
                &&& reference.dictionary@.len() == 0
                &&& -0x8000_0000 <= reference.id < 0x8000_0000
                &&& (event.seq_number - reference.id) % 0x1_0000_0000 == 0
            },
        },
{
    lemma_among(filter.names@, event.event_type@);
    lemma_low_bits(event.seq_number);
}

/// The low 32 bits of a number differ from it by a multiple of two to the power of 32.
proof fn lemma_low_bits(n: i64)
    ensures
        (n - (n as i32)) % 0x1_0000_0000 == 0,
{
    assert((n - (n as i32)) % 0x1_0000_0000 == 0) by (bit_vector);
}

/// The extra fields of a delivered event are its tags, in their order and with their texts.
pub proof fn law_extra_fields_are_the_tags(
    event: &Event,
    filter: &BusFilter,
    sourced: SourcedEvent,
)
    requires
        call_ensures(
            yamcs_event_to_hermes,
            (event, filter),
            Ok::<Option<SourcedEvent>, Status>(Some(sourced)),
        ),
        event.extra matches Some(extra) ==> extra.wf(),
    ensures
        sourced.event matches Some(delivered) && match event.extra {
            None => delivered.tags@.len() == 0,
            Some(extra) => {
                &&& delivered.tags@.len() == extra@.len()
                &&& forall|i: int|
                    0 <= i < extra@.len() ==> (#[trigger] delivered.tags@[i]).0@ == extra@[i].0@ && (
                    delivered.tags@[i].1.value matches Some(value::Value::S(text)) && text@
                        == extra@[i].1@)
            },
        },
{
    let delivered = sourced.event->0;
    let views = member_views(delivered.tags);
    assert(views == event_tags(*event));
    assert(views.len() == delivered.tags@.len());
    if let Some(extra) = event.extra {
        lemma_first_tags_in_order(extra, extra@.len());
        assert(tags_of(extra@, extra@.len()) == views);
        assert forall|i: int| 0 <= i < extra@.len() implies (#[trigger] delivered.tags@[i]).0@
            == extra@[i].0@ && (delivered.tags@[i].1.value matches Some(value::Value::S(text))
            && text@ == extra@[i].1@) by {
            assert(views[i] == (delivered.tags@[i].0@, delivered.tags@[i].1@));
            assert(views[i] == (extra@[i].0@, ValueView::S(extra@[i].1@)));
        }
    }
}

/// The severities correspond as they rank: informational ones are activities, warnings and errors
/// are low warnings, distress and critical are high warnings, and the most severe is fatal.
pub proof fn law_severities(severity: EventSeverity, converted: EvrSeverity)
    requires
        call_ensures(severity_to_hermes, (severity,), converted),
    ensures
        converted == EvrSeverity::EvrActivityLow <==> severity == EventSeverity::Info,
        converted == EvrSeverity::EvrActivityHigh <==> severity == EventSeverity::Watch,
        converted == EvrSeverity::EvrWarningLow <==> severity == EventSeverity::Warning || severity
            == EventSeverity::Error,
        converted == EvrSeverity::EvrWarningHigh <==> severity == EventSeverity::Distress
            || severity == EventSeverity::Critical,
        converted == EvrSeverity::EvrFatal <==> severity == EventSeverity::Severe,
{
}

} // verus!
