//! Events: from YAMCS to Hermes.

use vstd::prelude::*;

use crate::convert::filter::holds_name;
use crate::hermes;
use crate::hermes::value;
use crate::hermes::{
    member_views, BusFilter, EventRef, EvrSeverity, SourceContext, SourcedEvent, Time, Value,
    ValueView,
};
use crate::status::{Status, StatusView};
use crate::string_map::{lemma_lookup_mapped, lemma_put_mapped, lookup, mapped, put, StringMap};
use crate::time::{parse_yamcs_time, yamcs_time};
use crate::yamcs::{texts, Event, EventSeverity};

verus! {

/// The Hermes severity of a YAMCS severity.
pub open spec fn hermes_severity(severity: EventSeverity) -> EvrSeverity {
    match severity {
        EventSeverity::Info => EvrSeverity::EvrActivityLow,
        EventSeverity::Watch => EvrSeverity::EvrActivityHigh,
        EventSeverity::Warning => EvrSeverity::EvrWarningLow,
        EventSeverity::Distress => EvrSeverity::EvrWarningHigh,
        EventSeverity::Critical => EvrSeverity::EvrWarningHigh,
        EventSeverity::Severe => EvrSeverity::EvrFatal,
        EventSeverity::Error => EvrSeverity::EvrWarningLow,
    }
}

/// The filter lets an event through: it asks for its source and for its type, or does not care.
pub open spec fn wants_event(filter: BusFilter, event: Event) -> bool {
    &&& filter.source@.len() == 0 || filter.source@ == event.source@
    &&& filter.names@.len() == 0 || texts(filter.names@).contains(event.event_type@)
}

/// The first `n` extra fields as tags, each with its text as a string value.
pub open spec fn tags_of(extra: Seq<(String, String)>, n: nat) -> Seq<(Seq<char>, ValueView)>
    decreases n,
{
    if n == 0 || n > extra.len() {
        Seq::empty()
    } else {
        put(tags_of(extra, (n - 1) as nat), extra[n - 1].0@, ValueView::S(extra[n - 1].1@))
    }
}

/// The tags of an event.
pub open spec fn event_tags(event: Event) -> Seq<(Seq<char>, ValueView)> {
    match event.extra {
        Some(extra) => tags_of(extra@, extra@.len()),
        None => Seq::empty(),
    }
}

/// `sourced` is the YAMCS event, generated at `time`.
pub open spec fn is_event(sourced: SourcedEvent, event: Event, time: Time) -> bool {
    &&& sourced.source@ == event.source@
    &&& sourced.context == SourceContext::Realtime
    &&& sourced.event matches Some(e)
    &&& e.time == Some(time)
    &&& e.message@ == event.message@
    &&& e.args@.len() == 0
    &&& e.tags.wf()
    &&& member_views(e.tags) == event_tags(event)
    &&& e.reference matches Some(reference)
    &&& reference.id == event.seq_number as i32
    &&& reference.name@ == event.event_type@
    &&& reference.component@ == event.source@
    &&& reference.severity == hermes_severity(event.severity)
    &&& reference.arguments@.len() == 0
    &&& reference.dictionary@.len() == 0
}

/// Map YAMCS severity to Hermes severity
pub fn severity_to_hermes(severity: EventSeverity) -> (converted: EvrSeverity)
    ensures
        converted == hermes_severity(severity),
{
    match severity {
        EventSeverity::Info => EvrSeverity::EvrActivityLow,
        EventSeverity::Watch => EvrSeverity::EvrActivityHigh,
        EventSeverity::Warning => EvrSeverity::EvrWarningLow,
        EventSeverity::Distress => EvrSeverity::EvrWarningHigh,
        EventSeverity::Critical => EvrSeverity::EvrWarningHigh,
        EventSeverity::Severe => EvrSeverity::EvrFatal,
        EventSeverity::Error => EvrSeverity::EvrWarningLow,
    }
}

/// Whether the filter lets an event through.
pub fn filter_wants_event(filter: &BusFilter, event: &Event) -> (wanted: bool)
    ensures
        wanted == wants_event(*filter, *event),
{
    // Apply source filter
    if !filter.source.as_str().is_empty() && filter.source != event.source {
        return false;
    }
    // Apply name filter (match against event type)
    filter.names.len() == 0 || holds_name(&filter.names, &event.event_type)
}

/// The Hermes event for a YAMCS event that was generated at `time`.
pub fn event_at(yamcs_event: &Event, time: Time) -> (sourced: SourcedEvent)
    ensures
        is_event(sourced, *yamcs_event, time),
{
    // Convert extra fields to tags
    let mut tags: StringMap<Value> = StringMap::new();
    assert(member_views(tags) =~= Seq::empty());
    if let Some(extra) = &yamcs_event.extra {
        let mut i: usize = 0;
        while i < extra.len()
            invariant
                i <= extra@.len(),
                tags.wf(),
                member_views(tags) == tags_of(extra@, i as nat),
            decreases extra@.len() - i,
        {
            let entry = extra.entry(i);
            let tag = Value { value: Some(value::Value::S(entry.1.clone())) };
            let ghost before = tags.keyed();
            tags.insert(entry.0.clone(), tag);
            proof {
                lemma_put_mapped(before, entry.0@, tag, |member: Value| member.view());
            }
            i += 1;
        }
    }
    SourcedEvent {
        event: Some(
            hermes::Event {
                reference: Some(
                    EventRef {
                        id: yamcs_event.seq_number as i32,
                        name: yamcs_event.event_type.clone(),
                        component: yamcs_event.source.clone(),
                        severity: severity_to_hermes(yamcs_event.severity),
                        arguments: Vec::new(),
                        dictionary: String::new(),
                    },
                ),
                time: Some(time),
                message: yamcs_event.message.clone(),
                args: Vec::new(),
                tags,
            },
        ),
        source: yamcs_event.source.clone(),
        context: SourceContext::Realtime,
    }
}

/// Convert YAMCS Event to Hermes SourcedEvent
pub fn yamcs_event_to_hermes(yamcs_event: &Event, filter: &BusFilter) -> (result: Result<
    Option<SourcedEvent>,
    Status,
>)
    ensures
        if !wants_event(*filter, *yamcs_event) {
            result == Ok::<Option<SourcedEvent>, Status>(None)
        } else {
            match yamcs_time(yamcs_event.generation_time@) {
                Ok(time) => result matches Ok(Some(sourced)) && is_event(
                    sourced,
                    *yamcs_event,
                    time,
                ),
                Err(status) => result matches Err(e) && e@ == status,
            }
        },
{
    if !filter_wants_event(filter, yamcs_event) {
        return Ok(None);
    }
    match parse_yamcs_time(yamcs_event.generation_time.as_str()) {
        Ok(time) => Ok(Some(event_at(yamcs_event, time))),
        Err(status) => Err(status),
    }
}

/// Every extra field is a tag of the same name, and no tag is anything else.
pub proof fn lemma_tags_are_the_extra_fields(extra: StringMap<String>, name: Seq<char>)
    requires
        extra.wf(),
    ensures
        lookup(tags_of(extra@, extra@.len()), name) == match lookup(extra.keyed(), name) {
            Some(text) => Some(ValueView::S(text@)),
            None => None,
        },
{
    let as_tag = |text: String| ValueView::S(text@);
    lemma_first_tags_in_order(extra, extra@.len());
    assert(extra.keyed().take(extra@.len() as int) =~= extra.keyed());
    lemma_lookup_mapped(extra.keyed(), name, as_tag);
}

pub(crate) proof fn lemma_first_tags_in_order(extra: StringMap<String>, n: nat)
    requires
        extra.wf(),
        n <= extra@.len(),
    ensures
        tags_of(extra@, n) == mapped(
            extra.keyed().take(n as int),
            |text: String| ValueView::S(text@),
        ),
    decreases n,
{
    let as_tag = |text: String| ValueView::S(text@);
    let tags = mapped(extra.keyed().take(n as int), as_tag);
    if n == 0 {
        assert(tags =~= Seq::empty());
    } else {
        lemma_first_tags_in_order(extra, (n - 1) as nat);
        let before = tags_of(extra@, (n - 1) as nat);
        let name = extra@[n - 1].0@;
        assert forall|i: int| 0 <= i < before.len() implies (#[trigger] before[i]).0 != name by {
            assert(extra.keyed()[i].0 != extra.keyed()[n - 1].0);
        }
        assert(before.push((name, ValueView::S(extra@[n - 1].1@))) =~= tags);
    }
}

} // verus!
