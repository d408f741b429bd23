//! What a subscriber's filter lets through.

use vstd::prelude::*;

use crate::convert::event::filter_wants_event;
use crate::convert::filter::holds_name;
use crate::convert::telemetry::filter_wants_channel;
use crate::hermes::BusFilter;
use crate::yamcs::{texts, Event};

verus! {

/// The text is one of the strings.
pub open spec fn among(strings: Seq<String>, text: Seq<char>) -> bool {
    exists|i: int| 0 <= i < strings.len() && (#[trigger] strings[i])@ == text
}

pub(crate) proof fn lemma_among(strings: Seq<String>, text: Seq<char>)
    ensures
        among(strings, text) <==> texts(strings).contains(text),
{
    if among(strings, text) {
        let i = choose|i: int| 0 <= i < strings.len() && (#[trigger] strings[i])@ == text;
        assert(texts(strings)[i] == text);
    }
    if texts(strings).contains(text) {
        let i = choose|i: int| 0 <= i < texts(strings).len() && texts(strings)[i] == text;
        assert(strings[i]@ == text);
    }
}

/// A list holds a name exactly where one of its strings is the name.
pub proof fn law_list_holds_its_names(names: &Vec<String>, name: &String, found: bool)
    requires
        call_ensures(holds_name, (names, name), found),
    ensures
        found <==> among(names@, name@),
{
    lemma_among(names@, name@);
}

/// An event is wanted exactly where its source is the one that the filter gives, if it gives one,
/// and its type is among the names that the filter gives, if it gives any.
pub proof fn law_event_has_to_pass_both_filters(filter: &BusFilter, event: &Event, wanted: bool)
    requires
        call_ensures(filter_wants_event, (filter, event), wanted),
    ensures
        filter.source@.len() > 0 && filter.source@ != event.source@ ==> !wanted,
        filter.names@.len() > 0 && !among(filter.names@, event.event_type@) ==> !wanted,
        (filter.source@.len() == 0 || filter.source@ == event.source@) && (filter.names@.len() == 0
            || among(filter.names@, event.event_type@)) ==> wanted,
{
    lemma_among(filter.names@, event.event_type@);
}

/// A channel is wanted exactly where the filter names no channel, names this one, or names `*`.
pub proof fn law_channel_has_to_be_named(filter: &BusFilter, name: &String, wanted: bool)
    requires
        call_ensures(filter_wants_channel, (filter, name), wanted),
    ensures
        wanted <==> filter.names@.len() == 0 || among(filter.names@, name@) || among(
            filter.names@,
            seq!['*'],
        ),
{
    reveal_strlit("*");
    assert("*"@ =~= seq!['*']);
    lemma_among(filter.names@, name@);
    lemma_among(filter.names@, seq!['*']);
}

} // verus!
