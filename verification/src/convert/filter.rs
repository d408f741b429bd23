//! What a subscriber's filter lets through.

use vstd::prelude::*;

use crate::convert::event::wants_event;
use crate::convert::telemetry::wants_channel;
use crate::hermes::BusFilter;
use crate::yamcs::{texts, Event};

verus! {

/// Whether a list of names holds a name.
pub fn holds_name(names: &Vec<String>, name: &String) -> (found: bool)
    ensures
        found == texts(names@).contains(name@),
{
    let mut i: usize = 0;
    while i < names.len()
        invariant
            i <= names@.len(),
            forall|j: int| 0 <= j < i ==> texts(names@)[j] != name@,
        decreases names@.len() - i,
    {
        if names[i] == *name {
            assert(texts(names@)[i as int] == name@);
            return true;
        }
        i += 1;
    }
    false
}

/// A filter that asks for nothing in particular lets every channel and every event through.
pub proof fn lemma_open_filter_wants_everything(filter: BusFilter, name: Seq<char>, event: Event)
    requires
        filter.names@.len() == 0,
        filter.source@.len() == 0,
    ensures
        wants_channel(filter, name),
        wants_event(filter, event),
{
}

/// A filter that names `*` lets every channel through, whatever else it names.
pub proof fn lemma_star_wants_every_channel(filter: BusFilter, name: Seq<char>)
    requires
        texts(filter.names@).contains("*"@),
    ensures
        wants_channel(filter, name),
{
}

} // verus!
