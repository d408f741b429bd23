//! The tracker of a transfer, as its readings show it.

use vstd::prelude::*;

use crate::file_transfer::interval_tracker::{chunk_spans, interval_spans, IntervalTracker};
use crate::hermes::FileDownlinkChunk;
use crate::spans::{byte_range, covered, in_span};

verus! {

/// The byte lies in one of the `(start, end)` intervals.
pub open spec fn in_intervals(intervals: Seq<(u64, u64)>, b: int) -> bool {
    exists|i: int|
        0 <= i < intervals.len() && (#[trigger] intervals[i]).0 <= b && b < intervals[i].1
}

/// The byte lies in one of the chunks.
pub open spec fn in_chunks(chunks: Seq<FileDownlinkChunk>, b: int) -> bool {
    exists|i: int|
        0 <= i < chunks.len() && (#[trigger] chunks[i]).offset <= b && b < chunks[i].offset
            + chunks[i].size
}

proof fn lemma_in_intervals(intervals: Seq<(u64, u64)>, b: int)
    ensures
        in_intervals(intervals, b) <==> covered(interval_spans(intervals)).contains(b),
{
    let spans = interval_spans(intervals);
    if in_intervals(intervals, b) {
        let i = choose|i: int|
            0 <= i < intervals.len() && (#[trigger] intervals[i]).0 <= b && b < intervals[i].1;
        assert(in_span(spans[i], b));
    }
    if covered(spans).contains(b) {
        let i = choose|i: int| 0 <= i < spans.len() && #[trigger] in_span(spans[i], b);
        assert(intervals[i].0 <= b);
    }
}

proof fn lemma_in_chunks(chunks: Seq<FileDownlinkChunk>, b: int)
    ensures
        in_chunks(chunks, b) <==> covered(chunk_spans(chunks)).contains(b),
{
    let spans = chunk_spans(chunks);
    if in_chunks(chunks, b) {
        let i = choose|i: int|
            0 <= i < chunks.len() && (#[trigger] chunks[i]).offset <= b && b < chunks[i].offset
                + chunks[i].size;
        assert(in_span(spans[i], b));
    }
    if covered(spans).contains(b) {
        let i = choose|i: int| 0 <= i < spans.len() && #[trigger] in_span(spans[i], b);
        assert(chunks[i].offset <= b);
    }
}

/// A new tracker has received nothing, and all of the file is missing.
pub proof fn law_new_tracker_has_nothing(
    tracker: IntervalTracker,
    intervals: &Vec<(u64, u64)>,
    received: u64,
    duplicates: u64,
    total_size: u64,
    gaps: Vec<FileDownlinkChunk>,
    b: int,
)
    requires
        call_ensures(IntervalTracker::new, (), tracker),
        call_ensures(IntervalTracker::intervals, (&tracker,), intervals),
        call_ensures(IntervalTracker::received_bytes, (&tracker,), received),
        call_ensures(IntervalTracker::duplicate_bytes, (&tracker,), duplicates),
        call_ensures(IntervalTracker::gaps, (&tracker, total_size), gaps),
    ensures
        tracker.wf(),
        intervals@.len() == 0,
        received == 0,
        duplicates == 0,
        in_chunks(gaps@, b) <==> 0 <= b < total_size,
{
    assert(interval_spans(intervals@).len() == 0);
    lemma_in_chunks(gaps@, b);
}

/// The intervals are in order, none is empty, and no two of them overlap or touch.
pub proof fn law_intervals_are_coalesced(tracker: &IntervalTracker, intervals: &Vec<(u64, u64)>)
    requires
        tracker.wf(),
        call_ensures(IntervalTracker::intervals, (tracker,), intervals),
    ensures
        forall|i: int|
            0 <= i < intervals@.len() ==> (#[trigger] intervals@[i]).0 < intervals@[i].1,
        forall|i: int, j: int|
            0 <= i < j < intervals@.len() ==> (#[trigger] intervals@[i]).1 < (
            #[trigger] intervals@[j]).0,
{
    let spans = interval_spans(intervals@);
    assert forall|i: int| 0 <= i < intervals@.len() implies (#[trigger] intervals@[i]).0
        < intervals@[i].1 by {
        assert(spans[i].0 < spans[i].1);
    }
    assert forall|i: int, j: int| 0 <= i < j < intervals@.len() implies (
    #[trigger] intervals@[i]).1 < (#[trigger] intervals@[j]).0 by {
        assert(spans[i].1 < spans[j].0);
    }
}

/// After a chunk has been recorded, a byte has been received exactly where it had been before or
/// lies in the chunk.
pub proof fn law_record_adds_the_chunk(
    tracker: &mut IntervalTracker,
    offset: u64,
    length: u64,
    before: &Vec<(u64, u64)>,
    after: &Vec<(u64, u64)>,
    b: int,
)
    requires
        old(tracker).wf(),
        call_ensures(IntervalTracker::intervals, (&*old(tracker),), before),
        call_ensures(IntervalTracker::record, (tracker, offset, length), ()),
        call_ensures(IntervalTracker::intervals, (&*final(tracker),), after),
    ensures
        in_intervals(after@, b) <==> in_intervals(before@, b) || offset <= b < offset + length,
{
    lemma_in_intervals(before@, b);
    lemma_in_intervals(after@, b);
    assert(byte_range(offset as int, offset + length).contains(b) <==> offset <= b < offset
        + length);
    assert(final(tracker)@.received.contains(b) <==> old(tracker)@.received.contains(b)
        || byte_range(offset as int, offset + length).contains(b));
}

/// Each byte of a recorded chunk counts once, as received or as a duplicate: as a duplicate
/// exactly where it had been received before.
pub proof fn law_record_counts_the_chunk(
    tracker: &mut IntervalTracker,
    offset: u64,
    length: u64,
    intervals: &Vec<(u64, u64)>,
    received_before: u64,
    received_after: u64,
    duplicates_before: u64,
    duplicates_after: u64,
)
    requires
        old(tracker).wf(),
        call_ensures(IntervalTracker::intervals, (&*old(tracker),), intervals),
        call_ensures(IntervalTracker::received_bytes, (&*old(tracker),), received_before),
        call_ensures(IntervalTracker::duplicate_bytes, (&*old(tracker),), duplicates_before),
        call_ensures(IntervalTracker::record, (tracker, offset, length), ()),
        call_ensures(IntervalTracker::received_bytes, (&*final(tracker),), received_after),
        call_ensures(IntervalTracker::duplicate_bytes, (&*final(tracker),), duplicates_after),
    ensures
        (received_after - received_before) + (duplicates_after - duplicates_before) == length,
        duplicates_after - duplicates_before == Set::new(
            |b: int| offset <= b < offset + length && in_intervals(intervals@, b),
        ).len(),
{
    let again = Set::new(|b: int| offset <= b < offset + length && in_intervals(intervals@, b));
    let shared = old(tracker)@.received.intersect(byte_range(offset as int, offset + length));
    assert forall|b: int| again.contains(b) <==> shared.contains(b) by {
        lemma_in_intervals(intervals@, b);
    }
    assert(again =~= shared);
}

/// As many bytes have been received as lie in the intervals.
pub proof fn law_received_bytes_lie_in_the_intervals(
    tracker: &IntervalTracker,
    intervals: &Vec<(u64, u64)>,
    received: u64,
)
    requires
        tracker.wf(),
        call_ensures(IntervalTracker::intervals, (tracker,), intervals),
        call_ensures(IntervalTracker::received_bytes, (tracker,), received),
    ensures
        received == Set::new(|b: int| in_intervals(intervals@, b)).len(),
{
    let bytes = Set::new(|b: int| in_intervals(intervals@, b));
    assert forall|b: int| bytes.contains(b) <==> covered(interval_spans(intervals@)).contains(b) by {
        lemma_in_intervals(intervals@, b);
    }
    assert(bytes =~= covered(interval_spans(intervals@)));
}

/// A byte lies in a gap exactly where it belongs to the file and has not been received.
pub proof fn law_gaps_are_what_is_missing(
    tracker: &IntervalTracker,
    intervals: &Vec<(u64, u64)>,
    total_size: u64,
    gaps: Vec<FileDownlinkChunk>,
    b: int,
)
    requires
        tracker.wf(),
        call_ensures(IntervalTracker::intervals, (tracker,), intervals),
        call_ensures(IntervalTracker::gaps, (tracker, total_size), gaps),
    ensures
        in_chunks(gaps@, b) <==> 0 <= b < total_size && !in_intervals(intervals@, b),
{
    lemma_in_chunks(gaps@, b);
    lemma_in_intervals(intervals@, b);
}

/// The gaps are in order, none is empty, and no two of them overlap or touch.
pub proof fn law_gaps_are_coalesced(
    tracker: &IntervalTracker,
    total_size: u64,
    gaps: Vec<FileDownlinkChunk>,
)
    requires
        tracker.wf(),
        call_ensures(IntervalTracker::gaps, (tracker, total_size), gaps),
    ensures
        forall|i: int| 0 <= i < gaps@.len() ==> (#[trigger] gaps@[i]).size > 0,
        forall|i: int, j: int|
            0 <= i < j < gaps@.len() ==> (#[trigger] gaps@[i]).offset + gaps@[i].size < (
            #[trigger] gaps@[j]).offset,
{
    let spans = chunk_spans(gaps@);
    assert forall|i: int| 0 <= i < gaps@.len() implies (#[trigger] gaps@[i]).size > 0 by {
        assert(spans[i].0 < spans[i].1);
    }
    assert forall|i: int, j: int| 0 <= i < j < gaps@.len() implies (#[trigger] gaps@[i]).offset
        + gaps@[i].size < (#[trigger] gaps@[j]).offset by {
        assert(spans[i].1 < spans[j].0);
    }
}

/// A default tracker reads as a new one.
pub proof fn law_default_tracker_is_new(
    tracker: IntervalTracker,
    intervals: &Vec<(u64, u64)>,
    duplicates: u64,
)
    requires
        call_ensures(<IntervalTracker as Default>::default, (), tracker),
        call_ensures(IntervalTracker::intervals, (&tracker,), intervals),
        call_ensures(IntervalTracker::duplicate_bytes, (&tracker,), duplicates),
    ensures
        tracker.wf(),
        intervals@.len() == 0,
        duplicates == 0,
{
    assert(interval_spans(intervals@).len() == 0);
}

} // verus!
