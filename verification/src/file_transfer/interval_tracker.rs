//! Tracking of the byte ranges that have arrived of a file in flight.

use vstd::prelude::*;
use vstd::set_lib::{
    lemma_int_range, lemma_len_subset, lemma_set_disjoint_lens, lemma_set_intersect_union_lens,
};

use crate::hermes::FileDownlinkChunk;
use crate::spans::{
    byte_range, coalesced, covered, in_span, lemma_covered_last, lemma_covered_len, total_len,
};

verus! {

/// What is known of a transfer: which bytes have arrived, and how many arrived once more.
#[verifier::ext_equal]
pub struct Transfer {
    pub received: Set<int>,
    pub duplicates: nat,
}

/// The transfer after the bytes `[offset, offset + length)` have arrived: those that had not been
/// there are received, those that had been there are duplicates.
pub open spec fn recorded(transfer: Transfer, offset: int, length: int) -> Transfer {
    let chunk = byte_range(offset, offset + length);
    Transfer {
        received: transfer.received.union(chunk),
        duplicates: transfer.duplicates + transfer.received.intersect(chunk).len(),
    }
}

/// Tracks which byte ranges of an in-flight file transfer have arrived, without retaining the
/// payload itself.
///
/// Intervals are stored sorted and coalesced, so a 200 MB transfer costs an interval list, not
/// a buffer.
#[derive(Debug, Clone)]
pub struct IntervalTracker {
    /// Sorted, non-overlapping, non-adjacent (i.e. coalesced) `[start, end)` intervals.
    intervals: Vec<(u64, u64)>,
    /// Total bytes observed as duplicates (i.e. bytes that fell within an already-received
    /// interval when inserted).
    duplicate_bytes: u64,
}

/// The spans that a list of `[start, end)` pairs stands for.
pub open spec fn interval_spans(intervals: Seq<(u64, u64)>) -> Seq<(int, int)> {
    Seq::new(intervals.len(), |i: int| (intervals[i].0 as int, intervals[i].1 as int))
}

/// The spans that a list of chunks stands for.
pub open spec fn chunk_spans(chunks: Seq<FileDownlinkChunk>) -> Seq<(int, int)> {
    Seq::new(
        chunks.len(),
        |i: int| (chunks[i].offset as int, chunks[i].offset + chunks[i].size),
    )
}

impl View for IntervalTracker {
    type V = Transfer;

    closed spec fn view(&self) -> Transfer {
        Transfer { received: covered(self.spans()), duplicates: self.duplicate_bytes as nat }
    }
}

impl IntervalTracker {
    /// The intervals, as spans.
    pub closed spec fn spans(&self) -> Seq<(int, int)> {
        interval_spans(self.intervals@)
    }

    /// The intervals are sorted, non-overlapping and non-adjacent, and they cover what has been
    /// received.
    pub open spec fn wf(&self) -> bool {
        &&& coalesced(self.spans())
        &&& self@.received == covered(self.spans())
    }
}

impl Default for IntervalTracker {
    fn default() -> (tracker: Self)
        ensures
            tracker.wf(),
            tracker.spans() == Seq::<(int, int)>::empty(),
            tracker@ == (Transfer { received: Set::empty(), duplicates: 0 }),
    {
        let tracker = IntervalTracker { intervals: Vec::new(), duplicate_bytes: 0 };
        assert(tracker@.received =~= Set::empty());
        tracker
    }
}

impl IntervalTracker {
    pub fn new() -> (tracker: Self)
        ensures
            tracker.wf(),
            tracker.spans() == Seq::<(int, int)>::empty(),
            tracker@ == (Transfer { received: Set::empty(), duplicates: 0 }),
    {
        Self::default()
    }

    /// Record that bytes `[offset, offset+length)` have arrived. Overlap with any
    /// already-received range is counted as duplicate, not double-counted as received.
    ///
    /// The count of duplicates has to fit; it does so in any case where it would if every byte
    /// of the chunk were one.
    pub fn record(&mut self, offset: u64, length: u64)
        requires
            old(self).wf(),
            offset + length <= u64::MAX,
            old(self)@.duplicates + length <= u64::MAX || recorded(
                old(self)@,
                offset as int,
                length as int,
            ).duplicates <= u64::MAX,
        ensures
            final(self).wf(),
            final(self)@ == recorded(old(self)@, offset as int, length as int),
            final(self)@.received.len() + final(self)@.duplicates == old(self)@.received.len()
                + old(self)@.duplicates + length,
    {
        let ghost spans = self.spans();
        let ghost chunk = byte_range(offset as int, offset + length);
        proof {
            lemma_covered_len(spans);
            lemma_int_range(offset as int, offset + length);
            lemma_set_intersect_union_lens(covered(spans), chunk);
        }
        if length == 0 {
            proof {
                assert(covered(spans).intersect(chunk) =~= Set::empty());
                assert(covered(spans).union(chunk) =~= covered(spans));
            }
            return;
        }
        let new_start: u64 = offset;
        let new_end: u64 = offset + length;
        let mut merged_start: u64 = new_start;
        let mut merged_end: u64 = new_end;
        let mut duplicate: u64 = 0;
        let mut result: Vec<(u64, u64)> = Vec::with_capacity(self.intervals.len());
        // Number of kept intervals that lie below the new range.
        let mut below: usize = 0;
        let ghost mut merged: int = 0;
        let mut k: usize = 0;
        assert(covered(spans.take(0)).intersect(chunk) =~= Set::empty());
        while k < self.intervals.len()
            invariant
                *self == *old(self),
                spans == interval_spans(self.intervals@),
                coalesced(spans),
                chunk == byte_range(new_start as int, new_end as int),
                new_start < new_end,
                new_end - new_start == length,
                k <= self.intervals.len(),
                below <= result.len(),
                merged >= 0,
                k == result.len() + merged,
                merged_start <= new_start,
                new_end <= merged_end,
                merged_start == new_start || (merged > 0 && merged_start == spans[below as int].0
                    && new_start <= spans[below as int].1),
                merged_end == new_end || (merged > 0 && merged_end == spans[below + merged - 1].1
                    && spans[below + merged - 1].0 <= new_end),
                forall|i: int|
                    0 <= i < below ==> (#[trigger] result@[i]) == self.intervals@[i]
                        && result@[i].1 < merged_start,
                forall|i: int|
                    below <= i < result.len() ==> (#[trigger] result@[i])
                        == self.intervals@[i + merged] && merged_end < result@[i].0,
                forall|i: int|
                    below <= i < below + merged ==> merged_start <= (#[trigger] spans[i]).0
                        && spans[i].1 <= merged_end,
                covered(spans.take(k as int)).intersect(chunk).finite(),
                duplicate == covered(spans.take(k as int)).intersect(chunk).len(),
            decreases self.intervals.len() - k,
        {
            let s: u64 = self.intervals[k].0;
            let e: u64 = self.intervals[k].1;
            let overlap_start: u64 = if s < new_start { new_start } else { s };
            let overlap_end: u64 = if e < new_end { e } else { new_end };
            proof {
                lemma_overlap_grows(spans, k as int, new_start as int, new_end as int);
                assert(spans[k as int] == (s as int, e as int));
                if merged > 0 {
                    assert(spans[below + merged - 1].1 < spans[k as int].0);
                }
                if below < result.len() {
                    let last = result.len() - 1;
                    assert(result@[last].0 == spans[last + merged].0);
                    assert(spans[last + merged].1 < spans[k as int].0);
                }
                assert forall|i: int| 0 <= i < below implies (#[trigger] result@[i]).1 < s by {
                    assert(spans[i].1 < spans[k as int].0);
                }
                if e < merged_start {
                    if merged > 0 {
                        assert(merged_start <= spans[below + merged - 1].0);
                    }
                    assert(merged == 0 && result.len() == below);
                }
            }
            if e < merged_start || s > merged_end {
                // No overlap/adjacency with the new range: keep as-is.
                result.push((s, e));
                if e < merged_start {
                    below += 1;
                }
            } else {
                // Overlapping or adjacent: compute the duplicate overlap against the *new*
                // range before merging.
                if overlap_start < overlap_end {
                    duplicate += overlap_end - overlap_start;
                }
                if s < merged_start {
                    merged_start = s;
                }
                if merged_end < e {
                    merged_end = e;
                }
                proof {
                    merged = merged + 1;
                }
            }
            k += 1;
        }
        let ghost kept = result@;
        result.insert(below, (merged_start, merged_end));
        proof {
            assert(spans.take(k as int) =~= spans);
            lemma_len_subset(covered(spans).intersect(chunk), chunk);
            let after = interval_spans(result@);
            assert forall|i: int| 0 <= i < after.len() implies (#[trigger] after[i]) == (
                if i < below {
                    spans[i]
                } else if i == below {
                    (merged_start as int, merged_end as int)
                } else {
                    spans[i - 1 + merged]
                }
            ) by {
                if i < below {
                    assert(result@[i] == kept[i]);
                } else if i > below {
                    assert(result@[i] == kept[i - 1]);
                }
            }
            assert(coalesced(after)) by {
                assert forall|i: int, j: int| 0 <= i < j < after.len() implies (
                #[trigger] after[i]).1 < (#[trigger] after[j]).0 by {
                    if i < below {
                        assert(kept[i].1 < merged_start);
                    }
                    if j > below {
                        assert(merged_end < kept[j - 1].0);
                    }
                }
            }
            assert(covered(after) =~= covered(spans).union(chunk)) by {
                assert forall|b: int| covered(after).contains(b) implies covered(spans).union(
                    chunk,
                ).contains(b) by {
                    let i = choose|i: int| 0 <= i < after.len() && #[trigger] in_span(after[i], b);
                    if i < below {
                        assert(in_span(spans[i], b));
                    } else if i > below {
                        assert(in_span(spans[i - 1 + merged], b));
                    } else if b < new_start {
                        assert(in_span(spans[below as int], b));
                    } else if b >= new_end {
                        assert(in_span(spans[below + merged - 1], b));
                    }
                }
                assert forall|b: int| covered(spans).union(chunk).contains(b) implies covered(
                    after,
                ).contains(b) by {
                    if chunk.contains(b) {
                        assert(in_span(after[below as int], b));
                    } else {
                        let i = choose|i: int|
                            0 <= i < spans.len() && #[trigger] in_span(spans[i], b);
                        if i < below {
                            assert(in_span(after[i], b));
                        } else if i < below + merged {
                            assert(in_span(after[below as int], b));
                        } else {
                            assert(in_span(after[i + 1 - merged], b));
                        }
                    }
                }
            }
        }
        self.intervals = result;
        self.duplicate_bytes += duplicate;
    }

    /// Total number of bytes received (deduplicated).
    pub fn received_bytes(&self) -> (count: u64)
        requires
            self.wf(),
        ensures
            count == self@.received.len(),
            count == total_len(self.spans()),
    {
        let ghost spans = self.spans();
        let mut sum: u64 = 0;
        let mut k: usize = 0;
        while k < self.intervals.len()
            invariant
                spans == interval_spans(self.intervals@),
                coalesced(spans),
                k <= self.intervals.len(),
                sum == total_len(spans.take(k as int)),
            decreases self.intervals.len() - k,
        {
            proof {
                assert(spans.take(k + 1).drop_last() =~= spans.take(k as int));
                lemma_total_len_fits(spans.take(k + 1), u64::MAX as int);
                assert(spans[k as int].0 < spans[k as int].1);
            }
            sum += self.intervals[k].1 - self.intervals[k].0;
            k += 1;
        }
        proof {
            assert(spans.take(k as int) =~= spans);
            lemma_covered_len(spans);
        }
        sum
    }

    /// Total number of bytes that arrived more than once.
    pub fn duplicate_bytes(&self) -> (count: u64)
        ensures
            count == self@.duplicates,
    {
        self.duplicate_bytes
    }

    /// The received intervals, each as `(start, end)`.
    pub fn intervals(&self) -> (intervals: &Vec<(u64, u64)>)
        ensures
            interval_spans(intervals@) == self.spans(),
    {
        &self.intervals
    }

    /// Gaps in `[0, total_size)` not covered by any received interval, as
    /// `FileDownlinkChunk { offset, size }`. Empty if the transfer is complete.
    pub fn gaps(&self, total_size: u64) -> (gaps: Vec<FileDownlinkChunk>)
        requires
            self.wf(),
        ensures
            coalesced(chunk_spans(gaps@)),
            covered(chunk_spans(gaps@)) == byte_range(0, total_size as int).difference(
                self@.received,
            ),
            gaps@.len() == 0 <==> byte_range(0, total_size as int).subset_of(self@.received),
    {
        let ghost spans = self.spans();
        let mut gaps: Vec<FileDownlinkChunk> = Vec::new();
        let mut cursor: u64 = 0;
        let mut k: usize = 0;
        assert(covered(chunk_spans(gaps@)) =~= byte_range(0, 0).difference(covered(spans)));
        while k < self.intervals.len()
            invariant
                spans == interval_spans(self.intervals@),
                coalesced(spans),
                k <= self.intervals.len(),
                cursor == end_of(spans, k as int),
                is_complement(chunk_spans(gaps@), spans, cursor as int, total_size as int),
            decreases self.intervals.len() - k,
        {
            let s: u64 = self.intervals[k].0;
            let e: u64 = self.intervals[k].1;
            let gap_end: u64 = if s < total_size { s } else { total_size };
            let ghost before = gaps@;
            if gap_end > cursor {
                gaps.push(FileDownlinkChunk { offset: cursor, size: gap_end - cursor });
                assert(chunk_spans(gaps@) =~= chunk_spans(before).push(
                    (cursor as int, gap_end as int),
                ));
            }
            proof {
                assert(spans[k as int] == (s as int, e as int));
                lemma_complement_grows(chunk_spans(before), spans, k as int, total_size as int);
            }
            cursor = e;
            k += 1;
        }
        let ghost before = gaps@;
        if cursor < total_size {
            gaps.push(FileDownlinkChunk { offset: cursor, size: total_size - cursor });
            assert(chunk_spans(gaps@) =~= chunk_spans(before).push(
                (cursor as int, total_size as int),
            ));
        }
        proof {
            lemma_complement_ends(chunk_spans(before), spans, total_size as int);
            if gaps@.len() > 0 {
                let first = chunk_spans(gaps@)[0];
                assert(in_span(chunk_spans(gaps@)[0], first.0));
                assert(covered(chunk_spans(gaps@)).contains(first.0));
            } else {
                assert(covered(chunk_spans(gaps@)) =~= Set::empty());
                assert forall|b: int|
                    byte_range(0, total_size as int).contains(b) implies self@.received.contains(
                    b,
                ) by {
                    assert(!covered(chunk_spans(gaps@)).contains(b));
                }
            }
        }
        gaps
    }
}

/// Where the first `k` spans end.
spec fn end_of(spans: Seq<(int, int)>, k: int) -> int {
    if k == 0 {
        0
    } else {
        spans[k - 1].1
    }
}

/// `gaps` lists, of the bytes below `cursor` and below `total`, those that no span covers.
spec fn is_complement(
    gaps: Seq<(int, int)>,
    spans: Seq<(int, int)>,
    cursor: int,
    total: int,
) -> bool {
    let end = if cursor < total { cursor } else { total };
    &&& coalesced(gaps)
    &&& forall|i: int| 0 <= i < gaps.len() ==> (#[trigger] gaps[i]).1 < cursor
    &&& covered(gaps) == byte_range(0, end).difference(covered(spans))
}

/// A gap list with the span `[from, to)` behind it.
spec fn with_gap(gaps: Seq<(int, int)>, from: int, to: int) -> Seq<(int, int)> {
    if from < to {
        gaps.push((from, to))
    } else {
        gaps
    }
}

/// One more gap adds its bytes.
proof fn lemma_covered_with_gap(gaps: Seq<(int, int)>, from: int, to: int)
    ensures
        forall|b: int| #[trigger]
            covered(with_gap(gaps, from, to)).contains(b) <==> covered(gaps).contains(b) || from
                <= b < to,
{
    if from < to {
        let longer = gaps.push((from, to));
        assert(longer.drop_last() =~= gaps);
        lemma_covered_last(longer);
    }
}

/// A byte between the end of the first `k` spans and the start of the next is not covered.
proof fn lemma_free_between(spans: Seq<(int, int)>, k: int, b: int)
    requires
        coalesced(spans),
        0 <= k <= spans.len(),
        end_of(spans, k) <= b,
        k < spans.len() ==> b < spans[k].0,
    ensures
        !covered(spans).contains(b),
{
    if covered(spans).contains(b) {
        let i = choose|i: int| 0 <= i < spans.len() && #[trigger] in_span(spans[i], b);
        if i < k - 1 {
            assert(spans[i].1 < spans[k - 1].0);
        } else if i > k {
            assert(spans[k].1 < spans[i].0);
        }
    }
}

/// The gap before the next span completes the list of gaps up to the end of that span.
proof fn lemma_complement_grows(
    gaps: Seq<(int, int)>,
    spans: Seq<(int, int)>,
    k: int,
    total: int,
)
    requires
        coalesced(spans),
        0 <= k < spans.len(),
        0 <= spans[0].0,
        0 <= total,
        is_complement(gaps, spans, end_of(spans, k), total),
    ensures
        ({
            let gap_end = if spans[k].0 < total { spans[k].0 } else { total };
            is_complement(with_gap(gaps, end_of(spans, k), gap_end), spans, spans[k].1, total)
        }),
{
    let cursor = end_of(spans, k);
    let gap_end = if spans[k].0 < total { spans[k].0 } else { total };
    let longer = with_gap(gaps, cursor, gap_end);
    let end = if spans[k].1 < total { spans[k].1 } else { total };
    if k > 0 {
        assert(spans[k - 1].1 < spans[k].0);
    }
    lemma_covered_with_gap(gaps, cursor, gap_end);
    assert forall|b: int| covered(longer).contains(b) <==> byte_range(0, end).difference(
        covered(spans),
    ).contains(b) by {
        if cursor <= b < spans[k].0 {
            lemma_free_between(spans, k, b);
        }
        if spans[k].0 <= b < spans[k].1 {
            assert(in_span(spans[k], b));
        }
    }
    assert(covered(longer) =~= byte_range(0, end).difference(covered(spans)));
}

/// The gap behind the last span completes the list of gaps.
proof fn lemma_complement_ends(gaps: Seq<(int, int)>, spans: Seq<(int, int)>, total: int)
    requires
        coalesced(spans),
        0 <= total,
        0 <= end_of(spans, spans.len() as int),
        is_complement(gaps, spans, end_of(spans, spans.len() as int), total),
    ensures
        ({
            let all = with_gap(gaps, end_of(spans, spans.len() as int), total);
            coalesced(all) && covered(all) == byte_range(0, total).difference(covered(spans))
        }),
{
    let cursor = end_of(spans, spans.len() as int);
    let all = with_gap(gaps, cursor, total);
    lemma_covered_with_gap(gaps, cursor, total);
    assert forall|b: int| covered(all).contains(b) <==> byte_range(0, total).difference(
        covered(spans),
    ).contains(b) by {
        if cursor <= b {
            lemma_free_between(spans, spans.len() as int, b);
        }
    }
    assert(covered(all) =~= byte_range(0, total).difference(covered(spans)));
}

/// The spans of a coalesced list within `[0, bound)` are no longer than that together.
proof fn lemma_total_len_fits(spans: Seq<(int, int)>, bound: int)
    requires
        coalesced(spans),
        forall|i: int| 0 <= i < spans.len() ==> 0 <= (#[trigger] spans[i]).0 && spans[i].1 <= bound,
        0 <= bound,
    ensures
        total_len(spans) <= bound,
{
    lemma_covered_len(spans);
    lemma_int_range(0, bound);
    assert forall|b: int| covered(spans).contains(b) implies byte_range(0, bound).contains(b) by {
        let i = choose|i: int| 0 <= i < spans.len() && #[trigger] in_span(spans[i], b);
    }
    lemma_len_subset(covered(spans), byte_range(0, bound));
}

/// One more span adds to the bytes shared with `[start, end)` those that it shares itself.
proof fn lemma_overlap_grows(spans: Seq<(int, int)>, k: int, start: int, end: int)
    requires
        coalesced(spans),
        0 <= k < spans.len(),
        start < end,
        covered(spans.take(k)).intersect(byte_range(start, end)).finite(),
    ensures
        covered(spans.take(k + 1)).intersect(byte_range(start, end)).finite(),
        covered(spans.take(k + 1)).intersect(byte_range(start, end)).len() == covered(
            spans.take(k),
        ).intersect(byte_range(start, end)).len() + ({
            let from = if spans[k].0 < start { start } else { spans[k].0 };
            let to = if spans[k].1 < end { spans[k].1 } else { end };
            if from < to { to - from } else { 0 }
        }),
        covered(spans.take(k + 1)).intersect(byte_range(start, end)).len() <= end - start,
{
    let from = if spans[k].0 < start { start } else { spans[k].0 };
    let to = if spans[k].1 < end { spans[k].1 } else { end };
    let chunk = byte_range(start, end);
    let shared = if from < to { byte_range(from, to) } else { Set::<int>::empty() };
    let before = covered(spans.take(k)).intersect(chunk);
    let after = covered(spans.take(k + 1)).intersect(chunk);
    assert(spans.take(k + 1).drop_last() =~= spans.take(k));
    lemma_covered_last(spans.take(k + 1));
    if from < to {
        lemma_int_range(from, to);
    }
    assert(after =~= before + shared);
    assert(before.disjoint(shared)) by {
        assert forall|b: int| before.contains(b) implies !shared.contains(b) by {
            let i = choose|i: int|
                0 <= i < spans.take(k).len() && #[trigger] in_span(spans.take(k)[i], b);
            assert(spans.take(k)[i] == spans[i]);
        }
    }
    lemma_set_disjoint_lens(before, shared);
    lemma_int_range(start, end);
    lemma_len_subset(after, chunk);
}

/// Recording a chunk counts each of its bytes once, as received or as a duplicate.
pub proof fn lemma_recorded_counts_every_byte_once(transfer: Transfer, offset: int, length: int)
    requires
        transfer.received.finite(),
        0 <= length,
    ensures
        recorded(transfer, offset, length).received.finite(),
        recorded(transfer, offset, length).received.len() + recorded(
            transfer,
            offset,
            length,
        ).duplicates == transfer.received.len() + transfer.duplicates + length,
{
    lemma_int_range(offset, offset + length);
    lemma_set_intersect_union_lens(transfer.received, byte_range(offset, offset + length));
}

/// A chunk that has arrived before changes nothing but the count of duplicates, which grows by
/// its length.
pub proof fn lemma_recorded_again_is_all_duplicate(transfer: Transfer, offset: int, length: int)
    requires
        0 <= length,
    ensures
        ({
            let once = recorded(transfer, offset, length);
            let twice = recorded(once, offset, length);
            twice.received == once.received && twice.duplicates == once.duplicates + length
        }),
{
    let chunk = byte_range(offset, offset + length);
    let once = recorded(transfer, offset, length);
    lemma_int_range(offset, offset + length);
    assert(once.received.union(chunk) =~= once.received);
    assert(once.received.intersect(chunk) =~= chunk);
}

/// Two chunks leave the same transfer whichever of them arrives first.
pub proof fn lemma_recorded_commutes(
    transfer: Transfer,
    first_offset: int,
    first_length: int,
    second_offset: int,
    second_length: int,
)
    requires
        0 <= first_length,
        0 <= second_length,
    ensures
        recorded(
            recorded(transfer, first_offset, first_length),
            second_offset,
            second_length,
        ) == recorded(
            recorded(transfer, second_offset, second_length),
            first_offset,
            first_length,
        ),
{
    let all = transfer.received;
    let a = byte_range(first_offset, first_offset + first_length);
    let b = byte_range(second_offset, second_offset + second_length);
    lemma_int_range(first_offset, first_offset + first_length);
    lemma_int_range(second_offset, second_offset + second_length);
    assert(all.union(a).union(b) =~= all.union(b).union(a));
    lemma_shared_with_union(all, a, b);
    lemma_shared_with_union(all, b, a);
    assert(a.intersect(b) =~= b.intersect(a));
    assert(all.intersect(b).intersect(a.intersect(b)) =~= all.intersect(a).intersect(
        b.intersect(a),
    ));
}

/// The bytes of `b` that lie in `all` or in `a`.
proof fn lemma_shared_with_union(all: Set<int>, a: Set<int>, b: Set<int>)
    requires
        a.finite(),
        b.finite(),
    ensures
        all.union(a).intersect(b).len() + all.intersect(b).intersect(a.intersect(b)).len()
            == all.intersect(b).len() + a.intersect(b).len(),
{
    lemma_len_subset(all.intersect(b), b);
    lemma_len_subset(a.intersect(b), b);
    lemma_set_intersect_union_lens(all.intersect(b), a.intersect(b));
    assert(all.union(a).intersect(b) =~= all.intersect(b) + a.intersect(b));
}

/// The transfer after a list of chunks, each given by its offset and its length.
pub open spec fn recorded_all(transfer: Transfer, chunks: Seq<(u64, u64)>) -> Transfer {
    chunks.fold_left(
        transfer,
        |t: Transfer, chunk: (u64, u64)| recorded(t, chunk.0 as int, chunk.1 as int),
    )
}

/// Chunks leave the same transfer in whatever order they arrive.
pub proof fn lemma_recorded_in_any_order(
    transfer: Transfer,
    chunks: Seq<(u64, u64)>,
    reordered: Seq<(u64, u64)>,
)
    requires
        chunks.to_multiset() == reordered.to_multiset(),
    ensures
        recorded_all(transfer, chunks) == recorded_all(transfer, reordered),
{
    let step = |t: Transfer, chunk: (u64, u64)| recorded(t, chunk.0 as int, chunk.1 as int);
    assert(vstd::seq_lib::commutative_foldl(step)) by {
        assert forall|x: (u64, u64), y: (u64, u64), t: Transfer| #[trigger]
            step(step(t, x), y) == step(step(t, y), x) by {
            lemma_recorded_commutes(t, x.0 as int, x.1 as int, y.0 as int, y.1 as int);
        }
    }
    vstd::seq_lib::lemma_fold_left_permutation(chunks, reordered, step, transfer);
}

/// Two trackers that have received the same bytes hold the same intervals, and so report the
/// same gaps.
pub proof fn lemma_intervals_depend_on_received_bytes(
    first: IntervalTracker,
    second: IntervalTracker,
)
    requires
        first.wf(),
        second.wf(),
        first@.received == second@.received,
    ensures
        first.spans() == second.spans(),
{
    crate::spans::lemma_coalesced_is_unique(first.spans(), second.spans());
}

/// The gaps of a transfer and what has been received of it make up the file.
pub proof fn lemma_gaps_and_received_make_up_the_file(
    transfer: Transfer,
    gaps: Seq<(int, int)>,
    total_size: u64,
)
    requires
        coalesced(gaps),
        covered(gaps) == byte_range(0, total_size as int).difference(transfer.received),
    ensures
        total_len(gaps) + transfer.received.intersect(byte_range(0, total_size as int)).len()
            == total_size,
{
    let file = byte_range(0, total_size as int);
    let there = transfer.received.intersect(file);
    lemma_covered_len(gaps);
    lemma_int_range(0, total_size as int);
    lemma_len_subset(there, file);
    assert(covered(gaps).disjoint(there));
    lemma_set_disjoint_lens(covered(gaps), there);
    assert(covered(gaps) + there =~= file);
}

} // verus!
