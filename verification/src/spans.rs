//! Half-open spans of byte offsets: the set of bytes that a list of spans covers, and the one
//! sorted and coalesced list that covers a given set.

use vstd::prelude::*;
use vstd::set_lib::{lemma_int_range, lemma_set_disjoint_lens, set_int_range};

verus! {

/// The bytes of `[start, end)`.
pub open spec fn byte_range(start: int, end: int) -> Set<int> {
    set_int_range(start, end)
}

/// The byte `b` lies in the span `[start, end)`.
pub open spec fn in_span(span: (int, int), b: int) -> bool {
    span.0 <= b < span.1
}

/// The bytes that lie in some span of the list.
pub open spec fn covered(spans: Seq<(int, int)>) -> Set<int> {
    Set::new(|b: int| exists|i: int| 0 <= i < spans.len() && #[trigger] in_span(spans[i], b))
}

/// No span is empty, and between each span and the ones after it at least one byte is free:
/// the list is sorted, without overlap and without adjacent spans.
pub open spec fn coalesced(spans: Seq<(int, int)>) -> bool {
    &&& forall|i: int| 0 <= i < spans.len() ==> (#[trigger] spans[i]).0 < spans[i].1
    &&& forall|i: int, j: int|
        0 <= i < j < spans.len() ==> (#[trigger] spans[i]).1 < (#[trigger] spans[j]).0
}

/// The lengths of the spans, added up.
pub open spec fn total_len(spans: Seq<(int, int)>) -> int
    decreases spans.len(),
{
    if spans.len() == 0 {
        0
    } else {
        total_len(spans.drop_last()) + (spans.last().1 - spans.last().0)
    }
}

/// A byte is covered by a list when it is covered by all but the last span, or lies in the last.
pub proof fn lemma_covered_last(spans: Seq<(int, int)>)
    requires
        spans.len() > 0,
    ensures
        covered(spans) == covered(spans.drop_last()).union(
            byte_range(spans.last().0, spans.last().1),
        ),
{
    let init = spans.drop_last();
    assert forall|b: int| covered(spans).contains(b) <==> covered(init).contains(b) || in_span(
        spans.last(),
        b,
    ) by {
        if covered(spans).contains(b) {
            let i = choose|i: int| 0 <= i < spans.len() && #[trigger] in_span(spans[i], b);
            if i < init.len() {
                assert(in_span(init[i], b));
            }
        }
        if covered(init).contains(b) {
            let i = choose|i: int| 0 <= i < init.len() && #[trigger] in_span(init[i], b);
            assert(in_span(spans[i], b));
        }
        if in_span(spans.last(), b) {
            assert(in_span(spans[spans.len() - 1], b));
        }
    }
    assert(covered(spans) =~= covered(init).union(byte_range(spans.last().0, spans.last().1)));
}

/// A coalesced list covers as many bytes as its spans are long.
pub proof fn lemma_covered_len(spans: Seq<(int, int)>)
    requires
        coalesced(spans),
    ensures
        covered(spans).finite(),
        covered(spans).len() == total_len(spans),
    decreases spans.len(),
{
    if spans.len() == 0 {
        assert(covered(spans) =~= Set::empty());
    } else {
        let init = spans.drop_last();
        let last = byte_range(spans.last().0, spans.last().1);
        assert forall|i: int| 0 <= i < init.len() implies (#[trigger] init[i]).1
            < spans.last().0 by {
            assert(init[i] == spans[i]);
        }
        lemma_covered_last(spans);
        lemma_covered_len(init);
        lemma_int_range(spans.last().0, spans.last().1);
        assert(covered(init).disjoint(last)) by {
            assert forall|b: int| covered(init).contains(b) implies !last.contains(b) by {
                let i = choose|i: int| 0 <= i < init.len() && #[trigger] in_span(init[i], b);
            }
        }
        lemma_set_disjoint_lens(covered(init), last);
    }
}

/// Only one coalesced list covers a given set of bytes.
pub proof fn lemma_coalesced_is_unique(first: Seq<(int, int)>, second: Seq<(int, int)>)
    requires
        coalesced(first),
        coalesced(second),
        covered(first) == covered(second),
    ensures
        first == second,
    decreases first.len(),
{
    if first.len() == 0 {
        if second.len() > 0 {
            assert(in_span(second[0], second[0].0));
            assert(covered(first).contains(second[0].0));
        }
    } else if second.len() == 0 {
        assert(in_span(first[0], first[0].0));
        assert(covered(second).contains(first[0].0));
    } else {
        lemma_last_span_reaches_as_far(first, second);
        lemma_last_span_reaches_as_far(second, first);
        let a = first.drop_last();
        let b = second.drop_last();
        assert(covered(a) =~= covered(b)) by {
            lemma_covered_last(first);
            lemma_covered_last(second);
            lemma_before_last(first);
            lemma_before_last(second);
            assert forall|x: int| covered(a).contains(x) <==> covered(b).contains(x) by {
                assert(covered(first).contains(x) <==> covered(a).contains(x) || in_span(
                    first.last(),
                    x,
                ));
                assert(covered(second).contains(x) <==> covered(b).contains(x) || in_span(
                    second.last(),
                    x,
                ));
            }
        }
        lemma_coalesced_is_unique(a, b);
        assert(first =~= a.push(first.last()));
        assert(second =~= b.push(second.last()));
    }
}

/// All but the last span of a coalesced list end before the last one starts.
proof fn lemma_before_last(spans: Seq<(int, int)>)
    requires
        spans.len() > 0,
        coalesced(spans),
    ensures
        forall|b: int| #[trigger]
            covered(spans.drop_last()).contains(b) ==> b < spans.last().0,
{
    let init = spans.drop_last();
    assert forall|b: int| #[trigger] covered(init).contains(b) implies b < spans.last().0 by {
        let i = choose|i: int| 0 <= i < init.len() && #[trigger] in_span(init[i], b);
        assert(init[i] == spans[i]);
    }
}

/// Where two coalesced lists cover the same bytes, the last span of the second starts no later
/// and ends no earlier than that of the first.
proof fn lemma_last_span_reaches_as_far(first: Seq<(int, int)>, second: Seq<(int, int)>)
    requires
        first.len() > 0,
        second.len() > 0,
        coalesced(first),
        coalesced(second),
        covered(first) == covered(second),
    ensures
        second.last().0 <= first.last().0,
        first.last().1 <= second.last().1,
{
    let f = first.last();
    let s = second.last();
    assert(first[first.len() - 1] == f);
    assert(second[second.len() - 1] == s);
    assert(in_span(first[first.len() - 1], f.1 - 1));
    assert(covered(second).contains(f.1 - 1));
    let i = choose|i: int| 0 <= i < second.len() && #[trigger] in_span(second[i], f.1 - 1);
    assert(f.1 <= s.1);
    if f.0 < s.0 {
        if s.0 - 1 < f.1 {
            assert(in_span(first[first.len() - 1], s.0 - 1));
            assert(covered(second).contains(s.0 - 1));
            let j = choose|j: int| 0 <= j < second.len() && #[trigger] in_span(second[j], s.0 - 1);
            assert(false);
        } else {
            assert(in_span(second[second.len() - 1], s.1 - 1));
            assert(covered(first).contains(s.1 - 1));
            let j = choose|j: int| 0 <= j < first.len() && #[trigger] in_span(first[j], s.1 - 1);
            assert(false);
        }
    }
}

} // verus!
