//! Laws of the throughput monitor, stated over the abstract state that the
//! monitor's own contracts use.
use crate::tps_monitor::{
    contribution_in, initial_view, lemma_trim_front_suffix, pruned_view, recorded_view, reset_view,
    trim_front, valid_segment, window_contributions, window_nanos, RequestSegment, TpsView,
};
use vstd::prelude::*;

verus! {

/// Segments ordered by end instant, as they are when requests are recorded
/// in the order they complete.
pub open spec fn ends_sorted(segs: Seq<RequestSegment>) -> bool {
    forall|i: int, j: int| 0 <= i <= j < segs.len() ==> (#[trigger] segs[i]).end <= (#[trigger] segs[j]).end
}

/// A record with zero output, or whose end is not after its start, leaves the
/// monitor exactly as it was, whatever the other arguments.
pub proof fn lemma_ignored_record_changes_nothing(v: TpsView, output_tokens: u64, start: u64, end: u64)
    requires
        output_tokens == 0 || end <= start,
    ensures
        recorded_view(v, output_tokens, start, end) == v,
        recorded_view(v, output_tokens, start, end).segments.len() == v.segments.len(),
{
}

/// A monitor without segments reports no share of output at any instant, and
/// still has no segments afterwards.
pub proof fn lemma_no_segments_is_idle(v: TpsView, now: u64)
    requires
        v.segments.len() == 0,
    ensures
        pruned_view(v, now as int).segments.len() == 0,
        window_contributions(pruned_view(v, now as int).segments, now as int, v.window_secs).len()
            == 0,
{
    assert(trim_front(v.segments, now - window_nanos(v.window_secs)) == v.segments);
}

/// After `reset`, the monitor holds no segments, keeps its window, and
/// reports no share of output at any instant.
pub proof fn lemma_reset_is_idle(v: TpsView, now: u64)
    ensures
        reset_view(v).segments.len() == 0,
        reset_view(v).window_secs == v.window_secs,
        pruned_view(reset_view(v), now as int).segments.len() == 0,
        window_contributions(pruned_view(reset_view(v), now as int).segments, now as int, v.window_secs).len()
            == 0,
{
    lemma_no_segments_is_idle(reset_view(v), now);
}

/// A window span of zero is taken as one second: both build the same monitor.
pub proof fn lemma_zero_window_is_one_second()
    ensures
        initial_view(0) == initial_view(1),
{
}

/// After pruning at `cutoff`, the front segment (if any) ends at or after it.
proof fn lemma_trim_front_front_live(segs: Seq<RequestSegment>, cutoff: int)
    ensures
        trim_front(segs, cutoff).len() > 0 ==> trim_front(segs, cutoff)[0].end >= cutoff,
    decreases segs.len(),
{
    if segs.len() > 0 && segs[0].end < cutoff {
        lemma_trim_front_front_live(segs.drop_first(), cutoff);
    }
}

/// With segments ordered by end, pruning at `cutoff` keeps none that ended before it.
proof fn lemma_trim_front_all_live(segs: Seq<RequestSegment>, cutoff: int)
    requires
        ends_sorted(segs),
    ensures
        forall|i: int| 0 <= i < trim_front(segs, cutoff).len() ==> (#[trigger] trim_front(segs, cutoff)[i]).end >= cutoff,
{
    lemma_trim_front_front_live(segs, cutoff);
    lemma_trim_front_suffix(segs, cutoff);
    let t = trim_front(segs, cutoff);
    let k = segs.len() - t.len();
    assert forall|i: int| 0 <= i < t.len() implies (#[trigger] t[i]).end >= cutoff by {
        assert(t[0] == segs[k]);
        assert(t[i] == segs[k + i]);
    }
}

/// After a query at `now`, with segments ordered by end, no segment is kept
/// whose end is earlier than `now` minus the window span.
pub proof fn lemma_query_evicts_expired(v: TpsView, now: u64)
    requires
        v.wf(),
        ends_sorted(v.segments),
    ensures
        forall|i: int|
            0 <= i < pruned_view(v, now as int).segments.len() ==> (#[trigger] pruned_view(
                v,
                now as int,
            ).segments[i]).end >= now - window_nanos(v.window_secs),
{
    if now >= window_nanos(v.window_secs) {
        lemma_trim_front_all_live(v.segments, now - window_nanos(v.window_secs));
    }
}

/// After a record that is kept, with segments ordered by end and the new one
/// ending last, no segment is kept whose end is earlier than the new end
/// minus the window span.
pub proof fn lemma_record_evicts_expired(v: TpsView, output_tokens: u64, start: u64, end: u64)
    requires
        v.wf(),
        ends_sorted(v.segments),
        forall|i: int| 0 <= i < v.segments.len() ==> (#[trigger] v.segments[i]).end <= end,
        output_tokens > 0,
        end > start,
    ensures
        forall|i: int|
            0 <= i < recorded_view(v, output_tokens, start, end).segments.len() ==> (#[trigger] recorded_view(
                v,
                output_tokens,
                start,
                end,
            ).segments[i]).end >= end - window_nanos(v.window_secs),
{
    let pushed = v.segments.push(RequestSegment { start, end, output_tokens });
    assert forall|i: int, j: int| 0 <= i <= j < pushed.len() implies (#[trigger] pushed[i]).end <= (
    #[trigger] pushed[j]).end by {
        if j < v.segments.len() {
            assert(pushed[i] == v.segments[i]);
            assert(pushed[j] == v.segments[j]);
        } else if i < v.segments.len() {
            assert(pushed[i] == v.segments[i]);
        }
    }
    if end >= window_nanos(v.window_secs) {
        lemma_trim_front_all_live(pushed, end - window_nanos(v.window_secs));
    }
}

/// A segment that reaches outside the window contributes only part of its
/// output: the overlap is exactly the part of its duration inside the window,
/// and is strictly shorter than the segment, so its share
/// `output_tokens * overlap_nanos / span_nanos` is strictly below `output_tokens`.
pub proof fn lemma_partial_overlap_is_proportional(s: RequestSegment, lo: int, hi: int)
    requires
        valid_segment(s),
        lo < hi,
        s.start < lo || s.end > hi,
        contribution_in(s, lo, hi) is Some,
    ensures
        ({
            let c = contribution_in(s, lo, hi).unwrap();
            &&& c.overlap_nanos == (if s.end < hi { s.end as int } else { hi }) - (if s.start > lo {
                s.start as int
            } else {
                lo
            })
            &&& c.span_nanos == s.end - s.start
            &&& c.output_tokens == s.output_tokens
            &&& 0 < c.overlap_nanos < c.span_nanos
            &&& c.output_tokens * c.overlap_nanos < c.output_tokens * c.span_nanos
        }),
{
    let c = contribution_in(s, lo, hi).unwrap();
    assert(0 < c.overlap_nanos < c.span_nanos);
    let o = c.output_tokens as int;
    let a = c.overlap_nanos as int;
    let b = c.span_nanos as int;
    assert(o * a < o * b) by (nonlinear_arith)
        requires
            o > 0,
            a < b,
    ;
}

} // verus!
