//! The throughput monitor: a queue of request segments, oldest first, that is
//! pruned from the front on every insertion and every query.
use std::collections::VecDeque;
use vstd::prelude::*;

verus! {

/// Window span used when none is configured, in seconds.
pub const DEFAULT_WINDOW_SECS: u64 = 5;

/// Nanoseconds in one second: timestamps are monotonic nanoseconds.
pub const NANOS_PER_SEC: u64 = 1_000_000_000;

/// One completed request: its output, spread evenly over `[start, end]`.
#[derive(Clone, Copy, Debug, PartialEq, Eq)]
pub struct RequestSegment {
    pub start: u64,
    pub end: u64,
    pub output_tokens: u64,
}

/// The abstract state of a monitor: its window span in seconds and its
/// segments, oldest first.
pub struct TpsView {
    pub window_secs: nat,
    pub segments: Seq<RequestSegment>,
}

/// Throughput monitor over a sliding window of `window_secs` seconds.
pub struct TpsMonitor {
    window_secs: u64,
    segments: VecDeque<RequestSegment>,
}

impl View for TpsMonitor {
    type V = TpsView;

    closed spec fn view(&self) -> TpsView {
        TpsView { window_secs: self.window_secs as nat, segments: self.segments@ }
    }
}

/// A stored segment has a positive duration and a positive output.
pub open spec fn valid_segment(s: RequestSegment) -> bool {
    s.end > s.start && s.output_tokens > 0
}

impl TpsView {
    pub open spec fn wf(self) -> bool {
        &&& self.window_secs >= 1
        &&& self.window_secs <= u64::MAX
        &&& forall|i: int| 0 <= i < self.segments.len() ==> valid_segment(#[trigger] self.segments[i])
    }
}

/// The window span that a monitor built with `window_secs` uses: at least one second.
pub open spec fn clamped_window(window_secs: u64) -> nat {
    if window_secs == 0 { 1 } else { window_secs as nat }
}

/// The state of a freshly built monitor.
pub open spec fn initial_view(window_secs: u64) -> TpsView {
    TpsView { window_secs: clamped_window(window_secs), segments: Seq::empty() }
}

/// The state after `reset`: no segments, same window.
pub open spec fn reset_view(v: TpsView) -> TpsView {
    TpsView { window_secs: v.window_secs, segments: Seq::empty() }
}

/// The share of one segment that falls inside a window: its output, the
/// length of its overlap with the window and its own duration, all in
/// nanoseconds. It stands for `output_tokens * overlap_nanos / span_nanos`
/// units of output.
#[derive(Clone, Copy, Debug, PartialEq, Eq)]
pub struct Contribution {
    pub output_tokens: u64,
    pub overlap_nanos: u64,
    pub span_nanos: u64,
}

/// The result of a query: the window it was taken over and the share of each
/// live segment inside it. The rate is the sum of the shares divided by
/// `window_secs`; with no shares it is zero.
pub struct TpsSample {
    pub window_secs: u64,
    pub contributions: Vec<Contribution>,
}

/// A share that counts: positive output, and an overlap that is positive and
/// no longer than the segment itself.
pub open spec fn positive_contribution(c: Contribution) -> bool {
    c.output_tokens > 0 && 0 < c.overlap_nanos <= c.span_nanos
}

/// The window span in nanoseconds.
pub open spec fn window_nanos(window_secs: nat) -> int {
    window_secs * NANOS_PER_SEC
}

/// Drops segments from the front while the front one ends before `cutoff`.
pub open spec fn trim_front(segs: Seq<RequestSegment>, cutoff: int) -> Seq<RequestSegment>
    decreases segs.len(),
{
    if segs.len() > 0 && segs[0].end < cutoff {
        trim_front(segs.drop_first(), cutoff)
    } else {
        segs
    }
}

/// The segments left after pruning at instant `now`: nothing is pruned while
/// `now` is earlier than one window span.
pub open spec fn trimmed(segs: Seq<RequestSegment>, now: int, window_secs: nat) -> Seq<RequestSegment> {
    if now >= window_nanos(window_secs) {
        trim_front(segs, now - window_nanos(window_secs))
    } else {
        segs
    }
}

/// The share of segment `s` inside the window `[lo, hi]`, if it has one.
pub open spec fn contribution_in(s: RequestSegment, lo: int, hi: int) -> Option<Contribution> {
    let overlap_start = if s.start > lo { s.start as int } else { lo };
    let overlap_end = if s.end < hi { s.end as int } else { hi };
    if overlap_end > overlap_start && s.end > s.start {
        Some(
            Contribution {
                output_tokens: s.output_tokens,
                overlap_nanos: (overlap_end - overlap_start) as u64,
                span_nanos: (s.end - s.start) as u64,
            },
        )
    } else {
        None
    }
}

/// `contribution_in` for a fixed window, as a function of the segment.
pub open spec fn contribution_fn(lo: int, hi: int) -> spec_fn(RequestSegment) -> Option<Contribution> {
    |s: RequestSegment| contribution_in(s, lo, hi)
}

/// The shares, in queue order, of the segments that overlap the window that
/// ends at `now`; none while `now` is earlier than one window span.
pub open spec fn window_contributions(segs: Seq<RequestSegment>, now: int, window_secs: nat) -> Seq<
    Contribution,
> {
    if now >= window_nanos(window_secs) {
        segs.filter_map(contribution_fn(now - window_nanos(window_secs), now))
    } else {
        Seq::empty()
    }
}

/// The state after pruning at `now`.
pub open spec fn pruned_view(v: TpsView, now: int) -> TpsView {
    TpsView { window_secs: v.window_secs, segments: trimmed(v.segments, now, v.window_secs) }
}

/// The state after recording a request: unchanged when the output is zero or
/// the duration is not positive; otherwise the segment is appended and the
/// queue pruned at its end.
pub open spec fn recorded_view(v: TpsView, output_tokens: u64, start: u64, end: u64) -> TpsView {
    if output_tokens == 0 || end <= start {
        v
    } else {
        let seg = RequestSegment { start, end, output_tokens };
        TpsView {
            window_secs: v.window_secs,
            segments: trimmed(v.segments.push(seg), end as int, v.window_secs),
        }
    }
}

/// Pruning keeps a suffix of the queue.
pub(crate) proof fn lemma_trim_front_suffix(segs: Seq<RequestSegment>, cutoff: int)
    ensures
        trim_front(segs, cutoff).len() <= segs.len(),
        trim_front(segs, cutoff) == segs.subrange(
            segs.len() - trim_front(segs, cutoff).len(),
            segs.len() as int,
        ),
    decreases segs.len(),
{
    if segs.len() > 0 && segs[0].end < cutoff {
        lemma_trim_front_suffix(segs.drop_first(), cutoff);
        assert(segs.drop_first().subrange(
            segs.drop_first().len() - trim_front(segs, cutoff).len(),
            segs.drop_first().len() as int,
        ) =~= segs.subrange(segs.len() - trim_front(segs, cutoff).len(), segs.len() as int));
    } else {
        assert(segs =~= segs.subrange(0, segs.len() as int));
    }
}

/// Pruning keeps the queue well formed.
proof fn lemma_pruned_wf(v: TpsView, now: int)
    requires
        v.wf(),
    ensures
        pruned_view(v, now).wf(),
{
    if now >= window_nanos(v.window_secs) {
        let c = now - window_nanos(v.window_secs);
        lemma_trim_front_suffix(v.segments, c);
        let t = trim_front(v.segments, c);
        assert forall|i: int| 0 <= i < t.len() implies valid_segment(#[trigger] t[i]) by {
            assert(t[i] == v.segments[v.segments.len() - t.len() + i]);
        }
    }
}

impl TpsMonitor {
    /// A monitor with a window of `window_secs` seconds; 0 is taken as 1.
    pub fn new(window_secs: u64) -> (r: Self)
        ensures
            r@ == initial_view(window_secs),
            r@.wf(),
    {
        let w: u64 = if window_secs > 1 { window_secs } else { 1 };
        TpsMonitor { window_secs: w, segments: VecDeque::new() }
    }

    /// Records one completed request of `output_tokens` units over
    /// `[start, end]`. A zero output or a non-positive duration is ignored;
    /// otherwise the segment is appended and the queue pruned at `end`.
    pub fn record_completed_request(&mut self, output_tokens: u64, start: u64, end: u64)
        requires
            old(self)@.wf(),
        ensures
            final(self)@ == recorded_view(old(self)@, output_tokens, start, end),
            final(self)@.wf(),
    {
        if output_tokens == 0 {
            return;
        }
        if end <= start {
            return;
        }
        self.segments.push_back(RequestSegment { start, end, output_tokens });
        proof {
            assert forall|i: int| 0 <= i < self@.segments.len() implies valid_segment(
                #[trigger] self@.segments[i],
            ) by {
                if i < old(self)@.segments.len() {
                    assert(self@.segments[i] == old(self)@.segments[i]);
                }
            }
        }
        self.trim_expired_at(end);
    }

    /// Takes a sample of the window that ends at `now`, after pruning the
    /// queue at `now`. Before one full window has passed (`now` earlier than
    /// the span) the sample is empty.
    pub fn current_tps_at(&mut self, now: u64) -> (r: TpsSample)
        requires
            old(self)@.wf(),
        ensures
            final(self)@ == pruned_view(old(self)@, now as int),
            final(self)@.wf(),
            r.window_secs == final(self)@.window_secs,
            r.contributions@ == window_contributions(
                final(self)@.segments,
                now as int,
                final(self)@.window_secs,
            ),
            forall|i: int|
                0 <= i < r.contributions@.len() ==> positive_contribution(
                    #[trigger] r.contributions@[i],
                ),
    {
        self.trim_expired_at(now);
        let mut contributions: Vec<Contribution> = Vec::new();
        let span: u128 = self.window_secs as u128 * NANOS_PER_SEC as u128;
        if (now as u128) < span {
            return TpsSample { window_secs: self.window_secs, contributions };
        }
        let window_start: u64 = (now as u128 - span) as u64;
        let ghost f = contribution_fn(window_start as int, now as int);
        let ghost segs = self.segments@;
        proof {
            assert(self@.wf());
            assert(self@.segments == segs);
        }
        let mut i: usize = 0;
        while i < self.segments.len()
            invariant
                self.segments@ == segs,
                f == contribution_fn(window_start as int, now as int),
                forall|j: int| 0 <= j < segs.len() ==> valid_segment(#[trigger] segs[j]),
                0 <= i <= segs.len(),
                contributions@ == segs.subrange(0, i as int).filter_map(f),
                forall|j: int|
                    0 <= j < contributions@.len() ==> positive_contribution(
                        #[trigger] contributions@[j],
                    ),
            decreases segs.len() - i,
        {
            let seg = self.segments[i];
            let ghost prev = contributions@;
            proof {
                assert(segs.subrange(0, i + 1).drop_last() =~= segs.subrange(0, i as int));
                assert(segs.subrange(0, i + 1).last() == seg);
                assert(valid_segment(segs[i as int]));
                assert(segs.subrange(0, i + 1).filter_map(f) == prev + match f(seg) {
                    Some(c) => seq![c],
                    None => Seq::empty(),
                });
            }
            if seg.end > window_start && seg.start < now {
                let overlap_start: u64 = if seg.start > window_start {
                    seg.start
                } else {
                    window_start
                };
                let overlap_end: u64 = if seg.end < now {
                    seg.end
                } else {
                    now
                };
                if overlap_end > overlap_start && seg.end > seg.start {
                    contributions.push(
                        Contribution {
                            output_tokens: seg.output_tokens,
                            overlap_nanos: overlap_end - overlap_start,
                            span_nanos: seg.end - seg.start,
                        },
                    );
                    assert(contributions@ =~= prev + seq![contributions@[prev.len() as int]]);
                    assert(f(seg) == Some(contributions@[prev.len() as int]));
                } else {
                    assert(f(seg) is None);
                }
            } else {
                assert(f(seg) is None);
            }
            proof {
                assert(contributions@ =~= prev + match f(seg) {
                    Some(c) => seq![c],
                    None => Seq::empty(),
                });
            }
            i = i + 1;
        }
        proof {
            assert(segs.subrange(0, segs.len() as int) =~= segs);
        }
        TpsSample { window_secs: self.window_secs, contributions }
    }

    /// Drops segments from the front while the front one ended before
    /// `now` minus the window span.
    fn trim_expired_at(&mut self, now: u64)
        requires
            old(self)@.wf(),
        ensures
            final(self)@ == pruned_view(old(self)@, now as int),
            final(self)@.wf(),
    {
        proof {
            lemma_pruned_wf(old(self)@, now as int);
        }
        let span: u128 = self.window_secs as u128 * NANOS_PER_SEC as u128;
        if (now as u128) < span {
            return;
        }
        let cutoff: u64 = (now as u128 - span) as u64;
        let ghost start = self@;
        while self.segments.len() > 0 && self.segments[0].end < cutoff
            invariant
                self.window_secs == start.window_secs,
                trim_front(self.segments@, cutoff as int) == trim_front(
                    start.segments,
                    cutoff as int,
                ),
            decreases self.segments@.len(),
        {
            let _ = self.segments.pop_front();
        }
    }

    /// Drops every stored segment; the window span stays.
    pub fn reset(&mut self)
        ensures
            final(self)@ == reset_view(old(self)@),
    {
        self.segments.clear();
    }

    /// Number of segments currently held.
    pub fn segment_count(&self) -> (r: usize)
        ensures
            r == self@.segments.len(),
    {
        self.segments.len()
    }

    /// The configured window span, in seconds.
    pub fn window_secs(&self) -> (r: u64)
        ensures
            r == self@.window_secs,
    {
        self.window_secs
    }
}

impl Default for TpsMonitor {
    fn default() -> (r: Self)
        ensures
            r@ == initial_view(DEFAULT_WINDOW_SECS),
    {
        Self::new(DEFAULT_WINDOW_SECS)
    }
}

} // verus!
