//! Work-session events and the time they account for.
use vstd::prelude::*;

use crate::overlap::Interval;
use crate::time::{
    div_toward_zero, in_leap_second, lemma_seconds_between_nonneg, leap_adjustment, seconds_between,
    span_nanos, whole_seconds_between, Timestamp,
};

verus! {

/// What happened to a work session at an instant.
#[derive(Debug, Clone, Copy, PartialEq, Eq, Structural)]
pub enum WorkEventKind {
    Started,
    Paused,
    Resumed,
    Stopped,
}

impl WorkEventKind {
    /// Started and Resumed open a run of work; Paused and Stopped close it.
    pub open spec fn opens_run(self) -> bool {
        self is Started || self is Resumed
    }
}

/// An event of a work session.
#[derive(Debug, Clone, Copy)]
pub struct WorkEvent {
    pub kind: WorkEventKind,
    pub at: Timestamp,
}

/// The intervals closed by the first `events.len()` events and the start of the
/// run still open after them. A run opens at the first Started/Resumed while no
/// run is open; a Paused/Stopped closes the open run and yields an interval
/// when the run has positive length.
pub open spec fn run_scan(events: Seq<WorkEvent>) -> (Seq<Interval>, Option<Timestamp>)
    decreases events.len(),
{
    if events.len() == 0 {
        (Seq::empty(), None)
    } else {
        let (closed, open) = run_scan(events.drop_last());
        let event = events.last();
        if event.kind.opens_run() {
            if open is None {
                (closed, Some(event.at))
            } else {
                (closed, open)
            }
        } else {
            match open {
                Some(start) => if start.precedes(event.at) {
                    (closed.push(Interval { start, end: event.at }), None)
                } else {
                    (closed, None)
                },
                None => (closed, None),
            }
        }
    }
}

/// The worked intervals: those closed by the events, then the run still open
/// up to `now` when it has positive length.
pub open spec fn worked_intervals(events: Seq<WorkEvent>, now: Timestamp) -> Seq<Interval> {
    let (closed, open) = run_scan(events);
    match open {
        Some(start) => if start.precedes(now) {
            closed.push(Interval { start, end: now })
        } else {
            closed
        },
        None => closed,
    }
}

/// Sum of the whole seconds of the intervals.
pub open spec fn total_seconds(intervals: Seq<Interval>) -> int
    decreases intervals.len(),
{
    if intervals.len() == 0 {
        0
    } else {
        total_seconds(intervals.drop_last()) + seconds_between(
            intervals.last().start,
            intervals.last().end,
        )
    }
}

/// All instants of the events lie in the calendar range.
pub open spec fn events_wf(events: Seq<WorkEvent>) -> bool {
    forall|i: int| 0 <= i < events.len() ==> (#[trigger] events[i]).at.wf()
}

/// The intervals during which work was running, in the order of the events.
pub fn running_intervals(events: &[WorkEvent], now: Timestamp) -> (r: Vec<Interval>)
    ensures
        r@ == worked_intervals(events@, now),
{
    let mut intervals: Vec<Interval> = Vec::new();
    let mut run_started: Option<Timestamp> = None;
    let mut i: usize = 0;
    while i < events.len()
        invariant
            i <= events@.len(),
            (intervals@, run_started) == run_scan(events@.take(i as int)),
        decreases events@.len() - i,
    {
        let event = events[i];
        assert(events@.take(i + 1).drop_last() == events@.take(i as int));
        match event.kind {
            WorkEventKind::Started | WorkEventKind::Resumed => {
                if run_started.is_none() {
                    run_started = Some(event.at);
                }
            },
            WorkEventKind::Paused | WorkEventKind::Stopped => {
                if let Some(start) = run_started {
                    if let Some(interval) = Interval::new(start, event.at) {
                        if interval.start.is_before(&interval.end) {
                            intervals.push(interval);
                        }
                    }
                }
                run_started = None;
            },
        }
        i += 1;
    }
    assert(events@.take(events@.len() as int) == events@);
    if let Some(start) = run_started {
        if let Some(interval) = Interval::new(start, now) {
            if interval.start.is_before(&interval.end) {
                intervals.push(interval);
            }
        }
    }
    intervals
}

proof fn lemma_scan_bounds(events: Seq<WorkEvent>)
    requires
        events_wf(events),
    ensures
        forall|k: int|
            0 <= k < run_scan(events).0.len() ==> {
                let iv = #[trigger] run_scan(events).0[k];
                iv.start.wf() && iv.end.wf() && iv.start.precedes(iv.end)
            },
        run_scan(events).1 matches Some(s) ==> s.wf(),
    decreases events.len(),
{
    if events.len() > 0 {
        let prefix = events.drop_last();
        assert forall|i: int| 0 <= i < prefix.len() implies (#[trigger] prefix[i]).at.wf() by {
            assert(prefix[i] == events[i]);
        }
        lemma_scan_bounds(prefix);
        assert(events.last() == events[events.len() - 1]);
    }
}

/// The worked intervals of well-formed events are non-empty and well-formed.
pub proof fn lemma_worked_intervals_bounds(events: Seq<WorkEvent>, now: Timestamp)
    requires
        events_wf(events),
        now.wf(),
    ensures
        forall|k: int|
            0 <= k < worked_intervals(events, now).len() ==> {
                let iv = #[trigger] worked_intervals(events, now)[k];
                iv.start.wf() && iv.end.wf() && iv.start.precedes(iv.end)
            },
{
    lemma_scan_bounds(events);
}

/// Sums of intervals that run forward in time do not decrease as intervals are added.
pub proof fn lemma_total_seconds_prefix(intervals: Seq<Interval>, n: int)
    requires
        0 <= n <= intervals.len(),
        forall|k: int|
            0 <= k < intervals.len() ==> {
                let iv = #[trigger] intervals[k];
                iv.start.wf() && iv.end.wf() && iv.start.precedes(iv.end)
            },
    ensures
        0 <= total_seconds(intervals.take(n)) <= total_seconds(intervals),
    decreases intervals.len(),
{
    if intervals.len() > 0 {
        let prefix = intervals.drop_last();
        assert forall|k: int| 0 <= k < prefix.len() implies {
            let iv = #[trigger] prefix[k];
            iv.start.wf() && iv.end.wf() && iv.start.precedes(iv.end)
        } by {
            assert(prefix[k] == intervals[k]);
        }
        assert(intervals.last() == intervals[intervals.len() - 1]);
        lemma_seconds_between_nonneg(intervals.last().start, intervals.last().end);
        if n == intervals.len() {
            assert(intervals.take(n) == intervals);
            lemma_total_seconds_prefix(prefix, prefix.len() as int);
            assert(prefix.take(prefix.len() as int) == prefix);
        } else {
            lemma_total_seconds_prefix(prefix, n);
            assert(prefix.take(n) == intervals.take(n));
        }
    }
}

/// No event lies inside a leap second.
pub open spec fn events_outside_leap_seconds(events: Seq<WorkEvent>) -> bool {
    forall|i: int| 0 <= i < events.len() ==> !in_leap_second(#[trigger] events[i].at)
}

proof fn lemma_scan_open_outside_leap(events: Seq<WorkEvent>)
    requires
        events_outside_leap_seconds(events),
    ensures
        run_scan(events).1 matches Some(s) ==> !in_leap_second(s),
    decreases events.len(),
{
    if events.len() > 0 {
        let prefix = events.drop_last();
        assert forall|i: int| 0 <= i < prefix.len() implies !in_leap_second(
            #[trigger] prefix[i].at,
        ) by {
            assert(prefix[i] == events[i]);
        }
        lemma_scan_open_outside_leap(prefix);
        assert(events.last() == events[events.len() - 1]);
    }
}

/// Outside leap seconds, whole seconds from a fixed start grow with the end.
proof fn lemma_seconds_between_grows(start: Timestamp, a: Timestamp, b: Timestamp)
    requires
        !in_leap_second(start),
        !in_leap_second(a),
        !in_leap_second(b),
        a.not_after(b),
    ensures
        seconds_between(start, a) <= seconds_between(start, b),
{
    assert(leap_adjustment(start, a) == 0);
    assert(leap_adjustment(start, b) == 0);
    let n: int = 1_000_000_000;
    if a.secs < b.secs {
        assert(a.secs * n + a.nanos < b.secs * n + b.nanos) by (nonlinear_arith)
            requires
                a.secs < b.secs,
                a.nanos < n,
                b.nanos >= 0,
                n == 1_000_000_000,
        ;
    }
    let da = span_nanos(start, a);
    let db = span_nanos(start, b);
    assert(da == (a.secs - start.secs) * n + a.nanos - start.nanos);
    assert(db - da == (b.secs * n + b.nanos) - (a.secs * n + a.nanos)) by (nonlinear_arith)
        requires
            da == (a.secs - start.secs) * n + a.nanos - start.nanos,
            db == (b.secs - start.secs) * n + b.nanos - start.nanos,
    ;
    assert(da <= db);
    if da >= 0 {
        vstd::arithmetic::div_mod::lemma_div_is_ordered(da, db, n);
    } else if db >= 0 {
        vstd::arithmetic::div_mod::lemma_div_pos_is_pos(-da, n);
        vstd::arithmetic::div_mod::lemma_div_pos_is_pos(db, n);
    } else {
        vstd::arithmetic::div_mod::lemma_div_is_ordered(-db, -da, n);
    }
    assert(div_toward_zero(da, n) <= div_toward_zero(db, n));
}

/// Worked time grows with the time it is counted up to: for `now1` not after
/// `now2`, the worked seconds up to `now1` are at least zero and at most those
/// up to `now2`, when no event and neither `now` lies inside a leap second.
pub proof fn law_elapsed_grows_with_now(events: Seq<WorkEvent>, now1: Timestamp, now2: Timestamp)
    requires
        events_wf(events),
        events_outside_leap_seconds(events),
        now1.wf(),
        now2.wf(),
        !in_leap_second(now1),
        !in_leap_second(now2),
        now1.not_after(now2),
    ensures
        0 <= total_seconds(worked_intervals(events, now1)) <= total_seconds(
            worked_intervals(events, now2),
        ),
{
    lemma_scan_bounds(events);
    lemma_scan_open_outside_leap(events);
    let closed = run_scan(events).0;
    lemma_total_seconds_prefix(closed, 0);
    assert(closed.take(0) =~= Seq::<Interval>::empty());
    match run_scan(events).1 {
        None => {},
        Some(start) => {
            let i1 = Interval { start, end: now1 };
            let i2 = Interval { start, end: now2 };
            assert(closed.push(i1).drop_last() == closed);
            assert(closed.push(i2).drop_last() == closed);
            if start.precedes(now1) {
                assert(start.precedes(now2));
                lemma_seconds_between_nonneg(start, now1);
                lemma_seconds_between_grows(start, now1, now2);
            } else if start.precedes(now2) {
                lemma_seconds_between_nonneg(start, now2);
            }
        },
    }
}

/// Seconds worked: the sum of the running intervals, never negative.
pub fn elapsed_seconds(events: &[WorkEvent], now: Timestamp) -> (r: i64)
    requires
        events_wf(events@),
        now.wf(),
        total_seconds(worked_intervals(events@, now)) <= i64::MAX,
    ensures
        r == total_seconds(worked_intervals(events@, now)),
        r >= 0,
{
    let intervals = running_intervals(events, now);
    proof {
        lemma_worked_intervals_bounds(events@, now);
    }
    let mut sum: i64 = 0;
    let mut i: usize = 0;
    while i < intervals.len()
        invariant
            i <= intervals@.len(),
            intervals@ == worked_intervals(events@, now),
            total_seconds(intervals@) <= i64::MAX,
            forall|k: int|
                0 <= k < intervals@.len() ==> {
                    let iv = #[trigger] intervals@[k];
                    iv.start.wf() && iv.end.wf() && iv.start.precedes(iv.end)
                },
            sum == total_seconds(intervals@.take(i as int)),
        decreases intervals@.len() - i,
    {
        let interval = intervals[i];
        proof {
            assert(intervals@.take(i + 1).drop_last() == intervals@.take(i as int));
            assert(intervals@.take(i + 1).last() == intervals@[i as int]);
            lemma_total_seconds_prefix(intervals@, i + 1);
        }
        sum = sum + whole_seconds_between(interval.start, interval.end);
        i += 1;
    }
    proof {
        assert(intervals@.take(intervals@.len() as int) == intervals@);
        lemma_total_seconds_prefix(intervals@, 0);
    }
    if sum < 0 {
        0
    } else {
        sum
    }
}

} // verus!
