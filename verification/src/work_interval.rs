//! Work intervals labelled with the events that open and close them, and their removal.
use vstd::prelude::*;

use crate::overlap::Interval;
use crate::time::Timestamp;
use crate::work_duration::{run_scan, worked_intervals, WorkEvent, WorkEventKind};

verus! {

/// A stored work-session event with its id.
#[derive(Debug, Clone, Copy, PartialEq, Eq, Structural)]
pub struct WorkEventRecord {
    pub id: i64,
    pub kind: WorkEventKind,
    pub at: Timestamp,
}

/// A worked interval with the id of its opening event and, when it is closed,
/// the id of its closing event.
#[derive(Debug, Clone, Copy, PartialEq, Eq, Structural)]
pub struct LabeledInterval {
    pub id: i64,
    pub session_id: i64,
    pub start: Timestamp,
    pub end: Timestamp,
    pub open: bool,
    pub close_event_id: Option<i64>,
}

/// The labelled intervals closed by the events and the opening event of the
/// run still open after them (the same scan as `run_scan`, keeping event ids).
pub open spec fn label_scan(session_id: i64, events: Seq<WorkEventRecord>) -> (
    Seq<LabeledInterval>,
    Option<WorkEventRecord>,
)
    decreases events.len(),
{
    if events.len() == 0 {
        (Seq::empty(), None)
    } else {
        let (closed, open) = label_scan(session_id, events.drop_last());
        let event = events.last();
        if event.kind.opens_run() {
            if open is None {
                (closed, Some(event))
            } else {
                (closed, open)
            }
        } else {
            match open {
                Some(start) => if start.at.precedes(event.at) {
                    (
                        closed.push(
                            LabeledInterval {
                                id: start.id,
                                session_id,
                                start: start.at,
                                end: event.at,
                                open: false,
                                close_event_id: Some(event.id),
                            },
                        ),
                        None,
                    )
                } else {
                    (closed, None)
                },
                None => (closed, None),
            }
        }
    }
}

/// The labelled intervals of a session: the closed ones, then the open run up
/// to `now` when `now` comes after its start.
pub open spec fn labeled(session_id: i64, events: Seq<WorkEventRecord>, now: Timestamp) -> Seq<
    LabeledInterval,
> {
    let (closed, open) = label_scan(session_id, events);
    match open {
        Some(start) => if start.at.precedes(now) {
            closed.push(
                LabeledInterval {
                    id: start.id,
                    session_id,
                    start: start.at,
                    end: now,
                    open: true,
                    close_event_id: None,
                },
            )
        } else {
            closed
        },
        None => closed,
    }
}

/// Lists the worked intervals of a session with the ids of their events.
pub fn labeled_intervals(session_id: i64, events: &[WorkEventRecord], now: Timestamp) -> (r: Vec<
    LabeledInterval,
>)
    ensures
        r@ == labeled(session_id, events@, now),
{
    let mut intervals: Vec<LabeledInterval> = Vec::new();
    let mut run_started: Option<WorkEventRecord> = None;
    let mut i: usize = 0;
    while i < events.len()
        invariant
            i <= events@.len(),
            (intervals@, run_started) == label_scan(session_id, events@.take(i as int)),
        decreases events@.len() - i,
    {
        let event = events[i];
        assert(events@.take(i + 1).drop_last() == events@.take(i as int));
        match event.kind {
            WorkEventKind::Started | WorkEventKind::Resumed => {
                if run_started.is_none() {
                    run_started = Some(event);
                }
            },
            WorkEventKind::Paused | WorkEventKind::Stopped => {
                if let Some(start) = run_started {
                    if start.at.is_before(&event.at) {
                        intervals.push(
                            LabeledInterval {
                                id: start.id,
                                session_id,
                                start: start.at,
                                end: event.at,
                                open: false,
                                close_event_id: Some(event.id),
                            },
                        );
                    }
                }
                run_started = None;
            },
        }
        i += 1;
    }
    assert(events@.take(events@.len() as int) == events@);
    if let Some(start) = run_started {
        if start.at.is_before(&now) {
            intervals.push(
                LabeledInterval {
                    id: start.id,
                    session_id,
                    start: start.at,
                    end: now,
                    open: true,
                    close_event_id: None,
                },
            );
        }
    }
    intervals
}

/// Scan for the event that closes the run opened by `opening_id`: the closing
/// event's id once found, otherwise the opening event of the run still open.
pub open spec fn close_scan(events: Seq<WorkEventRecord>, opening_id: i64) -> (
    Option<i64>,
    Option<WorkEventRecord>,
)
    decreases events.len(),
{
    if events.len() == 0 {
        (None, None)
    } else {
        let (found, open) = close_scan(events.drop_last(), opening_id);
        let event = events.last();
        if found is Some {
            (found, open)
        } else if event.kind.opens_run() {
            if open is None {
                (None, Some(event))
            } else {
                (None, open)
            }
        } else {
            match open {
                Some(start) => if start.id == opening_id {
                    (Some(event.id), None)
                } else {
                    (None, None)
                },
                None => (None, None),
            }
        }
    }
}

/// For the run opened by `opening_id`: `Some(Some(c))` when event `c` closes it,
/// `Some(None)` when it is still open at the end, `None` when no run opens there.
pub open spec fn closing_event(events: Seq<WorkEventRecord>, opening_id: i64) -> Option<
    Option<i64>,
> {
    let (found, open) = close_scan(events, opening_id);
    match found {
        Some(close_id) => Some(Some(close_id)),
        None => match open {
            Some(start) => if start.id == opening_id {
                Some(None)
            } else {
                None
            },
            None => None,
        },
    }
}

fn close_event_for(events: &[WorkEventRecord], opening_id: i64) -> (r: Option<Option<i64>>)
    ensures
        r == closing_event(events@, opening_id),
{
    let mut run_started: Option<WorkEventRecord> = None;
    let mut i: usize = 0;
    while i < events.len()
        invariant
            i <= events@.len(),
            close_scan(events@.take(i as int), opening_id) == (None::<i64>, run_started),
        decreases events@.len() - i,
    {
        let event = events[i];
        assert(events@.take(i + 1).drop_last() == events@.take(i as int));
        match event.kind {
            WorkEventKind::Started | WorkEventKind::Resumed => {
                if run_started.is_none() {
                    run_started = Some(event);
                }
            },
            WorkEventKind::Paused | WorkEventKind::Stopped => {
                if let Some(start) = run_started {
                    if start.id == opening_id {
                        proof {
                            lemma_close_scan_found_stays(events@, opening_id, i + 1);
                        }
                        return Some(Some(event.id));
                    }
                }
                run_started = None;
            },
        }
        i += 1;
    }
    assert(events@.take(events@.len() as int) == events@);
    if let Some(start) = run_started {
        if start.id == opening_id {
            return Some(None);
        }
    }
    None
}

/// Once the closing event has been found, later events do not change the result.
proof fn lemma_close_scan_found_stays(events: Seq<WorkEventRecord>, opening_id: i64, n: int)
    requires
        0 <= n <= events.len(),
        close_scan(events.take(n), opening_id).0 is Some,
    ensures
        close_scan(events, opening_id) == close_scan(events.take(n), opening_id),
    decreases events.len() - n,
{
    if n < events.len() {
        assert(events.take(n + 1).drop_last() == events.take(n));
        lemma_close_scan_found_stays(events, opening_id, n + 1);
    } else {
        assert(events.take(n) == events);
    }
}

/// The events kept when the interval opened by `opening_id` (closed by `close_id`)
/// is removed.
pub open spec fn kept_events(
    events: Seq<WorkEventRecord>,
    opening_id: i64,
    close_id: Option<i64>,
) -> Seq<WorkEventRecord> {
    events.filter(|e: WorkEventRecord| e.id != opening_id && Some(e.id) != close_id)
}

/// A leading Resumed becomes Started, so that the session opens with a start.
pub open spec fn promote_first(events: Seq<WorkEventRecord>) -> Seq<WorkEventRecord> {
    if events.len() > 0 && events[0].kind is Resumed {
        events.update(0, WorkEventRecord { kind: WorkEventKind::Started, ..events[0] })
    } else {
        events
    }
}

/// The events after removing an interval, or `None` when no run opens at `opening_id`.
pub open spec fn events_without_interval(events: Seq<WorkEventRecord>, opening_id: i64) -> Option<
    Seq<WorkEventRecord>,
> {
    match closing_event(events, opening_id) {
        Some(close_id) => Some(promote_first(kept_events(events, opening_id, close_id))),
        None => None,
    }
}

/// Removes the interval opened by event `opening_id` together with its closing
/// event; a Resumed left at the front becomes Started.
pub fn remove_interval(events: &[WorkEventRecord], opening_id: i64) -> (r: Option<
    Vec<WorkEventRecord>,
>)
    ensures
        r matches Some(v) ==> events_without_interval(events@, opening_id) == Some(v@),
        r is None <==> events_without_interval(events@, opening_id) is None,
{
    let close_id = match close_event_for(events, opening_id) {
        Some(c) => c,
        None => return None,
    };
    let ghost pred = |e: WorkEventRecord| e.id != opening_id && Some(e.id) != close_id;
    let mut remaining: Vec<WorkEventRecord> = Vec::new();
    let mut i: usize = 0;
    while i < events.len()
        invariant
            i <= events@.len(),
            pred == (|e: WorkEventRecord| e.id != opening_id && Some(e.id) != close_id),
            remaining@ == events@.take(i as int).filter(pred),
        decreases events@.len() - i,
    {
        let event = events[i];
        proof {
            assert(events@.take(i + 1).drop_last() == events@.take(i as int));
            reveal_with_fuel(Seq::filter, 1);
        }
        let drop_it = event.id == opening_id || match close_id {
            Some(c) => event.id == c,
            None => false,
        };
        if !drop_it {
            remaining.push(event);
        }
        i += 1;
    }
    assert(events@.take(events@.len() as int) == events@);
    if remaining.len() > 0 && remaining[0].kind == WorkEventKind::Resumed {
        let first = remaining[0];
        remaining.set(0, WorkEventRecord { kind: WorkEventKind::Started, ..first });
    }
    Some(remaining)
}

/// Event `i + 1` comes no earlier than event `i`.
pub open spec fn step_not_back(events: Seq<WorkEventRecord>, i: int) -> bool {
    events[i].at.not_after(events[i + 1].at)
}

/// Event times never go back.
pub open spec fn non_decreasing(events: Seq<WorkEventRecord>) -> bool {
    forall|i: int| 0 <= i < events.len() - 1 ==> #[trigger] step_not_back(events, i)
}

/// Every event comes no earlier than the one before it.
pub fn timestamps_non_decreasing(events: &[WorkEventRecord]) -> (r: bool)
    ensures
        r == non_decreasing(events@),
{
    if events.len() == 0 {
        return true;
    }
    let last: usize = events.len() - 1;
    let mut i: usize = 0;
    while i < last
        invariant
            last == events@.len() - 1,
            i <= last,
            forall|j: int| 0 <= j < i ==> #[trigger] step_not_back(events@, j),
        decreases last - i,
    {
        if !events[i].at.is_at_or_before(&events[i + 1].at) {
            assert(!step_not_back(events@, i as int));
            return false;
        }
        i += 1;
    }
    true
}

/// The events without their ids.
pub open spec fn unlabeled(events: Seq<WorkEventRecord>) -> Seq<WorkEvent> {
    events.map_values(|e: WorkEventRecord| WorkEvent { kind: e.kind, at: e.at })
}

/// The bounds of labelled intervals.
pub open spec fn bounds(intervals: Seq<LabeledInterval>) -> Seq<Interval> {
    intervals.map_values(|l: LabeledInterval| Interval { start: l.start, end: l.end })
}

proof fn lemma_label_scan_matches_run_scan(session_id: i64, events: Seq<WorkEventRecord>)
    ensures
        bounds(label_scan(session_id, events).0) == run_scan(unlabeled(events)).0,
        label_scan(session_id, events).1 matches Some(s) ==> run_scan(unlabeled(events)).1 == Some(
            s.at,
        ),
        label_scan(session_id, events).1 is None ==> run_scan(unlabeled(events)).1 is None,
    decreases events.len(),
{
    if events.len() > 0 {
        lemma_label_scan_matches_run_scan(session_id, events.drop_last());
        assert(unlabeled(events).drop_last() == unlabeled(events.drop_last()));
        assert(unlabeled(events).last() == WorkEvent { kind: events.last().kind, at: events.last().at });
        let (closed, open) = label_scan(session_id, events.drop_last());
        let event = events.last();
        if !event.kind.opens_run() {
            if let Some(start) = open {
                if start.at.precedes(event.at) {
                    let pushed = closed.push(
                        LabeledInterval {
                            id: start.id,
                            session_id,
                            start: start.at,
                            end: event.at,
                            open: false,
                            close_event_id: Some(event.id),
                        },
                    );
                    assert(bounds(pushed) == bounds(closed).push(
                        Interval { start: start.at, end: event.at },
                    ));
                }
            }
        }
    }
}

/// The labelled intervals span exactly the worked intervals of the same events:
/// labels add ids, never change the times.
pub proof fn law_labels_keep_worked_intervals(
    session_id: i64,
    events: Seq<WorkEventRecord>,
    now: Timestamp,
)
    ensures
        bounds(labeled(session_id, events, now)) == worked_intervals(unlabeled(events), now),
{
    lemma_label_scan_matches_run_scan(session_id, events);
    let (closed, open) = label_scan(session_id, events);
    if let Some(start) = open {
        if start.at.precedes(now) {
            let pushed = closed.push(
                LabeledInterval {
                    id: start.id,
                    session_id,
                    start: start.at,
                    end: now,
                    open: true,
                    close_event_id: None,
                },
            );
            assert(bounds(pushed) == bounds(closed).push(Interval { start: start.at, end: now }));
        }
    }
}

} // verus!
