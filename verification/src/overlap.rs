//! Half-open time intervals and overlap checks.
use vstd::prelude::*;

use crate::time::Timestamp;

verus! {

/// A span of time `[start, end)`.
#[derive(Debug, Clone, Copy, PartialEq, Eq, Structural)]
pub struct Interval {
    pub start: Timestamp,
    pub end: Timestamp,
}

/// Two half-open intervals share an instant.
pub open spec fn overlaps(a: Interval, b: Interval) -> bool {
    a.start.precedes(b.end) && b.start.precedes(a.end)
}

/// The instant lies in the half-open interval.
pub open spec fn holds_instant(interval: Interval, at: Timestamp) -> bool {
    interval.start.not_after(at) && at.precedes(interval.end)
}

impl Interval {
    /// The interval from `start` to `end`, refused when `end` comes before `start`.
    pub fn new(start: Timestamp, end: Timestamp) -> (r: Option<Interval>)
        ensures
            r == (if end.precedes(start) {
                None
            } else {
                Some(Interval { start, end })
            }),
    {
        if end.is_before(&start) {
            return None;
        }
        Some(Interval { start, end })
    }

    /// The interval of a running entry: from `start` up to `now`, or empty when
    /// `now` does not come after `start`.
    pub fn running(start: Timestamp, now: Timestamp) -> (r: Interval)
        ensures
            r == (Interval { start, end: if start.precedes(now) { now } else { start } }),
    {
        let end = if start.is_before(&now) {
            now
        } else {
            start
        };
        Interval { start, end }
    }
}

/// Half-open intervals `[start, end)` overlap when they share any instant.
/// Adjacent intervals (end == other.start) do not overlap.
pub fn intervals_overlap(a: Interval, b: Interval) -> (r: bool)
    ensures
        r == overlaps(a, b),
{
    a.start.is_before(&b.end) && b.start.is_before(&a.end)
}

/// The instant lies inside the interval (its end excluded).
pub fn contains_instant(interval: Interval, at: Timestamp) -> (r: bool)
    ensures
        r == holds_instant(interval, at),
{
    interval.start.is_at_or_before(&at) && at.is_before(&interval.end)
}

/// Some interval of `existing` overlaps `candidate`.
pub fn any_overlap(candidate: Interval, existing: &[Interval]) -> (r: bool)
    ensures
        r == (exists|i: int| 0 <= i < existing@.len() && overlaps(candidate, #[trigger] existing@[i])),
{
    let mut i: usize = 0;
    while i < existing.len()
        invariant
            i <= existing@.len(),
            forall|j: int| 0 <= j < i ==> !overlaps(candidate, #[trigger] existing@[j]),
        decreases existing@.len() - i,
    {
        if intervals_overlap(candidate, existing[i]) {
            return true;
        }
        i += 1;
    }
    false
}

/// Some interval of `existing` contains the instant `at`.
pub fn any_contains_instant(at: Timestamp, existing: &[Interval]) -> (r: bool)
    ensures
        r == (exists|i: int| 0 <= i < existing@.len() && holds_instant(#[trigger] existing@[i], at)),
{
    let mut i: usize = 0;
    while i < existing.len()
        invariant
            i <= existing@.len(),
            forall|j: int| 0 <= j < i ==> !holds_instant(#[trigger] existing@[j], at),
        decreases existing@.len() - i,
    {
        if contains_instant(existing[i], at) {
            return true;
        }
        i += 1;
    }
    false
}

/// Overlap is symmetric.
pub proof fn law_overlap_symmetric(a: Interval, b: Interval)
    ensures
        overlaps(a, b) == overlaps(b, a),
{
}

/// Intervals that only touch (one ends where the other starts) do not overlap.
pub proof fn law_adjacent_do_not_overlap(a: Interval, b: Interval)
    requires
        a.end == b.start,
    ensures
        !overlaps(a, b),
        !overlaps(b, a),
{
}

/// Two non-empty intervals overlap exactly when some instant lies in both of them.
pub proof fn law_overlap_is_shared_instant(a: Interval, b: Interval)
    requires
        a.start.precedes(a.end),
        b.start.precedes(b.end),
    ensures
        overlaps(a, b) <==> (exists|t: Timestamp| holds_instant(a, t) && holds_instant(b, t)),
{
    if overlaps(a, b) {
        let t = if a.start.precedes(b.start) { b.start } else { a.start };
        assert(holds_instant(a, t) && holds_instant(b, t));
    }
}

} // verus!
