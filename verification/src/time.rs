//! Instants on the UTC time line and their arithmetic.
use vstd::prelude::*;

verus! {

/// Earliest second that the calendar library can represent (-262143-01-01T00:00:00Z).
pub const MIN_TIMESTAMP: i64 = -8334601315200;

/// Latest second that the calendar library can represent (+262142-12-31T23:59:59Z).
pub const MAX_TIMESTAMP: i64 = 8210266876799;

/// Seconds per day.
pub const SECONDS_PER_DAY: i64 = 86_400;

/// Nanoseconds per second.
pub const NANOS_PER_SECOND: i64 = 1_000_000_000;

/// An instant in UTC: whole seconds since the Unix epoch and the nanoseconds
/// within that second.
#[derive(Debug, Clone, Copy, PartialEq, Eq, Structural)]
pub struct Timestamp {
    pub secs: i64,
    pub nanos: u32,
}

impl Timestamp {
    /// The instant lies within the range that the calendar library represents;
    /// the nanoseconds stay below one second, or below two in the last second of
    /// a minute (a leap second).
    pub open spec fn wf(self) -> bool {
        &&& MIN_TIMESTAMP <= self.secs <= MAX_TIMESTAMP
        &&& self.nanos < NANOS_PER_SECOND || (self.nanos < 2 * NANOS_PER_SECOND && self.secs % 60
            == 59)
    }

    /// The instant lies at least a day inside both ends of the range, so that its
    /// local day in any zone (whose offsets stay below a day) is a day the
    /// calendar library represents.
    pub open spec fn has_local_day(self) -> bool {
        &&& self.wf()
        &&& MIN_TIMESTAMP + SECONDS_PER_DAY <= self.secs <= MAX_TIMESTAMP - SECONDS_PER_DAY
    }

    /// Whether the instant lies at least a day inside both ends of the range.
    pub fn within_local_days(&self) -> (r: bool)
        requires
            self.wf(),
        ensures
            r == self.has_local_day(),
    {
        MIN_TIMESTAMP + SECONDS_PER_DAY <= self.secs && self.secs <= MAX_TIMESTAMP - SECONDS_PER_DAY
    }

    /// Strict order of instants: earlier second, or same second and fewer nanoseconds.
    pub open spec fn precedes(self, other: Timestamp) -> bool {
        self.secs < other.secs || (self.secs == other.secs && self.nanos < other.nanos)
    }

    /// Non-strict order of instants.
    pub open spec fn not_after(self, other: Timestamp) -> bool {
        !other.precedes(self)
    }

    /// `self` comes strictly before `other`.
    pub fn is_before(&self, other: &Timestamp) -> (r: bool)
        ensures
            r == self.precedes(*other),
    {
        self.secs < other.secs || (self.secs == other.secs && self.nanos < other.nanos)
    }

    /// `self` comes before `other` or is the same instant.
    pub fn is_at_or_before(&self, other: &Timestamp) -> (r: bool)
        ensures
            r == self.not_after(*other),
    {
        !other.is_before(self)
    }

    /// Both values denote the same instant.
    pub fn same_instant(&self, other: &Timestamp) -> (r: bool)
        ensures
            r == (*self == *other),
    {
        self.secs == other.secs && self.nanos == other.nanos
    }

    /// The later of two instants (the first one on a tie).
    pub fn later_of(self, other: Timestamp) -> (r: Timestamp)
        ensures
            r == (if self.precedes(other) { other } else { self }),
    {
        if self.is_before(&other) {
            other
        } else {
            self
        }
    }
}

/// Integer division that rounds toward zero.
pub open spec fn div_toward_zero(a: int, b: int) -> int
    recommends
        b > 0,
{
    if a >= 0 {
        a / b
    } else {
        -((-a) / b)
    }
}

/// The second of the UTC day in which an instant lies.
pub open spec fn second_of_day(at: Timestamp) -> int {
    at.secs as int % SECONDS_PER_DAY as int
}

/// The instant lies inside a leap second (its nanoseconds reach a full second).
pub open spec fn in_leap_second(at: Timestamp) -> bool {
    at.nanos >= NANOS_PER_SECOND
}

/// The second that the time library adds to a span for a leap second: one more
/// when `start` lies in a leap second and `end` in a later second of its day,
/// one less when `end` lies in a leap second and in an earlier second of the day
/// than `start`, none otherwise.
pub open spec fn leap_adjustment(start: Timestamp, end: Timestamp) -> int {
    if second_of_day(end) > second_of_day(start) && in_leap_second(start) {
        1
    } else if second_of_day(end) < second_of_day(start) && in_leap_second(end) {
        -1
    } else {
        0
    }
}

/// The span from `start` to `end` in nanoseconds, as the time library's
/// subtraction of two UTC instants gives it.
pub open spec fn span_nanos(start: Timestamp, end: Timestamp) -> int {
    (end.secs - start.secs + leap_adjustment(start, end)) * NANOS_PER_SECOND + end.nanos
        - start.nanos
}

/// Whole seconds from `start` to `end`, rounded toward zero (negative when `end`
/// comes first), as `(end - start).num_seconds()` gives them.
pub open spec fn seconds_between(start: Timestamp, end: Timestamp) -> int {
    div_toward_zero(span_nanos(start, end), NANOS_PER_SECOND as int)
}

/// Calls `DateTime::<Utc>::signed_duration_since` (the `-` of two instants) and
/// `TimeDelta::num_seconds`: the span's whole seconds, rounded toward zero, with
/// the library's leap-second rule.
#[verifier::external_body]
fn span_whole_seconds(start: Timestamp, end: Timestamp) -> (r: i64)
    requires
        start.wf(),
        end.wf(),
    ensures
        r == seconds_between(start, end),
{
    let s = chrono::DateTime::from_timestamp(start.secs, start.nanos).unwrap();
    let e = chrono::DateTime::from_timestamp(end.secs, end.nanos).unwrap();
    (e - s).num_seconds()
}

/// Whole seconds elapsed from `start` to `end`, rounded toward zero.
pub fn whole_seconds_between(start: Timestamp, end: Timestamp) -> (r: i64)
    requires
        start.wf(),
        end.wf(),
    ensures
        r == seconds_between(start, end),
        -20_000_000_000_000 <= r <= 20_000_000_000_000,
{
    proof {
        lemma_seconds_between_bounded(start, end);
    }
    span_whole_seconds(start, end)
}

/// The seconds between two instants of the range are far within an `i64`.
pub proof fn lemma_seconds_between_bounded(start: Timestamp, end: Timestamp)
    requires
        start.wf(),
        end.wf(),
    ensures
        -20_000_000_000_000 <= seconds_between(start, end) <= 20_000_000_000_000,
{
    let d = span_nanos(start, end);
    let k = end.secs - start.secs + leap_adjustment(start, end);
    assert(-17_000_000_000_000 <= k <= 17_000_000_000_000);
    assert(-17_000_000_000_000 * 1_000_000_000 <= k * 1_000_000_000 <= 17_000_000_000_000
        * 1_000_000_000) by (nonlinear_arith)
        requires
            -17_000_000_000_000 <= k <= 17_000_000_000_000,
    ;
    assert(-20_000_000_000_000 * 1_000_000_000 <= d <= 20_000_000_000_000 * 1_000_000_000);
    if d >= 0 {
        assert(d / 1_000_000_000 <= 20_000_000_000_000) by (nonlinear_arith)
            requires
                0 <= d <= 20_000_000_000_000 * 1_000_000_000,
        ;
    } else {
        assert((-d) / 1_000_000_000 <= 20_000_000_000_000) by (nonlinear_arith)
            requires
                0 < -d <= 20_000_000_000_000 * 1_000_000_000,
        ;
    }
}

/// A span that runs forward in time has no negative whole seconds.
pub proof fn lemma_seconds_between_nonneg(a: Timestamp, b: Timestamp)
    requires
        a.wf(),
        b.wf(),
        a.precedes(b),
    ensures
        seconds_between(a, b) >= 0,
{
    let k = b.secs - a.secs + leap_adjustment(a, b);
    let d = span_nanos(a, b);
    if b.secs == a.secs {
        assert(k == 0);
    } else {
        // Across a day boundary into a leap second, the end's second is 59 of
        // its minute, so the span covers at least a minute.
        if leap_adjustment(a, b) == -1 {
            assert(b.secs % 60 == 59);
            assert(second_of_day(b) < second_of_day(a));
            assert(b.secs - a.secs >= 2) by {
                if b.secs - a.secs == 1 {
                    assert(second_of_day(b) == 0 || second_of_day(b) == second_of_day(a) + 1);
                }
            }
        }
        assert(k >= 1);
    }
    assert(k * 1_000_000_000 >= 0) by (nonlinear_arith)
        requires
            k >= 0,
    ;
    if k >= 1 {
        assert(k * 1_000_000_000 >= 1_000_000_000) by (nonlinear_arith)
            requires
                k >= 1,
        ;
    }
    assert(d > -1_000_000_000);
    if d < 0 {
        assert((-d) / 1_000_000_000 == 0) by (nonlinear_arith)
            requires
                0 < -d < 1_000_000_000,
        ;
    } else {
        assert(d / 1_000_000_000 >= 0) by (nonlinear_arith)
            requires
                d >= 0,
        ;
    }
}

/// The instant with seconds and nanoseconds below the minute dropped.
pub open spec fn minute_floor(at: Timestamp) -> Timestamp {
    Timestamp { secs: (at.secs as int / 60 * 60) as i64, nanos: 0 }
}

/// Cutting an instant to its minute keeps it a day inside the range: the lower
/// bound of that margin is itself the start of a minute.
pub proof fn lemma_minute_floor_keeps_local_day(at: Timestamp)
    requires
        at.has_local_day(),
    ensures
        minute_floor(at).has_local_day(),
{
    let s = at.secs as int;
    let low = (MIN_TIMESTAMP + SECONDS_PER_DAY) as int;
    assert(low == -138910020480 * 60);
    assert(s / 60 >= -138910020480) by {
        vstd::arithmetic::div_mod::lemma_div_is_ordered(low, s, 60);
        vstd::arithmetic::div_mod::lemma_div_multiples_vanish(-138910020480, 60);
    }
    assert(s / 60 * 60 >= low) by (nonlinear_arith)
        requires
            s / 60 >= -138910020480,
            low == -138910020480 * 60,
    ;
    assert(s / 60 * 60 <= s) by {
        vstd::arithmetic::div_mod::lemma_fundamental_div_mod(s, 60);
    }
}

/// Truncates an instant to the start of its minute.
pub fn truncate_to_minute(at: Timestamp) -> (r: Timestamp)
    requires
        at.wf(),
    ensures
        r == minute_floor(at),
        r.wf(),
        at.has_local_day() ==> r.has_local_day(),
{
    proof {
        if at.has_local_day() {
            lemma_minute_floor_keeps_local_day(at);
        }
    }
    let floored: i64 = if at.secs >= 0 {
        at.secs / 60
    } else {
        -((-at.secs + 59) / 60)
    };
    proof {
        let s = at.secs as int;
        if s < 0 {
            assert(floored == s / 60) by {
                vstd::arithmetic::div_mod::lemma_fundamental_div_mod(s, 60);
                vstd::arithmetic::div_mod::lemma_fundamental_div_mod(-s + 59, 60);
            }
        }
    }
    Timestamp { secs: floored * 60, nanos: 0 }
}

} // verus!
