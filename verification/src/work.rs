//! The rules of work sessions: starting, pausing, resuming and stopping work,
//! and the manual editing of work intervals.
use vstd::prelude::*;

use crate::entry_rules::{first_failure, running_interval};
use crate::calendar::{
    app_tz, app_zone_name, parse_date, parse_rfc3339, rfc3339_instant, ymd_date, zone_civil_date,
    zone_local_instant, CivilDate,
};
use crate::error::{
    conflict, conflict_failure, fails_as, failure_of, internal, internal_failure,
    not_found_failure, unprocessable, unprocessable_failure, AppError, AppResult,
};
use crate::midnight::{close_timestamp, needs_midnight_close, past_start_day};
use crate::models::{session_status_name, WorkEventRow, WorkSessionRow, WorkSessionStatus};
use crate::overlap::{any_overlap, overlaps, Interval};
use crate::same_day::{civil_date, on_same_day, same_civil_day};
use crate::text::str_equals;
use crate::time::{
    lemma_seconds_between_bounded, minute_floor, seconds_between, truncate_to_minute,
    whole_seconds_between, Timestamp,
};
use crate::work_duration::{worked_intervals, WorkEventKind};
use crate::work_interval::{
    bounds, events_without_interval, labeled, labeled_intervals, law_labels_keep_worked_intervals,
    non_decreasing, remove_interval, timestamps_non_decreasing, unlabeled, LabeledInterval,
    WorkEventRecord,
};

verus! {

/// Stored name of an event kind.
pub open spec fn kind_name(kind: WorkEventKind) -> Seq<char> {
    match kind {
        WorkEventKind::Started => "started"@,
        WorkEventKind::Paused => "paused"@,
        WorkEventKind::Resumed => "resumed"@,
        WorkEventKind::Stopped => "stopped"@,
    }
}

/// The event kind stored under a name.
pub open spec fn kind_named(value: Seq<char>) -> Option<WorkEventKind> {
    if value == "started"@ {
        Some(WorkEventKind::Started)
    } else if value == "paused"@ {
        Some(WorkEventKind::Paused)
    } else if value == "resumed"@ {
        Some(WorkEventKind::Resumed)
    } else if value == "stopped"@ {
        Some(WorkEventKind::Stopped)
    } else {
        None
    }
}

/// The stored name of an event kind.
pub fn kind_str(kind: WorkEventKind) -> (r: &'static str)
    ensures
        r@ == kind_name(kind),
{
    match kind {
        WorkEventKind::Started => "started",
        WorkEventKind::Paused => "paused",
        WorkEventKind::Resumed => "resumed",
        WorkEventKind::Stopped => "stopped",
    }
}

/// Reads a stored event kind; an unknown name is an internal error.
pub fn parse_kind(value: &str) -> (r: AppResult<WorkEventKind>)
    ensures
        match kind_named(value@) {
            Some(k) => r == Ok::<WorkEventKind, AppError>(k),
            None => r matches Err(e) && failure_of(e) == internal_failure(
                "Unbekanntes Work-Event"@,
            ),
        },
{
    if str_equals(value, "started") {
        Ok(WorkEventKind::Started)
    } else if str_equals(value, "paused") {
        Ok(WorkEventKind::Paused)
    } else if str_equals(value, "resumed") {
        Ok(WorkEventKind::Resumed)
    } else if str_equals(value, "stopped") {
        Ok(WorkEventKind::Stopped)
    } else {
        Err(internal("Unbekanntes Work-Event"))
    }
}

/// Reading back the stored name of an event kind gives the kind.
pub proof fn law_kind_names_roundtrip(kind: WorkEventKind)
    ensures
        kind_named(kind_name(kind)) == Some(kind),
{
    reveal_strlit("started");
    reveal_strlit("paused");
    reveal_strlit("resumed");
    reveal_strlit("stopped");
    assert("paused"@[0] != "started"@[0]);
    assert("resumed"@[0] != "started"@[0]);
    assert("resumed"@[0] != "paused"@[0]);
    assert("stopped"@[2] != "started"@[2]);
    assert("stopped"@[0] != "paused"@[0]);
    assert("stopped"@[0] != "resumed"@[0]);
}

/// The event a stored row holds, or why it cannot be read.
pub open spec fn record_of(row: WorkEventRow) -> Result<WorkEventRecord, Seq<char>> {
    match kind_named(row.kind@) {
        None => Err("Unbekanntes Work-Event"@),
        Some(kind) => match rfc3339_instant(row.at@) {
            None => Err("Event-Zeit ungültig"@),
            Some(at) => Ok(WorkEventRecord { id: row.id, kind, at }),
        },
    }
}

/// The events the stored rows hold, in order; or why the first unreadable one
/// cannot be read.
pub open spec fn records_of(rows: Seq<WorkEventRow>) -> Result<Seq<WorkEventRecord>, Seq<char>>
    decreases rows.len(),
{
    if rows.len() == 0 {
        Ok(Seq::empty())
    } else {
        match records_of(rows.drop_last()) {
            Err(m) => Err(m),
            Ok(prefix) => match record_of(rows.last()) {
                Err(m) => Err(m),
                Ok(r) => Ok(prefix.push(r)),
            },
        }
    }
}

proof fn lemma_records_failure_extends(rows: Seq<WorkEventRow>, n: int)
    requires
        0 <= n <= rows.len(),
        records_of(rows.take(n)) is Err,
    ensures
        records_of(rows) == records_of(rows.take(n)),
    decreases rows.len() - n,
{
    if n < rows.len() {
        assert(rows.take(n + 1).drop_last() == rows.take(n));
        lemma_records_failure_extends(rows, n + 1);
    } else {
        assert(rows.take(n) == rows);
    }
}

/// Reads the stored events of a session.
pub fn event_records(rows: &[WorkEventRow]) -> (r: AppResult<Vec<WorkEventRecord>>)
    ensures
        match records_of(rows@) {
            Ok(s) => r matches Ok(v) && v@ == s,
            Err(m) => r matches Err(e) && failure_of(e) == internal_failure(m),
        },
        r matches Ok(v) ==> forall|i: int| 0 <= i < v@.len() ==> (#[trigger] v@[i]).at.wf(),
{
    let mut out: Vec<WorkEventRecord> = Vec::new();
    let mut i: usize = 0;
    while i < rows.len()
        invariant
            i <= rows@.len(),
            records_of(rows@.take(i as int)) == Ok::<Seq<WorkEventRecord>, Seq<char>>(out@),
            forall|j: int| 0 <= j < out@.len() ==> (#[trigger] out@[j]).at.wf(),
        decreases rows@.len() - i,
    {
        proof {
            assert(rows@.take(i + 1).drop_last() == rows@.take(i as int));
            assert(rows@.take(i + 1).last() == rows@[i as int]);
        }
        let row = &rows[i];
        let kind = match parse_kind(row.kind.as_str()) {
            Ok(k) => k,
            Err(e) => {
                proof {
                    lemma_records_failure_extends(rows@, i + 1);
                }
                return Err(e);
            },
        };
        let at = match parse_rfc3339(row.at.as_str()) {
            Ok(t) => t,
            Err(_) => {
                proof {
                    lemma_records_failure_extends(rows@, i + 1);
                }
                return Err(internal("Event-Zeit ungültig"));
            },
        };
        out.push(WorkEventRecord { id: row.id, kind, at });
        i += 1;
    }
    proof {
        assert(rows@.take(rows@.len() as int) == rows@);
    }
    Ok(out)
}

/// Reads the stored day of a session; an unreadable one is an internal error.
pub fn session_date(text: &str) -> (r: AppResult<CivilDate>)
    ensures
        match ymd_date(text@) {
            Some(d) => r == Ok::<CivilDate, AppError>(d),
            None => r matches Err(e) && failure_of(e) == internal_failure("local_date ungültig"@),
        },
        r matches Ok(d) ==> d.in_range(),
{
    match parse_date(text) {
        Ok(d) => Ok(d),
        Err(_) => Err(internal("local_date ungültig")),
    }
}

/// The days of a range of sessions, in order; or why the first unreadable one
/// cannot be read.
pub open spec fn dates_of(rows: Seq<String>) -> Option<Seq<CivilDate>>
    decreases rows.len(),
{
    if rows.len() == 0 {
        Some(Seq::empty())
    } else {
        match dates_of(rows.drop_last()) {
            None => None,
            Some(prefix) => match ymd_date(rows.last()@) {
                None => None,
                Some(d) => Some(prefix.push(d)),
            },
        }
    }
}

proof fn lemma_dates_failure_extends(rows: Seq<String>, n: int)
    requires
        0 <= n <= rows.len(),
        dates_of(rows.take(n)) is None,
    ensures
        dates_of(rows) is None,
    decreases rows.len() - n,
{
    if n < rows.len() {
        assert(rows.take(n + 1).drop_last() == rows.take(n));
        lemma_dates_failure_extends(rows, n + 1);
    } else {
        assert(rows.take(n) == rows);
    }
}

/// Reads the stored days of sessions.
pub fn session_dates(rows: &[String]) -> (r: AppResult<Vec<CivilDate>>)
    ensures
        match dates_of(rows@) {
            Some(s) => r matches Ok(v) && v@ == s,
            None => r matches Err(e) && failure_of(e) == internal_failure("local_date ungültig"@),
        },
{
    let mut out: Vec<CivilDate> = Vec::new();
    let mut i: usize = 0;
    while i < rows.len()
        invariant
            i <= rows@.len(),
            dates_of(rows@.take(i as int)) == Some(out@),
        decreases rows@.len() - i,
    {
        proof {
            assert(rows@.take(i + 1).drop_last() == rows@.take(i as int));
            assert(rows@.take(i + 1).last() == rows@[i as int]);
        }
        match session_date(rows[i].as_str()) {
            Ok(d) => out.push(d),
            Err(e) => {
                proof {
                    lemma_dates_failure_extends(rows@, i + 1);
                }
                return Err(e);
            },
        }
        i += 1;
    }
    proof {
        assert(rows@.take(rows@.len() as int) == rows@);
    }
    Ok(out)
}

/// A range of days from `from` to `to` is refused when it ends before it starts.
pub fn check_range(from: CivilDate, to: CivilDate) -> (r: AppResult<()>)
    ensures
        fails_as(
            r,
            if to.earlier_than(from) {
                Some(unprocessable_failure("Endedatum darf nicht vor dem Startdatum liegen"@))
            } else {
                None
            },
        ),
{
    if to.is_before(&from) {
        return Err(unprocessable("Endedatum darf nicht vor dem Startdatum liegen"));
    }
    Ok(())
}

/// The session of the day that is not stopped, as the store lists it first.
pub open spec fn is_open_session(row: WorkSessionRow) -> bool {
    row.status@ != "stopped"@
}

/// The first session of the list that is not stopped.
pub open spec fn first_open(rows: Seq<WorkSessionRow>) -> Option<WorkSessionRow>
    decreases rows.len(),
{
    if rows.len() == 0 {
        None
    } else if is_open_session(rows[0]) {
        Some(rows[0])
    } else {
        first_open(rows.drop_first())
    }
}

/// The first of the day's sessions that is not stopped.
pub fn open_session_of(rows: &[WorkSessionRow]) -> (r: Option<WorkSessionRow>)
    ensures
        r == first_open(rows@),
{
    let mut i: usize = 0;
    assert(rows@.skip(0) == rows@);
    while i < rows.len()
        invariant
            i <= rows@.len(),
            first_open(rows@) == first_open(rows@.skip(i as int)),
        decreases rows@.len() - i,
    {
        proof {
            assert(rows@.skip(i as int).drop_first() == rows@.skip(i + 1));
            assert(rows@.skip(i as int)[0] == rows@[i as int]);
        }
        if !str_equals(rows[i].status.as_str(), "stopped") {
            return Some(rows[i].clone());
        }
        i += 1;
    }
    proof {
        assert(rows@.skip(i as int).len() == 0);
    }
    None
}

/// Why work cannot be started while a session of the day is open, if it cannot.
pub open spec fn start_failure(open: Option<WorkSessionRow>) -> Option<(int, Seq<char>)> {
    match open {
        None => None,
        Some(row) => if row.status@ == "running"@ {
            Some(conflict_failure("Arbeitszeit läuft bereits"@))
        } else if row.status@ == "paused"@ {
            Some(conflict_failure("Arbeitszeit ist pausiert — fortsetzen statt starten"@))
        } else {
            Some(conflict_failure("Offene Arbeitszeit-Session vorhanden"@))
        },
    }
}

/// No session of the day is open (`open` is the day's open session, if any).
pub fn ensure_no_open_session(open: &Option<WorkSessionRow>) -> (r: AppResult<()>)
    ensures
        fails_as(r, start_failure(*open)),
{
    match open {
        None => Ok(()),
        Some(row) => {
            if str_equals(row.status.as_str(), "running") {
                Err(conflict("Arbeitszeit läuft bereits"))
            } else if str_equals(row.status.as_str(), "paused") {
                Err(conflict("Arbeitszeit ist pausiert — fortsetzen statt starten"))
            } else {
                Err(conflict("Offene Arbeitszeit-Session vorhanden"))
            }
        },
    }
}

/// Some interval of the day reaches beyond `now`.
pub open spec fn slot_taken(intervals: Seq<LabeledInterval>, now: Timestamp) -> bool {
    exists|i: int| 0 <= i < intervals.len() && now.precedes(#[trigger] intervals[i].end)
}

/// Work can start or resume at `now` only when no interval of the day reaches
/// beyond it.
pub fn ensure_timer_slot_free(intervals: &[LabeledInterval], now: Timestamp) -> (r: AppResult<()>)
    ensures
        fails_as(
            r,
            if slot_taken(intervals@, now) {
                Some(conflict_failure("Arbeitszeit überschneidet sich mit einem bestehenden Zeitraum"@))
            } else {
                None
            },
        ),
{
    let mut i: usize = 0;
    while i < intervals.len()
        invariant
            i <= intervals@.len(),
            forall|j: int| 0 <= j < i ==> !now.precedes(#[trigger] intervals@[j].end),
        decreases intervals@.len() - i,
    {
        if now.is_before(&intervals[i].end) {
            return Err(conflict("Arbeitszeit überschneidet sich mit einem bestehenden Zeitraum"));
        }
        i += 1;
    }
    Ok(())
}

/// Why the timer cannot run now for want of running work, if it cannot.
pub open spec fn not_running_failure(open: Option<WorkSessionRow>) -> Option<(int, Seq<char>)> {
    match open {
        Some(row) => if row.status@ == "running"@ {
            None
        } else {
            Some(unprocessable_failure("Arbeitszeit läuft nicht"@))
        },
        None => Some(unprocessable_failure("Arbeitszeit läuft nicht"@)),
    }
}

/// The day's open session runs.
pub fn require_running(open: &Option<WorkSessionRow>) -> (r: AppResult<()>)
    ensures
        fails_as(r, not_running_failure(*open)),
{
    match open {
        Some(row) => match WorkSessionStatus::parse(row.status.as_str()) {
            Some(WorkSessionStatus::Running) => Ok(()),
            _ => Err(unprocessable("Arbeitszeit läuft nicht")),
        },
        None => Err(unprocessable("Arbeitszeit läuft nicht")),
    }
}

/// Work is not paused or stopped while a time entry runs.
pub fn reject_if_entry_running(entry_running: bool) -> (r: AppResult<()>)
    ensures
        fails_as(
            r,
            if entry_running {
                Some(unprocessable_failure("Zuerst den laufenden Eintrag stoppen"@))
            } else {
                None
            },
        ),
{
    if entry_running {
        return Err(unprocessable("Zuerst den laufenden Eintrag stoppen"));
    }
    Ok(())
}

/// Why the day's open session is not in the state `expected`, if it is not.
pub open spec fn status_failure(open: Option<WorkSessionRow>, expected: WorkSessionStatus) -> Option<
    (int, Seq<char>),
> {
    match open {
        None => Some(unprocessable_failure("Keine offene Arbeitszeit"@)),
        Some(row) => if row.status@ == session_status_name(expected) {
            None
        } else {
            Some(
                unprocessable_failure(
                    "Arbeitszeit ist nicht im Zustand "@ + session_status_name(expected),
                ),
            )
        },
    }
}

/// The day's open session, when it is in the state `expected`.
pub fn require_status(open: &Option<WorkSessionRow>, expected: WorkSessionStatus) -> (r: AppResult<
    WorkSessionRow,
>)
    ensures
        fails_as(r, status_failure(*open, expected)),
        r matches Ok(row) ==> open == Some(row),
{
    let row = match open {
        None => return Err(unprocessable("Keine offene Arbeitszeit")),
        Some(row) => row,
    };
    if !str_equals(row.status.as_str(), expected.as_str()) {
        let mut msg = String::from_str("Arbeitszeit ist nicht im Zustand ");
        msg.append(expected.as_str());
        return Err(AppError::Unprocessable(msg));
    }
    Ok(row.clone())
}

/// Why work cannot be stopped, if it cannot: a time entry runs, or no session of
/// the day is open.
pub open spec fn stop_failure(entry_running: bool, open: Option<WorkSessionRow>) -> Option<
    (int, Seq<char>),
> {
    if entry_running {
        Some(unprocessable_failure("Zuerst den laufenden Eintrag stoppen"@))
    } else if open is None {
        Some(unprocessable_failure("Keine laufende Arbeitszeit"@))
    } else {
        None
    }
}

/// The session that stopping work closes.
pub fn session_to_stop(entry_running: bool, open: &Option<WorkSessionRow>) -> (r: AppResult<
    WorkSessionRow,
>)
    ensures
        fails_as(r, stop_failure(entry_running, *open)),
        r matches Ok(row) ==> open == Some(row),
{
    reject_if_entry_running(entry_running)?;
    match open {
        None => Err(unprocessable("Keine laufende Arbeitszeit")),
        Some(row) => Ok(row.clone()),
    }
}

/// Sum of the whole seconds of the intervals.
pub open spec fn interval_seconds(intervals: Seq<LabeledInterval>) -> int
    decreases intervals.len(),
{
    if intervals.len() == 0 {
        0
    } else {
        interval_seconds(intervals.drop_last()) + seconds_between(
            intervals.last().start,
            intervals.last().end,
        )
    }
}

/// All instants of the intervals lie in the calendar range.
pub open spec fn intervals_wf(intervals: Seq<LabeledInterval>) -> bool {
    forall|i: int|
        0 <= i < intervals.len() ==> (#[trigger] intervals[i]).start.wf() && intervals[i].end.wf()
}

proof fn lemma_interval_seconds_step(intervals: Seq<LabeledInterval>, i: int)
    requires
        0 <= i < intervals.len(),
        intervals[i].start.wf(),
        intervals[i].end.wf(),
    ensures
        interval_seconds(intervals.take(i + 1)) == interval_seconds(intervals.take(i))
            + seconds_between(intervals[i].start, intervals[i].end),
        -20_000_000_000_000 <= seconds_between(intervals[i].start, intervals[i].end)
            <= 20_000_000_000_000,
{
    assert(intervals.take(i + 1).drop_last() == intervals.take(i));
    lemma_seconds_between_bounded(intervals[i].start, intervals[i].end);
}

/// The signed sum of the intervals' whole seconds.
fn interval_total(intervals: &[LabeledInterval]) -> (r: i128)
    requires
        intervals_wf(intervals@),
    ensures
        r == interval_seconds(intervals@),
{
    let mut total: i128 = 0;
    let mut i: usize = 0;
    while i < intervals.len()
        invariant
            i <= intervals@.len(),
            intervals_wf(intervals@),
            total == interval_seconds(intervals@.take(i as int)),
            -20_000_000_000_000 * i <= total <= 20_000_000_000_000 * i,
        decreases intervals@.len() - i,
    {
        proof {
            lemma_interval_seconds_step(intervals@, i as int);
            assert(20_000_000_000_000 * (i + 1) <= 20_000_000_000_000 * 0x1_0000_0000_0000_0000)
                by (nonlinear_arith)
                requires
                    i + 1 <= 0x1_0000_0000_0000_0000,
            ;
        }
        let item = intervals[i];
        total = total + whole_seconds_between(item.start, item.end) as i128;
        i += 1;
    }
    proof {
        assert(intervals@.take(intervals@.len() as int) == intervals@);
    }
    total
}

/// The worked seconds of the intervals, never below zero.
pub fn elapsed_from(intervals: &[LabeledInterval]) -> (r: i64)
    requires
        intervals_wf(intervals@),
        interval_seconds(intervals@) <= i64::MAX,
    ensures
        r == (if interval_seconds(intervals@) < 0 {
            0
        } else {
            interval_seconds(intervals@)
        }),
{
    let total = interval_total(intervals);
    if total < 0 {
        0
    } else {
        total as i64
    }
}

/// Why a closed work interval from `start_at` to `end_at` is refused, if it is;
/// both are cut to the minute first. `expected` is the day it must stay on.
pub open spec fn closed_failure(
    start_at: Timestamp,
    end_at: Timestamp,
    now: Timestamp,
    expected: Option<CivilDate>,
) -> Option<(int, Seq<char>)> {
    let start = minute_floor(start_at);
    let end = minute_floor(end_at);
    if !start.precedes(end) {
        Some(unprocessable_failure("Arbeitszeit braucht eine Dauer größer als 0"@))
    } else if now.precedes(start) || now.precedes(end) {
        Some(unprocessable_failure("Zeitpunkt liegt in der Zukunft"@))
    } else if !on_same_day(app_zone_name(), start, end) {
        Some(unprocessable_failure("Start und Ende müssen am selben Kalendertag liegen"@))
    } else if expected matches Some(d) && d != zone_civil_date(app_zone_name(), start) {
        Some(unprocessable_failure("Tageswechsel ist nicht erlaubt"@))
    } else {
        None
    }
}

/// A closed work interval, cut to the minute: positive, not in the future, on
/// one local day, and on the day `expected` when one is given.
pub fn validate_closed(
    start_at: Timestamp,
    end_at: Timestamp,
    now: Timestamp,
    expected: Option<CivilDate>,
) -> (r: AppResult<(Timestamp, Timestamp)>)
    requires
        start_at.has_local_day(),
        end_at.has_local_day(),
    ensures
        fails_as(r, closed_failure(start_at, end_at, now, expected)),
        r matches Ok(x) ==> x == (minute_floor(start_at), minute_floor(end_at)),
{
    let start = truncate_to_minute(start_at);
    let end = truncate_to_minute(end_at);
    if !start.is_before(&end) {
        return Err(unprocessable("Arbeitszeit braucht eine Dauer größer als 0"));
    }
    if now.is_before(&start) || now.is_before(&end) {
        return Err(unprocessable("Zeitpunkt liegt in der Zukunft"));
    }
    let zone = app_tz();
    if !same_civil_day(start, end, &zone) {
        return Err(unprocessable("Start und Ende müssen am selben Kalendertag liegen"));
    }
    let date = civil_date(start, &zone);
    if let Some(day) = expected {
        if !(day.year == date.year && day.month == date.month && day.day == date.day) {
            return Err(unprocessable("Tageswechsel ist nicht erlaubt"));
        }
    }
    Ok((start, end))
}

/// The spans of the day's intervals other than `except`, as non-inverted intervals.
pub open spec fn other_spans(intervals: Seq<LabeledInterval>, except: Option<i64>) -> Seq<Interval>
    decreases intervals.len(),
{
    if intervals.len() == 0 {
        Seq::empty()
    } else {
        let prefix = other_spans(intervals.drop_last(), except);
        let last = intervals.last();
        if except == Some(last.id) || last.end.precedes(last.start) {
            prefix
        } else {
            prefix.push(Interval { start: last.start, end: last.end })
        }
    }
}

/// Why a work interval is refused for sharing time with another interval of
/// the day, if it is.
pub open spec fn work_overlap_failure(
    intervals: Seq<LabeledInterval>,
    candidate: Interval,
    except: Option<i64>,
) -> Option<(int, Seq<char>)> {
    let others = other_spans(intervals, except);
    if exists|i: int| 0 <= i < others.len() && overlaps(candidate, #[trigger] others[i]) {
        Some(conflict_failure("Arbeitszeit überschneidet sich mit einem bestehenden Zeitraum"@))
    } else {
        None
    }
}

/// A work interval shares no time with the day's other intervals (all but the
/// one opened by `except`).
pub fn ensure_no_work_overlap(
    intervals: &[LabeledInterval],
    candidate: Interval,
    except: Option<i64>,
) -> (r: AppResult<()>)
    ensures
        fails_as(r, work_overlap_failure(intervals@, candidate, except)),
{
    let mut others: Vec<Interval> = Vec::new();
    let mut i: usize = 0;
    while i < intervals.len()
        invariant
            i <= intervals@.len(),
            others@ == other_spans(intervals@.take(i as int), except),
        decreases intervals@.len() - i,
    {
        proof {
            assert(intervals@.take(i + 1).drop_last() == intervals@.take(i as int));
            assert(intervals@.take(i + 1).last() == intervals@[i as int]);
        }
        let item = intervals[i];
        let skip = match except {
            Some(x) => x == item.id,
            None => false,
        };
        if !skip {
            if let Some(span) = Interval::new(item.start, item.end) {
                others.push(span);
            }
        }
        i += 1;
    }
    proof {
        assert(intervals@.take(intervals@.len() as int) == intervals@);
    }
    if any_overlap(candidate, others.as_slice()) {
        return Err(conflict("Arbeitszeit überschneidet sich mit einem bestehenden Zeitraum"));
    }
    Ok(())
}

/// The first interval of the list opened by the event `id`.
pub open spec fn interval_with_id(intervals: Seq<LabeledInterval>, id: i64) -> Option<LabeledInterval>
    decreases intervals.len(),
{
    if intervals.len() == 0 {
        None
    } else if intervals[0].id == id {
        Some(intervals[0])
    } else {
        interval_with_id(intervals.drop_first(), id)
    }
}

/// Finds the interval opened by the event `id`.
pub fn find_interval(intervals: &[LabeledInterval], id: i64) -> (r: Option<LabeledInterval>)
    ensures
        r == interval_with_id(intervals@, id),
{
    let mut i: usize = 0;
    assert(intervals@.skip(0) == intervals@);
    while i < intervals.len()
        invariant
            i <= intervals@.len(),
            interval_with_id(intervals@, id) == interval_with_id(intervals@.skip(i as int), id),
        decreases intervals@.len() - i,
    {
        proof {
            assert(intervals@.skip(i as int).drop_first() == intervals@.skip(i + 1));
            assert(intervals@.skip(i as int)[0] == intervals@[i as int]);
        }
        if intervals[i].id == id {
            return Some(intervals[i]);
        }
        i += 1;
    }
    None
}

/// The interval of a user opened by the event `id`: `session_id` is the session
/// of that event when the user owns it, `records` its events.
pub fn owned_interval(
    session_id: Option<i64>,
    records: &[WorkEventRecord],
    id: i64,
    now: Timestamp,
) -> (r: AppResult<LabeledInterval>)
    ensures
        match session_id {
            None => r == Err::<LabeledInterval, AppError>(AppError::NotFound),
            Some(sid) => match interval_with_id(labeled(sid, records@, now), id) {
                Some(l) => r == Ok::<LabeledInterval, AppError>(l),
                None => r == Err::<LabeledInterval, AppError>(AppError::NotFound),
            },
        },
{
    let sid = match session_id {
        None => return Err(AppError::NotFound),
        Some(s) => s,
    };
    let intervals = labeled_intervals(sid, records, now);
    match find_interval(intervals.as_slice(), id) {
        Some(l) => Ok(l),
        None => Err(AppError::NotFound),
    }
}

/// The interval a new manual interval became, found by its opening event.
pub fn created_interval(intervals: &[LabeledInterval], opening_id: i64) -> (r: AppResult<
    LabeledInterval,
>)
    ensures
        match interval_with_id(intervals@, opening_id) {
            Some(l) => r == Ok::<LabeledInterval, AppError>(l),
            None => r matches Err(e) && failure_of(e) == internal_failure(
                "Intervall nach dem Anlegen nicht gefunden"@,
            ),
        },
{
    match find_interval(intervals, opening_id) {
        Some(l) => Ok(l),
        None => Err(internal("Intervall nach dem Anlegen nicht gefunden")),
    }
}

/// The interval an edited interval became, found by its opening event.
pub fn saved_interval(intervals: &[LabeledInterval], id: i64) -> (r: AppResult<LabeledInterval>)
    ensures
        match interval_with_id(intervals@, id) {
            Some(l) => r == Ok::<LabeledInterval, AppError>(l),
            None => r matches Err(e) && failure_of(e) == internal_failure(
                "Intervall nach dem Speichern nicht gefunden"@,
            ),
        },
{
    match find_interval(intervals, id) {
        Some(l) => Ok(l),
        None => Err(internal("Intervall nach dem Speichern nicht gefunden")),
    }
}

/// `i` is the first position of an event with the id `id`.
pub open spec fn first_position(records: Seq<WorkEventRecord>, id: i64, i: int) -> bool {
    &&& 0 <= i < records.len()
    &&& records[i].id == id
    &&& forall|j: int| 0 <= j < i ==> (#[trigger] records[j]).id != id
}

/// The first position of an event with the id `id`, if there is one.
pub open spec fn position_of(records: Seq<WorkEventRecord>, id: i64) -> Option<int> {
    if exists|i: int| first_position(records, id, i) {
        Some(choose|i: int| first_position(records, id, i))
    } else {
        None
    }
}

/// The events with new times: each update gives the first event of its id its
/// instant, in the order of the updates; `None` when an id is missing.
pub open spec fn retimed(records: Seq<WorkEventRecord>, updates: Seq<(i64, Timestamp)>) -> Option<
    Seq<WorkEventRecord>,
>
    decreases updates.len(),
{
    if updates.len() == 0 {
        Some(records)
    } else {
        match retimed(records, updates.drop_last()) {
            None => None,
            Some(rs) => match position_of(rs, updates.last().0) {
                None => None,
                Some(i) => Some(rs.update(i, WorkEventRecord { at: updates.last().1, ..rs[i] })),
            },
        }
    }
}

/// Why new event times are refused, if they are: an event is missing, or the
/// times would go back.
pub open spec fn retime_failure(records: Seq<WorkEventRecord>, updates: Seq<(i64, Timestamp)>) -> Option<
    (int, Seq<char>),
> {
    match retimed(records, updates) {
        None => Some(internal_failure("Event nicht gefunden"@)),
        Some(rs) => if non_decreasing(rs) {
            None
        } else {
            Some(unprocessable_failure("Die Zeiten der Arbeitszeit sind ungültig"@))
        },
    }
}

proof fn lemma_first_position_unique(records: Seq<WorkEventRecord>, id: i64, i: int)
    requires
        first_position(records, id, i),
    ensures
        position_of(records, id) == Some(i),
{
    let k = choose|k: int| first_position(records, id, k);
    assert(first_position(records, id, k));
    if k < i {
        assert(records[k].id != id);
    } else if k > i {
        assert(records[i].id != id);
    }
}

proof fn lemma_retimed_missing_extends(
    records: Seq<WorkEventRecord>,
    updates: Seq<(i64, Timestamp)>,
    n: int,
)
    requires
        0 <= n <= updates.len(),
        retimed(records, updates.take(n)) is None,
    ensures
        retimed(records, updates) is None,
    decreases updates.len() - n,
{
    if n < updates.len() {
        assert(updates.take(n + 1).drop_last() == updates.take(n));
        lemma_retimed_missing_extends(records, updates, n + 1);
    } else {
        assert(updates.take(n) == updates);
    }
}

/// The position of the first event with the id `id`.
fn position_in(records: &Vec<WorkEventRecord>, id: i64) -> (r: Option<usize>)
    ensures
        match r {
            Some(i) => position_of(records@, id) == Some(i as int),
            None => position_of(records@, id) is None,
        },
{
    let mut i: usize = 0;
    while i < records.len()
        invariant
            i <= records@.len(),
            forall|j: int| 0 <= j < i ==> (#[trigger] records@[j]).id != id,
        decreases records@.len() - i,
    {
        if records[i].id == id {
            proof {
                lemma_first_position_unique(records@, id, i as int);
            }
            return Some(i);
        }
        i += 1;
    }
    None
}

/// Gives events new times; the times of the session must then not go back.
pub fn apply_event_times(records: &mut Vec<WorkEventRecord>, updates: &[(i64, Timestamp)]) -> (r:
    AppResult<()>)
    ensures
        fails_as(r, retime_failure(old(records)@, updates@)),
        r is Ok ==> retimed(old(records)@, updates@) == Some(final(records)@),
{
    let ghost before = records@;
    let mut k: usize = 0;
    while k < updates.len()
        invariant
            k <= updates@.len(),
            before == old(records)@,
            retimed(before, updates@.take(k as int)) == Some(records@),
        decreases updates@.len() - k,
    {
        proof {
            assert(updates@.take(k + 1).drop_last() == updates@.take(k as int));
            assert(updates@.take(k + 1).last() == updates@[k as int]);
        }
        let (id, at) = updates[k];
        match position_in(records, id) {
            None => {
                proof {
                    assert(updates@.take(k + 1).last().0 == id);
                    assert(retimed(before, updates@.take(k + 1)) is None);
                    lemma_retimed_missing_extends(before, updates@, k + 1);
                    assert(before == old(records)@);
                }
                return Err(internal("Event nicht gefunden"));
            },
            Some(i) => {
                let event = records[i];
                records.set(i, WorkEventRecord { at, ..event });
            },
        }
        k += 1;
    }
    proof {
        assert(updates@.take(updates@.len() as int) == updates@);
    }
    if !timestamps_non_decreasing(records.as_slice()) {
        return Err(unprocessable("Die Zeiten der Arbeitszeit sind ungültig"));
    }
    Ok(())
}

/// The new times an interval edit writes: its opening event gets the start cut
/// to the minute, and a closed interval's closing event the end cut to the minute.
pub open spec fn interval_updates(
    interval: LabeledInterval,
    start_at: Timestamp,
    end_at: Option<Timestamp>,
) -> Seq<(i64, Timestamp)> {
    let first = seq![(interval.id, minute_floor(start_at))];
    match (interval.close_event_id, end_at) {
        (Some(c), Some(e)) => if interval.open {
            first
        } else {
            first.push((c, minute_floor(e)))
        },
        _ => first,
    }
}

/// Why an edit of an interval to `start_at`..`end_at` is refused, if it is. A
/// running interval takes a new start only: before `now`, on its session's day,
/// clear of the day's other intervals. A closed one takes both: a valid closed
/// span on its session's day, clear of the day's other intervals. The event
/// times must then not go back.
pub open spec fn interval_update_failure(
    interval: LabeledInterval,
    local_date: CivilDate,
    records: Seq<WorkEventRecord>,
    start_at: Timestamp,
    end_at: Option<Timestamp>,
    day: Seq<LabeledInterval>,
    now: Timestamp,
) -> Option<(int, Seq<char>)> {
    let start = minute_floor(start_at);
    if interval.open {
        if end_at is Some {
            Some(unprocessable_failure("Laufende Arbeitszeit hat kein Ende"@))
        } else if !start.precedes(now) {
            Some(unprocessable_failure("Start muss vor dem aktuellen Zeitpunkt liegen"@))
        } else if zone_civil_date(app_zone_name(), start) != local_date {
            Some(unprocessable_failure("Tageswechsel ist nicht erlaubt"@))
        } else {
            first_failure(
                work_overlap_failure(day, running_interval(start, now), Some(interval.id)),
                retime_failure(records, interval_updates(interval, start_at, end_at)),
            )
        }
    } else {
        match end_at {
            None => Some(unprocessable_failure("Endzeitpunkt ist erforderlich"@)),
            Some(end) => first_failure(
                closed_failure(start_at, end, now, Some(local_date)),
                first_failure(
                    work_overlap_failure(
                        day,
                        Interval { start, end: minute_floor(end) },
                        Some(interval.id),
                    ),
                    retime_failure(records, interval_updates(interval, start_at, end_at)),
                ),
            ),
        }
    }
}

/// Checks an edit of an interval (`local_date` is its session's day, `records`
/// the session's events, `day` the intervals of that day) and gives the events
/// with their new times.
pub fn plan_interval_update(
    interval: &LabeledInterval,
    local_date: CivilDate,
    records: Vec<WorkEventRecord>,
    start_at: Timestamp,
    end_at: Option<Timestamp>,
    day: &[LabeledInterval],
    now: Timestamp,
) -> (r: AppResult<Vec<WorkEventRecord>>)
    requires
        start_at.has_local_day(),
        end_at matches Some(e) ==> e.has_local_day(),
    ensures
        fails_as(
            r,
            interval_update_failure(*interval, local_date, records@, start_at, end_at, day@, now),
        ),
        r matches Ok(v) ==> retimed(records@, interval_updates(*interval, start_at, end_at))
            == Some(v@),
{
    let mut records = records;
    let start = truncate_to_minute(start_at);
    let mut updates: Vec<(i64, Timestamp)> = Vec::new();
    updates.push((interval.id, start));
    if interval.open {
        if end_at.is_some() {
            return Err(unprocessable("Laufende Arbeitszeit hat kein Ende"));
        }
        if !start.is_before(&now) {
            return Err(unprocessable("Start muss vor dem aktuellen Zeitpunkt liegen"));
        }
        let date = civil_date(start, &app_tz());
        if !(date.year == local_date.year && date.month == local_date.month && date.day
            == local_date.day) {
            return Err(unprocessable("Tageswechsel ist nicht erlaubt"));
        }
        ensure_no_work_overlap(day, Interval::running(start, now), Some(interval.id))?;
        assert(updates@ == interval_updates(*interval, start_at, end_at));
        apply_event_times(&mut records, updates.as_slice())?;
    } else {
        let end_at = match end_at {
            None => return Err(unprocessable("Endzeitpunkt ist erforderlich")),
            Some(e) => e,
        };
        let (start, end) = validate_closed(start_at, end_at, now, Some(local_date))?;
        let candidate = match Interval::new(start, end) {
            Some(c) => c,
            None => return Err(unprocessable("Zeitraum ungültig")),
        };
        ensure_no_work_overlap(day, candidate, Some(interval.id))?;
        if let Some(close_id) = interval.close_event_id {
            updates.push((close_id, end));
        }
        assert(updates@ == interval_updates(*interval, start_at, Some(end_at)));
        apply_event_times(&mut records, updates.as_slice())?;
    }
    Ok(records)
}

/// Checks a new manual interval: a valid closed span; gives the span cut to the
/// minute and its local day, against whose intervals it is then checked.
pub fn plan_interval_create(start_at: Timestamp, end_at: Timestamp, now: Timestamp) -> (r: AppResult<
    (Interval, CivilDate),
>)
    requires
        start_at.has_local_day(),
        end_at.has_local_day(),
    ensures
        fails_as(r, closed_failure(start_at, end_at, now, None)),
        r matches Ok((span, date)) ==> span == (Interval {
            start: minute_floor(start_at),
            end: minute_floor(end_at),
        }) && date == zone_civil_date(app_zone_name(), minute_floor(start_at)),
{
    let (start, end) = validate_closed(start_at, end_at, now, None)?;
    let date = civil_date(start, &app_tz());
    let span = match Interval::new(start, end) {
        Some(c) => c,
        None => return Err(unprocessable("Zeitraum ungültig")),
    };
    Ok((span, date))
}

/// What deleting an interval does to the store.
#[derive(Debug, Clone, Copy, PartialEq, Eq)]
pub enum IntervalRemoval {
    /// No interval is left: the session goes with its events.
    DeleteSession,
    /// The interval's events go; the session's new first event is stored with
    /// the given kind.
    DeleteEvents { close_event_id: Option<i64>, opening_event_id: i64, first: (i64, WorkEventKind) },
}

/// What deleting the interval does, or why it is refused: a running interval
/// stays; an interval without its run is not found.
pub open spec fn interval_removal(
    interval: LabeledInterval,
    session_id: i64,
    records: Seq<WorkEventRecord>,
    now: Timestamp,
) -> Result<IntervalRemoval, (int, Seq<char>)> {
    if interval.open {
        Err(unprocessable_failure("Laufende Arbeitszeit kann nicht gelöscht werden"@))
    } else {
        match events_without_interval(records, interval.id) {
            None => Err(not_found_failure()),
            Some(rem) => if rem.len() == 0 || labeled(session_id, rem, now).len() == 0 {
                Ok(IntervalRemoval::DeleteSession)
            } else {
                Ok(
                    IntervalRemoval::DeleteEvents {
                        close_event_id: interval.close_event_id,
                        opening_event_id: interval.id,
                        first: (rem[0].id, rem[0].kind),
                    },
                )
            },
        }
    }
}

/// Decides how an interval of the session is deleted.
pub fn plan_interval_delete(
    interval: &LabeledInterval,
    session_id: i64,
    records: &[WorkEventRecord],
    now: Timestamp,
) -> (r: AppResult<IntervalRemoval>)
    ensures
        match interval_removal(*interval, session_id, records@, now) {
            Ok(x) => r == Ok::<IntervalRemoval, AppError>(x),
            Err(f) => r matches Err(e) && failure_of(e) == f,
        },
{
    if interval.open {
        return Err(unprocessable("Laufende Arbeitszeit kann nicht gelöscht werden"));
    }
    let remaining = match remove_interval(records, interval.id) {
        Some(v) => v,
        None => return Err(AppError::NotFound),
    };
    if remaining.len() == 0 || labeled_intervals(session_id, remaining.as_slice(), now).len() == 0 {
        return Ok(IntervalRemoval::DeleteSession);
    }
    let first = remaining[0];
    Ok(
        IntervalRemoval::DeleteEvents {
            close_event_id: interval.close_event_id,
            opening_event_id: interval.id,
            first: (first.id, first.kind),
        },
    )
}

/// What happens at `now` to a session that is not stopped: `None` while its day
/// lasts; otherwise it is stopped, with a Stopped event at the end of its day
/// (when that instant exists) if it was running or paused.
pub open spec fn session_midnight_close(row: WorkSessionRow, now: Timestamp) -> Result<
    Option<Option<Timestamp>>,
    Seq<char>,
> {
    match ymd_date(row.local_date@) {
        None => Err("local_date ungültig"@),
        Some(d) => if !past_start_day(app_zone_name(), d, now) {
            Ok(None)
        } else {
            match zone_local_instant(app_zone_name(), d, 23, 59, 59) {
                None => Err("Mitternachtszeit ungültig"@),
                Some(t) => Ok(
                    Some(
                        if row.status@ == "running"@ || row.status@ == "paused"@ {
                            Some(t)
                        } else {
                            None
                        },
                    ),
                ),
            }
        },
    }
}

/// Decides whether a session left open is closed at `now` because its day is over.
pub fn close_stale_session(row: &WorkSessionRow, now: Timestamp) -> (r: AppResult<
    Option<Option<Timestamp>>,
>)
    requires
        now.has_local_day(),
    ensures
        match session_midnight_close(*row, now) {
            Ok(x) => r == Ok::<Option<Option<Timestamp>>, AppError>(x),
            Err(m) => r matches Err(e) && failure_of(e) == internal_failure(m),
        },
{
    let started_on = session_date(row.local_date.as_str())?;
    let zone = app_tz();
    if !needs_midnight_close(started_on, now, &zone) {
        return Ok(None);
    }
    let close_at = match close_timestamp(started_on, &zone) {
        Some(t) => t,
        None => return Err(internal("Mitternachtszeit ungültig")),
    };
    if str_equals(row.status.as_str(), "running") || str_equals(row.status.as_str(), "paused") {
        Ok(Some(Some(close_at)))
    } else {
        Ok(Some(None))
    }
}

/// The work of the current day: its open session (if any), its day and the
/// worked seconds.
pub struct WorkSnapshot {
    pub session: Option<WorkSessionRow>,
    pub elapsed_seconds: i64,
    pub local_date: CivilDate,
}

/// A day of work: its intervals and worked seconds.
pub struct WorkDaySummary {
    pub local_date: CivilDate,
    pub elapsed_seconds: i64,
    pub intervals: Vec<LabeledInterval>,
}

/// The intervals of a day's sessions, session after session.
pub open spec fn sessions_intervals(
    sessions: Seq<(i64, Vec<WorkEventRecord>)>,
    now: Timestamp,
) -> Seq<LabeledInterval>
    decreases sessions.len(),
{
    if sessions.len() == 0 {
        Seq::empty()
    } else {
        sessions_intervals(sessions.drop_last(), now) + labeled(
            sessions.last().0,
            sessions.last().1@,
            now,
        )
    }
}

/// The intervals of a day, given each session's id and events.
pub fn day_intervals(sessions: &[(i64, Vec<WorkEventRecord>)], now: Timestamp) -> (r: Vec<
    LabeledInterval,
>)
    ensures
        r@ == sessions_intervals(sessions@, now),
{
    let mut out: Vec<LabeledInterval> = Vec::new();
    let mut i: usize = 0;
    while i < sessions.len()
        invariant
            i <= sessions@.len(),
            out@ == sessions_intervals(sessions@.take(i as int), now),
        decreases sessions@.len() - i,
    {
        proof {
            assert(sessions@.take(i + 1).drop_last() == sessions@.take(i as int));
            assert(sessions@.take(i + 1).last() == sessions@[i as int]);
        }
        let (id, events) = &sessions[i];
        let mut part = labeled_intervals(*id, events.as_slice(), now);
        let ghost before = out@;
        out.append(&mut part);
        i += 1;
    }
    proof {
        assert(sessions@.take(sessions@.len() as int) == sessions@);
    }
    out
}

/// The summary of a day: its intervals and their worked seconds.
pub fn day_summary(local_date: CivilDate, intervals: Vec<LabeledInterval>) -> (r: WorkDaySummary)
    requires
        intervals_wf(intervals@),
        interval_seconds(intervals@) <= i64::MAX,
    ensures
        r.local_date == local_date,
        r.intervals@ == intervals@,
        r.elapsed_seconds == (if interval_seconds(intervals@) < 0 {
            0
        } else {
            interval_seconds(intervals@)
        }),
{
    let elapsed_seconds = elapsed_from(intervals.as_slice());
    WorkDaySummary { local_date, elapsed_seconds, intervals }
}

/// After an interval is removed, the session's first event never is a Resumed:
/// the session still opens with a start.
pub proof fn law_removal_keeps_a_start(events: Seq<WorkEventRecord>, opening_id: i64)
    requires
        events_without_interval(events, opening_id) matches Some(rem) && rem.len() > 0,
    ensures
        !(events_without_interval(events, opening_id)->0[0].kind is Resumed),
{
}

/// Edited event times that are accepted never go back.
pub proof fn law_accepted_times_are_ordered(
    records: Seq<WorkEventRecord>,
    updates: Seq<(i64, Timestamp)>,
)
    requires
        retime_failure(records, updates) is None,
    ensures
        retimed(records, updates) matches Some(rs) && non_decreasing(rs),
{
}

/// An accepted closed interval, cut to the minute, has positive length, lies
/// in the past of `now` and within one local day.
pub proof fn law_accepted_interval_is_sound(
    start_at: Timestamp,
    end_at: Timestamp,
    now: Timestamp,
    expected: Option<CivilDate>,
)
    requires
        closed_failure(start_at, end_at, now, expected) is None,
    ensures
        minute_floor(start_at).precedes(minute_floor(end_at)),
        minute_floor(end_at).not_after(now),
        on_same_day(app_zone_name(), minute_floor(start_at), minute_floor(end_at)),
        expected matches Some(d) ==> d == zone_civil_date(app_zone_name(), minute_floor(start_at)),
{
}

/// The worked seconds of a day's intervals, or `None` when their sum does not
/// fit in an `i64`.
pub fn day_elapsed(intervals: &[LabeledInterval]) -> (r: Option<i64>)
    requires
        intervals_wf(intervals@),
    ensures
        match r {
            Some(v) => interval_seconds(intervals@) <= i64::MAX && v == (if interval_seconds(
                intervals@,
            ) < 0 {
                0
            } else {
                interval_seconds(intervals@)
            }),
            None => interval_seconds(intervals@) > i64::MAX,
        },
{
    let total = interval_total(intervals);
    if total > i64::MAX as i128 {
        None
    } else if total < 0 {
        Some(0)
    } else {
        Some(total as i64)
    }
}

/// Work starts only while no session of the day is open: a day never has two
/// open sessions.
pub proof fn law_one_open_session(open: Option<WorkSessionRow>)
    requires
        start_failure(open) is None,
    ensures
        open is None,
{
}

/// Deleting a closed interval deletes the session exactly when the events left
/// yield no worked time; otherwise only the interval's events go, and the
/// first event left opens the session.
pub proof fn law_session_deleted_only_without_work(
    interval: LabeledInterval,
    session_id: i64,
    records: Seq<WorkEventRecord>,
    now: Timestamp,
)
    requires
        !interval.open,
        events_without_interval(records, interval.id) is Some,
    ensures
        ({
            let rem = events_without_interval(records, interval.id)->0;
            &&& (interval_removal(interval, session_id, records, now) == Ok::<
                IntervalRemoval,
                (int, Seq<char>),
            >(IntervalRemoval::DeleteSession)) <==> worked_intervals(unlabeled(rem), now).len()
                == 0
            &&& worked_intervals(unlabeled(rem), now).len() > 0 ==> interval_removal(
                interval,
                session_id,
                records,
                now,
            ) == Ok::<IntervalRemoval, (int, Seq<char>)>(
                IntervalRemoval::DeleteEvents {
                    close_event_id: interval.close_event_id,
                    opening_event_id: interval.id,
                    first: (rem[0].id, rem[0].kind),
                },
            )
        }),
{
    let rem = events_without_interval(records, interval.id)->0;
    law_labels_keep_worked_intervals(session_id, rem, now);
    assert(bounds(labeled(session_id, rem, now)).len() == labeled(session_id, rem, now).len());
    if rem.len() == 0 {
        assert(unlabeled(rem).len() == 0);
        assert(worked_intervals(unlabeled(rem), now).len() == 0) by {
            reveal_with_fuel(crate::work_duration::run_scan, 1);
        }
    }
}

proof fn lemma_other_spans_hold(intervals: Seq<LabeledInterval>, except: Option<i64>, k: int)
    requires
        0 <= k < intervals.len(),
        except != Some(intervals[k].id),
        !intervals[k].end.precedes(intervals[k].start),
    ensures
        exists|j: int|
            0 <= j < other_spans(intervals, except).len() && #[trigger] other_spans(
                intervals,
                except,
            )[j] == (Interval { start: intervals[k].start, end: intervals[k].end }),
    decreases intervals.len(),
{
    let prefix = other_spans(intervals.drop_last(), except);
    if k == intervals.len() - 1 {
        assert(other_spans(intervals, except)[prefix.len() as int] == (Interval {
            start: intervals[k].start,
            end: intervals[k].end,
        }));
    } else {
        assert(intervals.drop_last()[k] == intervals[k]);
        lemma_other_spans_hold(intervals.drop_last(), except, k);
        let j = choose|j: int|
            0 <= j < prefix.len() && #[trigger] prefix[j] == (Interval {
                start: intervals[k].start,
                end: intervals[k].end,
            });
        assert(other_spans(intervals, except)[j] == prefix[j]);
    }
}

proof fn lemma_other_spans_from(intervals: Seq<LabeledInterval>, except: Option<i64>, j: int)
    requires
        0 <= j < other_spans(intervals, except).len(),
    ensures
        exists|k: int|
            0 <= k < intervals.len() && except != Some(intervals[k].id) && !intervals[k].end.precedes(
                intervals[k].start,
            ) && other_spans(intervals, except)[j] == (Interval {
                start: #[trigger] intervals[k].start,
                end: intervals[k].end,
            }),
    decreases intervals.len(),
{
    let prefix = other_spans(intervals.drop_last(), except);
    if j < prefix.len() {
        assert(other_spans(intervals, except)[j] == prefix[j]);
        lemma_other_spans_from(intervals.drop_last(), except, j);
        let k = choose|k: int|
            0 <= k < intervals.drop_last().len() && except != Some(intervals.drop_last()[k].id)
                && !intervals.drop_last()[k].end.precedes(intervals.drop_last()[k].start)
                && prefix[j] == (Interval {
                start: #[trigger] intervals.drop_last()[k].start,
                end: intervals.drop_last()[k].end,
            });
        assert(intervals.drop_last()[k] == intervals[k]);
    } else {
        let k = intervals.len() - 1;
        assert(intervals[k] == intervals.last());
    }
}

/// A work interval is refused exactly when it shares time with an interval of
/// the day other than `except`, running or closed (intervals whose end comes
/// before their start take no part).
pub proof fn law_work_overlap_checks_every_other_interval(
    intervals: Seq<LabeledInterval>,
    candidate: Interval,
    except: Option<i64>,
)
    ensures
        (work_overlap_failure(intervals, candidate, except) is Some) <==> exists|k: int|
            0 <= k < intervals.len() && except != Some(intervals[k].id)
                && !intervals[k].end.precedes(intervals[k].start) && overlaps(
                candidate,
                Interval { start: #[trigger] intervals[k].start, end: intervals[k].end },
            ),
        work_overlap_failure(intervals, candidate, except) matches Some(f) ==> f == conflict_failure(
            "Arbeitszeit überschneidet sich mit einem bestehenden Zeitraum"@,
        ),
{
    let others = other_spans(intervals, except);
    if exists|k: int|
        0 <= k < intervals.len() && except != Some(intervals[k].id)
            && !intervals[k].end.precedes(intervals[k].start) && overlaps(
            candidate,
            Interval { start: #[trigger] intervals[k].start, end: intervals[k].end },
        ) {
        let k = choose|k: int|
            0 <= k < intervals.len() && except != Some(intervals[k].id)
                && !intervals[k].end.precedes(intervals[k].start) && overlaps(
                candidate,
                Interval { start: #[trigger] intervals[k].start, end: intervals[k].end },
            );
        lemma_other_spans_hold(intervals, except, k);
        let j = choose|j: int|
            0 <= j < others.len() && #[trigger] others[j] == (Interval {
                start: intervals[k].start,
                end: intervals[k].end,
            });
        assert(overlaps(candidate, others[j]));
    }
    if exists|i: int| 0 <= i < others.len() && overlaps(candidate, #[trigger] others[i]) {
        let i = choose|i: int| 0 <= i < others.len() && overlaps(candidate, #[trigger] others[i]);
        lemma_other_spans_from(intervals, except, i);
        let k = choose|k: int|
            0 <= k < intervals.len() && except != Some(intervals[k].id) && !intervals[k].end.precedes(
                intervals[k].start,
            ) && others[i] == (Interval { start: #[trigger] intervals[k].start, end: intervals[k].end });
        assert(overlaps(candidate, Interval { start: intervals[k].start, end: intervals[k].end }));
    }
}

} // verus!
