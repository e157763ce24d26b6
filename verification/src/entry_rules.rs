//! The rules a time entry keeps when it is created, changed, started, stopped
//! or closed at midnight.
use vstd::prelude::*;

use crate::calendar::{app_tz, app_zone_name, parse_rfc3339, rfc3339_instant, zone_civil_date};
use crate::entries::row_start;
use crate::error::{
    conflict, conflict_failure, fails_as, failure_of, internal, internal_failure,
    not_found_failure, unprocessable, unprocessable_failure, AppError, AppResult,
};
use crate::midnight::{close_timestamp, needs_midnight_close, past_start_day};
use crate::models::{EntryRow, EntryStatus, NamedRow, ProjectRow};
use crate::overlap::{any_contains_instant, any_overlap, holds_instant, overlaps, Interval};
use crate::same_day::{civil_date, on_same_day, same_civil_day};
use crate::calendar::zone_local_instant;
use crate::text::str_equals;
use crate::time::{minute_floor, truncate_to_minute, Timestamp, MAX_TIMESTAMP, SECONDS_PER_DAY};

verus! {

/// A time entry as asked for: task, project, start and, unless it runs, end.
#[derive(Debug, Clone, Copy, PartialEq, Eq)]
pub struct NewEntry {
    pub task_id: Option<i64>,
    pub project_id: Option<i64>,
    pub start_at: Timestamp,
    pub end_at: Option<Timestamp>,
}

impl NewEntry {
    /// Start and end lie at least a day inside the calendar range, so that
    /// both have a local day.
    pub open spec fn wf(self) -> bool {
        self.start_at.has_local_day() && (self.end_at matches Some(e) ==> e.has_local_day())
    }

    /// The end, or the start for a running entry.
    pub open spec fn last_instant(self) -> Timestamp {
        match self.end_at {
            Some(e) => e,
            None => self.start_at,
        }
    }
}

/// The first of two outcomes that is a failure.
pub open spec fn first_failure(
    a: Option<(int, Seq<char>)>,
    b: Option<(int, Seq<char>)>,
) -> Option<(int, Seq<char>)> {
    if a is Some {
        a
    } else {
        b
    }
}

/// Why a completed entry ending at `end` is refused, if it is.
pub open spec fn completion_failure(input: NewEntry, end: Timestamp) -> Option<(int, Seq<char>)> {
    if input.task_id is None {
        Some(unprocessable_failure("Ein abgeschlossener Eintrag braucht einen Task"@))
    } else if end.precedes(input.start_at) {
        Some(unprocessable_failure("Endzeitpunkt darf nicht vor dem Start liegen"@))
    } else if end == input.start_at {
        Some(unprocessable_failure("Eintrag braucht eine Dauer größer als 0"@))
    } else {
        None
    }
}

/// A completed entry needs a task and a positive length.
pub fn validate_complete(input: &NewEntry, end: Timestamp) -> (r: AppResult<()>)
    ensures
        fails_as(r, completion_failure(*input, end)),
{
    if input.task_id.is_none() {
        return Err(unprocessable("Ein abgeschlossener Eintrag braucht einen Task"));
    }
    if end.is_before(&input.start_at) {
        return Err(unprocessable("Endzeitpunkt darf nicht vor dem Start liegen"));
    }
    if end.same_instant(&input.start_at) {
        return Err(unprocessable("Eintrag braucht eine Dauer größer als 0"));
    }
    Ok(())
}

/// Why an entry from `start` to `end` is refused for spanning days, if it is.
pub open spec fn day_failure(start: Timestamp, end: Timestamp) -> Option<(int, Seq<char>)> {
    if on_same_day(app_zone_name(), start, end) {
        None
    } else {
        Some(unprocessable_failure("Start und Ende müssen am selben Kalendertag liegen"@))
    }
}

/// Start and end of an entry fall on the same local day.
pub fn ensure_same_day(start: Timestamp, end: Timestamp) -> (r: AppResult<()>)
    requires
        start.has_local_day(),
        end.has_local_day(),
    ensures
        fails_as(r, day_failure(start, end)),
{
    if !same_civil_day(start, end, &app_tz()) {
        return Err(unprocessable("Start und Ende müssen am selben Kalendertag liegen"));
    }
    Ok(())
}

/// Why a running entry is refused because another one runs, if it is; the
/// entry `except` itself does not count.
pub open spec fn open_timer_failure(running_id: Option<i64>, except: Option<i64>) -> Option<
    (int, Seq<char>),
> {
    match running_id {
        Some(id) => if except == Some(id) {
            None
        } else {
            Some(conflict_failure("Es läuft bereits ein Eintrag"@))
        },
        None => None,
    }
}

/// No entry of the user runs.
pub fn ensure_no_open_timer(running_id: Option<i64>) -> (r: AppResult<()>)
    ensures
        fails_as(r, open_timer_failure(running_id, None)),
{
    if running_id.is_some() {
        return Err(conflict("Es läuft bereits ein Eintrag"));
    }
    Ok(())
}

/// No entry of the user runs but the entry `id`.
pub fn ensure_no_open_timer_except(running_id: Option<i64>, id: i64) -> (r: AppResult<()>)
    ensures
        fails_as(r, open_timer_failure(running_id, Some(id))),
{
    if let Some(running) = running_id {
        if running != id {
            return Err(conflict("Es läuft bereits ein Eintrag"));
        }
    }
    Ok(())
}

/// Why a new running entry is refused while entries wait for a task, if it is.
pub open spec fn needs_task_failure(count: i64) -> Option<(int, Seq<char>)> {
    if count > 0 {
        Some(unprocessable_failure("Offene Einträge ohne Task zuerst zuordnen"@))
    } else {
        None
    }
}

/// No entry of the user waits for a task.
pub fn ensure_no_needs_task(count: i64) -> (r: AppResult<()>)
    ensures
        fails_as(r, needs_task_failure(count)),
{
    if count > 0 {
        return Err(unprocessable("Offene Einträge ohne Task zuerst zuordnen"));
    }
    Ok(())
}

/// Why the named task cannot be used, if it cannot: it does not exist, is
/// archived, or is the internal task and the entry did not have it already
/// (`kept` is the task the entry had).
pub open spec fn task_failure(task: Option<NamedRow>, kept: Option<i64>) -> Option<
    (int, Seq<char>),
> {
    match task {
        None => Some(not_found_failure()),
        Some(t) => if t.archived {
            Some(unprocessable_failure("Task ist archiviert"@))
        } else if t.is_system && kept != Some(t.id) {
            Some(unprocessable_failure("Der interne Task kann nicht zugeordnet werden"@))
        } else {
            None
        },
    }
}

/// Why the named project cannot be used, if it cannot.
pub open spec fn project_failure(project: Option<ProjectRow>) -> Option<(int, Seq<char>)> {
    match project {
        None => Some(not_found_failure()),
        Some(p) => if p.archived {
            Some(unprocessable_failure("Projekt ist archiviert"@))
        } else {
            None
        },
    }
}

/// Why the task or project an entry names cannot be used, the task checked first.
pub open spec fn refs_failure(
    input: NewEntry,
    task: Option<NamedRow>,
    project: Option<ProjectRow>,
    kept: Option<i64>,
) -> Option<(int, Seq<char>)> {
    first_failure(
        if input.task_id is Some {
            task_failure(task, kept)
        } else {
            None
        },
        if input.project_id is Some {
            project_failure(project)
        } else {
            None
        },
    )
}

/// The task and project an entry names exist and are not archived; the internal
/// task only stays on an entry that already had it. `task` and `project` are the
/// rows found for the ids the entry names.
pub fn validate_refs(
    input: &NewEntry,
    task: &Option<NamedRow>,
    project: &Option<ProjectRow>,
    kept: Option<i64>,
) -> (r: AppResult<()>)
    ensures
        fails_as(r, refs_failure(*input, *task, *project, kept)),
{
    if input.task_id.is_some() {
        match task {
            None => return Err(AppError::NotFound),
            Some(t) => {
                if t.archived {
                    return Err(unprocessable("Task ist archiviert"));
                }
                let keeps = match kept {
                    Some(k) => k == t.id,
                    None => false,
                };
                if t.is_system && !keeps {
                    return Err(unprocessable("Der interne Task kann nicht zugeordnet werden"));
                }
            },
        }
    }
    if input.project_id.is_some() {
        match project {
            None => return Err(AppError::NotFound),
            Some(p) => {
                if p.archived {
                    return Err(unprocessable("Projekt ist archiviert"));
                }
            },
        }
    }
    Ok(())
}

/// The interval a running entry covers at `now`: up to `now`, or empty when
/// `now` does not come after its start.
pub open spec fn running_interval(start: Timestamp, now: Timestamp) -> Interval {
    Interval { start, end: if start.precedes(now) { now } else { start } }
}

/// The interval a stored entry covers, or the message of why its stored times
/// cannot be used.
pub open spec fn stored_interval(row: EntryRow, now: Timestamp) -> Result<Interval, Seq<char>> {
    match row_start(row) {
        None => Err("Startzeit ungültig"@),
        Some(s) => match row.end_at {
            None => Ok(running_interval(s, now)),
            Some(e) => match rfc3339_instant(e@) {
                None => Err("Endzeit ungültig"@),
                Some(t) => if t.precedes(s) {
                    Err("Gespeicherter Zeitraum ungültig"@)
                } else {
                    Ok(Interval { start: s, end: t })
                },
            },
        },
    }
}

/// The intervals of the stored entries, in order, leaving out the entry
/// `except`; or the message of the first entry whose times cannot be used.
pub open spec fn stored_intervals(rows: Seq<EntryRow>, except: Option<i64>, now: Timestamp) -> Result<
    Seq<Interval>,
    Seq<char>,
>
    decreases rows.len(),
{
    if rows.len() == 0 {
        Ok(Seq::empty())
    } else {
        match stored_intervals(rows.drop_last(), except, now) {
            Err(m) => Err(m),
            Ok(prefix) => if except == Some(rows.last().id) {
                Ok(prefix)
            } else {
                match stored_interval(rows.last(), now) {
                    Err(m) => Err(m),
                    Ok(iv) => Ok(prefix.push(iv)),
                }
            },
        }
    }
}

/// The candidate shares time with a stored interval, or, for a running entry,
/// its start lies inside one.
pub open spec fn clashes(
    candidate: Interval,
    start: Timestamp,
    running: bool,
    existing: Seq<Interval>,
) -> bool {
    (exists|i: int| 0 <= i < existing.len() && overlaps(candidate, #[trigger] existing[i])) || (
    running && exists|i: int| 0 <= i < existing.len() && holds_instant(#[trigger] existing[i], start))
}

/// Why an entry from `start` to `end` (running when `end` is none) is refused
/// for its time, if it is: its own span is inverted, a stored entry's times
/// cannot be used, or it clashes with another entry.
pub open spec fn overlap_failure(
    start: Timestamp,
    end: Option<Timestamp>,
    rows: Seq<EntryRow>,
    except: Option<i64>,
    now: Timestamp,
) -> Option<(int, Seq<char>)> {
    let candidate = match end {
        Some(e) => if e.precedes(start) {
            None
        } else {
            Some(Interval { start, end: e })
        },
        None => Some(running_interval(start, now)),
    };
    match candidate {
        None => Some(unprocessable_failure("Zeitraum ungültig"@)),
        Some(c) => match stored_intervals(rows, except, now) {
            Err(m) => Some(internal_failure(m)),
            Ok(existing) => if clashes(c, start, end is None, existing) {
                Some(conflict_failure("Eintrag überschneidet sich mit einem bestehenden Zeitraum"@))
            } else {
                None
            },
        },
    }
}

/// The interval of one stored entry.
fn stored_interval_of(row: &EntryRow, now: Timestamp) -> (r: AppResult<Interval>)
    ensures
        match stored_interval(*row, now) {
            Ok(iv) => r == Ok::<Interval, AppError>(iv),
            Err(m) => r matches Err(e) && failure_of(e) == internal_failure(m),
        },
{
    let start = match parse_rfc3339(row.start_at.as_str()) {
        Ok(t) => t,
        Err(_) => return Err(internal("Startzeit ungültig")),
    };
    match &row.end_at {
        None => Ok(Interval::running(start, now)),
        Some(text) => {
            let end = match parse_rfc3339(text.as_str()) {
                Ok(t) => t,
                Err(_) => return Err(internal("Endzeit ungültig")),
            };
            match Interval::new(start, end) {
                Some(iv) => Ok(iv),
                None => Err(internal("Gespeicherter Zeitraum ungültig")),
            }
        },
    }
}

proof fn lemma_stored_failure_extends(rows: Seq<EntryRow>, except: Option<i64>, now: Timestamp, n: int)
    requires
        0 <= n <= rows.len(),
        stored_intervals(rows.take(n), except, now) is Err,
    ensures
        stored_intervals(rows, except, now) == stored_intervals(rows.take(n), except, now),
    decreases rows.len() - n,
{
    if n < rows.len() {
        assert(rows.take(n + 1).drop_last() == rows.take(n));
        lemma_stored_failure_extends(rows, except, now, n + 1);
    } else {
        assert(rows.take(n) == rows);
    }
}

/// The intervals of the stored entries but `except`.
pub fn stored_intervals_of(rows: &[EntryRow], except: Option<i64>, now: Timestamp) -> (r: AppResult<
    Vec<Interval>,
>)
    ensures
        match stored_intervals(rows@, except, now) {
            Ok(s) => r matches Ok(v) && v@ == s,
            Err(m) => r matches Err(e) && failure_of(e) == internal_failure(m),
        },
{
    let mut out: Vec<Interval> = Vec::new();
    let mut i: usize = 0;
    while i < rows.len()
        invariant
            i <= rows@.len(),
            stored_intervals(rows@.take(i as int), except, now) == Ok::<Seq<Interval>, Seq<char>>(
                out@,
            ),
        decreases rows@.len() - i,
    {
        proof {
            assert(rows@.take(i + 1).drop_last() == rows@.take(i as int));
            assert(rows@.take(i + 1).last() == rows@[i as int]);
        }
        let row = &rows[i];
        let skip = match except {
            Some(x) => x == row.id,
            None => false,
        };
        if !skip {
            match stored_interval_of(row, now) {
                Ok(iv) => out.push(iv),
                Err(e) => {
                    proof {
                        lemma_stored_failure_extends(rows@, except, now, i + 1);
                    }
                    return Err(e);
                },
            }
        }
        i += 1;
    }
    proof {
        assert(rows@.take(rows@.len() as int) == rows@);
    }
    Ok(out)
}

/// An entry from `start` to `end` (running when `end` is none) shares no time
/// with the stored entries but `except`, and a running one does not start inside
/// one.
pub fn ensure_no_overlap(
    rows: &[EntryRow],
    except: Option<i64>,
    start: Timestamp,
    end: Option<Timestamp>,
    now: Timestamp,
) -> (r: AppResult<()>)
    ensures
        fails_as(r, overlap_failure(start, end, rows@, except, now)),
{
    let candidate = match end {
        Some(e) => match Interval::new(start, e) {
            Some(iv) => iv,
            None => return Err(unprocessable("Zeitraum ungültig")),
        },
        None => Interval::running(start, now),
    };
    let existing = stored_intervals_of(rows, except, now)?;
    if any_overlap(candidate, existing.as_slice()) || (end.is_none() && any_contains_instant(
        start,
        existing.as_slice(),
    )) {
        return Err(conflict("Eintrag überschneidet sich mit einem bestehenden Zeitraum"));
    }
    Ok(())
}


/// What the store holds that a new or changed entry is checked against.
pub struct EntryLookups {
    /// The id of the user's running entry, if one runs.
    pub running_id: Option<i64>,
    /// How many of the user's entries wait for a task.
    pub needs_task_count: i64,
    /// The user's task of the id the entry names, when there is one.
    pub task: Option<NamedRow>,
    /// The project of the id the entry names, when there is one.
    pub project: Option<ProjectRow>,
    /// All entries of the user.
    pub entries: Vec<EntryRow>,
}

/// The state of a new entry: running without an end, completed with one.
pub open spec fn create_status(input: NewEntry) -> EntryStatus {
    if input.end_at is None {
        EntryStatus::Running
    } else {
        EntryStatus::Complete
    }
}

/// Why a new entry is refused, if it is; the checks in their order: a completed
/// entry's task and length, a running entry's rivals (another running entry,
/// entries waiting for a task), task and project, one local day, and no shared
/// time with other entries.
pub open spec fn create_failure(input: NewEntry, look: EntryLookups, now: Timestamp) -> Option<
    (int, Seq<char>),
> {
    first_failure(
        match input.end_at {
            Some(e) => completion_failure(input, e),
            None => first_failure(
                open_timer_failure(look.running_id, None),
                needs_task_failure(look.needs_task_count),
            ),
        },
        first_failure(
            refs_failure(input, look.task, look.project, None),
            first_failure(
                day_failure(input.start_at, input.last_instant()),
                overlap_failure(input.start_at, input.end_at, look.entries@, None, now),
            ),
        ),
    )
}

/// Checks a new entry; gives the state it is stored with.
pub fn plan_create(input: &NewEntry, look: &EntryLookups, now: Timestamp) -> (r: AppResult<
    EntryStatus,
>)
    requires
        input.wf(),
    ensures
        fails_as(r, create_failure(*input, *look, now)),
        r matches Ok(s) ==> s == create_status(*input),
{
    let status = match input.end_at {
        Some(end) => {
            validate_complete(input, end)?;
            EntryStatus::Complete
        },
        None => {
            ensure_no_open_timer(look.running_id)?;
            ensure_no_needs_task(look.needs_task_count)?;
            EntryStatus::Running
        },
    };
    validate_refs(input, &look.task, &look.project, None)?;
    let last = match input.end_at {
        Some(e) => e,
        None => input.start_at,
    };
    ensure_same_day(input.start_at, last)?;
    ensure_no_overlap(look.entries.as_slice(), None, input.start_at, input.end_at, now)?;
    Ok(status)
}

/// The state of a changed entry: running without an end, waiting for a task
/// without a task, completed otherwise.
pub open spec fn update_status(input: NewEntry) -> EntryStatus {
    if input.end_at is None {
        EntryStatus::Running
    } else if input.task_id is None {
        EntryStatus::NeedsTask
    } else {
        EntryStatus::Complete
    }
}

/// Why a change of entry `id` is refused, if it is: the entry is not the user's,
/// a completed entry lacks length, a running entry has a rival (another running
/// entry; entries waiting for a task, unless it already ran), task or project
/// cannot be used, the days differ, or the time is shared with another entry.
pub open spec fn update_failure(
    existing: Option<EntryRow>,
    id: i64,
    input: NewEntry,
    look: EntryLookups,
    now: Timestamp,
) -> Option<(int, Seq<char>)> {
    match existing {
        None => Some(not_found_failure()),
        Some(ex) => first_failure(
            match update_status(input) {
                EntryStatus::Complete => completion_failure(input, input.last_instant()),
                EntryStatus::Running => first_failure(
                    open_timer_failure(look.running_id, Some(id)),
                    if ex.status@ != "running"@ {
                        needs_task_failure(look.needs_task_count)
                    } else {
                        None
                    },
                ),
                EntryStatus::NeedsTask => None,
            },
            first_failure(
                refs_failure(input, look.task, look.project, ex.task_id),
                first_failure(
                    day_failure(input.start_at, input.last_instant()),
                    overlap_failure(input.start_at, input.end_at, look.entries@, Some(id), now),
                ),
            ),
        ),
    }
}

/// Checks a change of the entry `id` (`existing` is the user's entry of that
/// id, if any); gives the state it is stored with.
pub fn plan_update(
    existing: &Option<EntryRow>,
    id: i64,
    input: &NewEntry,
    look: &EntryLookups,
    now: Timestamp,
) -> (r: AppResult<EntryStatus>)
    requires
        input.wf(),
    ensures
        fails_as(r, update_failure(*existing, id, *input, *look, now)),
        r matches Ok(s) ==> s == update_status(*input),
{
    let ex = match existing {
        None => return Err(AppError::NotFound),
        Some(row) => row,
    };
    let status = match input.end_at {
        None => EntryStatus::Running,
        Some(_) => if input.task_id.is_none() {
            EntryStatus::NeedsTask
        } else {
            EntryStatus::Complete
        },
    };
    match status {
        EntryStatus::Complete => {
            if let Some(end) = input.end_at {
                validate_complete(input, end)?;
            }
        },
        EntryStatus::Running => {
            ensure_no_open_timer_except(look.running_id, id)?;
            if !str_equals(ex.status.as_str(), "running") {
                ensure_no_needs_task(look.needs_task_count)?;
            }
        },
        EntryStatus::NeedsTask => {},
    }
    validate_refs(input, &look.task, &look.project, ex.task_id)?;
    let last = match input.end_at {
        Some(e) => e,
        None => input.start_at,
    };
    ensure_same_day(input.start_at, last)?;
    ensure_no_overlap(look.entries.as_slice(), Some(id), input.start_at, input.end_at, now)?;
    Ok(status)
}

/// The entry a started timer creates: no task or project, running from `now`.
pub fn timer_entry(now: Timestamp) -> (r: NewEntry)
    ensures
        r == (NewEntry { task_id: None, project_id: None, start_at: now, end_at: None }),
{
    NewEntry { task_id: None, project_id: None, start_at: now, end_at: None }
}

/// The start of the minute after the one `at` lies in.
pub open spec fn next_minute(at: Timestamp) -> Timestamp {
    Timestamp { secs: (minute_floor(at).secs + 60) as i64, nanos: 0 }
}

/// The end a stopped timer gets: `now` cut to its minute, or the next minute
/// when that would not come after the start.
pub open spec fn stop_end(start: Timestamp, now: Timestamp) -> Timestamp {
    if start.precedes(minute_floor(now)) {
        minute_floor(now)
    } else {
        next_minute(now)
    }
}

/// Why a timer cannot be stopped, if it cannot: nothing runs, or the running
/// entry's start cannot be read.
pub open spec fn stop_failure(running: Option<EntryRow>) -> Option<(int, Seq<char>)> {
    match running {
        None => Some(unprocessable_failure("Kein laufender Eintrag"@)),
        Some(row) => if row_start(row) is None {
            Some(internal_failure("Startzeit ungültig"@))
        } else {
            None
        },
    }
}

/// The entry id and change that stop a running entry whose start can be read.
pub open spec fn stop_change(
    running: Option<EntryRow>,
    task_id: i64,
    project_id: Option<i64>,
    now: Timestamp,
) -> (i64, NewEntry) {
    let row = running.unwrap();
    let s = row_start(row).unwrap();
    (
        row.id,
        NewEntry { task_id: Some(task_id), project_id, start_at: s, end_at: Some(stop_end(s, now)) },
    )
}

/// The change that stops the running entry: its id, and the entry with the
/// task, project, its start and the end cut to the minute.
pub fn stop_input(running: &Option<EntryRow>, task_id: i64, project_id: Option<i64>, now: Timestamp) -> (r:
    AppResult<(i64, NewEntry)>)
    requires
        now.has_local_day(),
        now.secs < MAX_TIMESTAMP - SECONDS_PER_DAY - 60,
    ensures
        fails_as(r, stop_failure(*running)),
        r matches Ok(x) ==> x == stop_change(*running, task_id, project_id, now),
        r matches Ok((id, e)) ==> e.wf(),
{
    let row = match running {
        None => return Err(unprocessable("Kein laufender Eintrag")),
        Some(row) => row,
    };
    let start = match parse_rfc3339(row.start_at.as_str()) {
        Ok(t) => t,
        Err(_) => return Err(internal("Startzeit ungültig")),
    };
    let cut = truncate_to_minute(now);
    let end = if start.is_before(&cut) {
        cut
    } else {
        Timestamp { secs: cut.secs + 60, nanos: 0 }
    };
    Ok((row.id, NewEntry { task_id: Some(task_id), project_id, start_at: start, end_at: Some(end) }))
}

/// Why a task cannot be given afterwards to an entry, if it cannot: the entry is
/// not the user's, does not wait for a task, or its times cannot be read.
pub open spec fn assign_failure(existing: Option<EntryRow>) -> Option<(int, Seq<char>)> {
    match existing {
        None => Some(not_found_failure()),
        Some(row) => if row.status@ != "needs_task"@ {
            Some(unprocessable_failure("Eintrag erwartet keinen nachträglichen Task"@))
        } else if row_start(row) is None {
            Some(internal_failure("Startzeit ungültig"@))
        } else {
            match row.end_at {
                None => Some(internal_failure("needs_task ohne Ende"@)),
                Some(e) => if rfc3339_instant(e@) is None {
                    Some(internal_failure("Endzeit ungültig"@))
                } else {
                    None
                },
            }
        },
    }
}

/// The change that gives an entry waiting for a task, whose times can be read,
/// its task and project.
pub open spec fn assign_change(existing: Option<EntryRow>, task_id: i64, project_id: Option<i64>) -> NewEntry {
    let row = existing.unwrap();
    NewEntry {
        task_id: Some(task_id),
        project_id,
        start_at: row_start(row).unwrap(),
        end_at: rfc3339_instant(row.end_at.unwrap()@),
    }
}

/// The change that gives an entry waiting for a task its task and project,
/// keeping its times.
pub fn assign_input(existing: &Option<EntryRow>, task_id: i64, project_id: Option<i64>) -> (r:
    AppResult<NewEntry>)
    ensures
        fails_as(r, assign_failure(*existing)),
        r matches Ok(e) ==> e == assign_change(*existing, task_id, project_id),
        r matches Ok(e) ==> e.wf(),
{
    let row = match existing {
        None => return Err(AppError::NotFound),
        Some(row) => row,
    };
    if !str_equals(row.status.as_str(), "needs_task") {
        return Err(unprocessable("Eintrag erwartet keinen nachträglichen Task"));
    }
    let start = match parse_rfc3339(row.start_at.as_str()) {
        Ok(t) => t,
        Err(_) => return Err(internal("Startzeit ungültig")),
    };
    let end_text = match &row.end_at {
        None => return Err(internal("needs_task ohne Ende")),
        Some(t) => t,
    };
    let end = match parse_rfc3339(end_text.as_str()) {
        Ok(t) => t,
        Err(_) => return Err(internal("Endzeit ungültig")),
    };
    Ok(NewEntry { task_id: Some(task_id), project_id, start_at: start, end_at: Some(end) })
}

/// A deletion that touched no row found nothing to delete.
pub fn deletion_result(rows_affected: u64) -> (r: AppResult<()>)
    ensures
        fails_as(
            r,
            if rows_affected == 0 {
                Some(not_found_failure())
            } else {
                None
            },
        ),
{
    if rows_affected == 0 {
        return Err(AppError::NotFound);
    }
    Ok(())
}

/// What happens at `now` to a running entry: `None` while its day lasts;
/// otherwise the end of its start day (when that instant exists) and the state
/// it is closed with, completed with a task and waiting for one without.
pub open spec fn entry_midnight_close(row: EntryRow, now: Timestamp) -> Result<
    Option<(Timestamp, EntryStatus)>,
    Seq<char>,
> {
    match row_start(row) {
        None => Err("Startzeit ungültig"@),
        Some(s) => {
            let day = zone_civil_date(app_zone_name(), s);
            if !past_start_day(app_zone_name(), day, now) {
                Ok(None)
            } else {
                match zone_local_instant(app_zone_name(), day, 23, 59, 59) {
                    None => Err("Mitternachtszeit ungültig"@),
                    Some(end) => Ok(
                        Some(
                            (
                                end,
                                if row.task_id is Some {
                                    EntryStatus::Complete
                                } else {
                                    EntryStatus::NeedsTask
                                },
                            ),
                        ),
                    ),
                }
            }
        },
    }
}

/// Decides whether a running entry is closed at `now` because its day is over.
pub fn close_running_entry(row: &EntryRow, now: Timestamp) -> (r: AppResult<
    Option<(Timestamp, EntryStatus)>,
>)
    requires
        now.has_local_day(),
    ensures
        match entry_midnight_close(*row, now) {
            Ok(x) => r == Ok::<Option<(Timestamp, EntryStatus)>, AppError>(x),
            Err(m) => r matches Err(e) && failure_of(e) == internal_failure(m),
        },
{
    let start = match parse_rfc3339(row.start_at.as_str()) {
        Ok(t) => t,
        Err(_) => return Err(internal("Startzeit ungültig")),
    };
    let zone = app_tz();
    let day = civil_date(start, &zone);
    if !needs_midnight_close(day, now, &zone) {
        return Ok(None);
    }
    let end = match close_timestamp(day, &zone) {
        Some(t) => t,
        None => return Err(internal("Mitternachtszeit ungültig")),
    };
    let status = if row.task_id.is_some() {
        EntryStatus::Complete
    } else {
        EntryStatus::NeedsTask
    };
    Ok(Some((end, status)))
}


/// Stopping a timer that started no later than `now` gives it an end after its
/// start, on a whole minute.
pub proof fn law_stop_end_after_start(start: Timestamp, now: Timestamp)
    requires
        start.not_after(now),
        now.wf(),
    ensures
        start.precedes(stop_end(start, now)),
        stop_end(start, now).nanos == 0,
        stop_end(start, now).secs % 60 == 0,
        stop_end(start, now).secs <= now.secs + 60,
{
    let f = minute_floor(now);
    assert(f.secs <= now.secs) by {
        assert((now.secs as int / 60) * 60 <= now.secs as int);
    }
    assert(f.secs > now.secs - 60) by {
        assert((now.secs as int / 60) * 60 > now.secs as int - 60);
    }
    assert(f.secs % 60 == 0) by {
        assert(((now.secs as int / 60) * 60) % 60 == 0) by (nonlinear_arith);
    }
    assert((f.secs + 60) % 60 == 0) by {
        assert(((now.secs as int / 60) * 60 + 60) % 60 == 0) by (nonlinear_arith);
    }
}

/// An accepted new entry shares no time with the stored entries, and a running
/// one does not start inside one of them.
pub proof fn law_accepted_entry_is_clear(input: NewEntry, look: EntryLookups, now: Timestamp)
    requires
        create_failure(input, look, now) is None,
    ensures
        stored_intervals(look.entries@, None, now) matches Ok(existing) && !clashes(
            match input.end_at {
                Some(e) => Interval { start: input.start_at, end: e },
                None => running_interval(input.start_at, now),
            },
            input.start_at,
            input.end_at is None,
            existing,
        ),
        on_same_day(app_zone_name(), input.start_at, input.last_instant()),
{
}

/// An accepted change of entry `id` shares no time with the other stored
/// entries and stays on one local day.
pub proof fn law_accepted_change_is_clear(
    existing: Option<EntryRow>,
    id: i64,
    input: NewEntry,
    look: EntryLookups,
    now: Timestamp,
)
    requires
        update_failure(existing, id, input, look, now) is None,
    ensures
        stored_intervals(look.entries@, Some(id), now) matches Ok(others) && !clashes(
            match input.end_at {
                Some(e) => Interval { start: input.start_at, end: e },
                None => running_interval(input.start_at, now),
            },
            input.start_at,
            input.end_at is None,
            others,
        ),
        on_same_day(app_zone_name(), input.start_at, input.last_instant()),
{
}

/// An entry that touches another only at its end (half-open spans) does not
/// clash with it.
pub proof fn law_adjacent_entries_do_not_clash(first: Interval, next_start: Timestamp, next_end: Timestamp)
    requires
        first.end == next_start,
        !next_end.precedes(next_start),
    ensures
        !overlaps(Interval { start: next_start, end: next_end }, first),
{
}

/// A new running entry is accepted only while no other entry runs and no entry
/// waits for a task: a user never has two running entries.
pub proof fn law_one_running_entry(input: NewEntry, look: EntryLookups, now: Timestamp)
    requires
        create_failure(input, look, now) is None,
        input.end_at is None,
    ensures
        look.running_id is None,
        look.needs_task_count <= 0,
{
}

/// A change that leaves entry `id` running is accepted only when no other entry
/// runs.
pub proof fn law_change_keeps_one_running_entry(
    existing: Option<EntryRow>,
    id: i64,
    input: NewEntry,
    look: EntryLookups,
    now: Timestamp,
)
    requires
        update_failure(existing, id, input, look, now) is None,
        input.end_at is None,
    ensures
        look.running_id matches Some(r) ==> r == id,
{
}

/// The stored start and end of an entry can be read, and an end does not come
/// before the start.
pub open spec fn times_readable(row: EntryRow) -> bool {
    &&& row_start(row) is Some
    &&& row.end_at matches Some(e) ==> (rfc3339_instant(e@) matches Some(t) && !t.precedes(
        row_start(row)->0,
    ))
}

proof fn lemma_stored_intervals_ok(rows: Seq<EntryRow>, except: Option<i64>, now: Timestamp)
    requires
        forall|i: int| 0 <= i < rows.len() ==> times_readable(#[trigger] rows[i]),
    ensures
        stored_intervals(rows, except, now) is Ok,
    decreases rows.len(),
{
    if rows.len() > 0 {
        let prefix = rows.drop_last();
        assert forall|i: int| 0 <= i < prefix.len() implies times_readable(#[trigger] prefix[i]) by {
            assert(prefix[i] == rows[i]);
        }
        lemma_stored_intervals_ok(prefix, except, now);
        assert(times_readable(rows[rows.len() - 1]));
    }
}

proof fn lemma_stored_intervals_hold(rows: Seq<EntryRow>, except: Option<i64>, now: Timestamp, k: int)
    requires
        0 <= k < rows.len(),
        except != Some(rows[k].id),
        forall|i: int| 0 <= i < rows.len() ==> times_readable(#[trigger] rows[i]),
    ensures
        stored_intervals(rows, except, now) matches Ok(seq) && exists|j: int|
            0 <= j < seq.len() && stored_interval(rows[k], now) == Ok::<Interval, Seq<char>>(
                #[trigger] seq[j],
            ),
    decreases rows.len(),
{
    let prefix = rows.drop_last();
    assert forall|i: int| 0 <= i < prefix.len() implies times_readable(#[trigger] prefix[i]) by {
        assert(prefix[i] == rows[i]);
    }
    lemma_stored_intervals_ok(prefix, except, now);
    assert(times_readable(rows[rows.len() - 1]));
    let pre = stored_intervals(prefix, except, now)->Ok_0;
    if k == rows.len() - 1 {
        let seq = stored_intervals(rows, except, now)->Ok_0;
        assert(seq == pre.push(stored_interval(rows.last(), now)->Ok_0));
        assert(seq[pre.len() as int] == stored_interval(rows[k], now)->Ok_0);
    } else {
        assert(prefix[k] == rows[k]);
        lemma_stored_intervals_hold(prefix, except, now, k);
        let j = choose|j: int|
            0 <= j < pre.len() && stored_interval(prefix[k], now) == Ok::<Interval, Seq<char>>(
                #[trigger] pre[j],
            );
        let seq = stored_intervals(rows, except, now)->Ok_0;
        assert(seq[j] == pre[j]);
    }
}

/// A stored entry without an end occupies the time from its start up to `now`:
/// when the stored times can be read, an entry that shares time with that span
/// (or, running, starts inside it) is refused as overlapping.
pub proof fn law_running_entry_occupies_until_now(
    rows: Seq<EntryRow>,
    except: Option<i64>,
    start: Timestamp,
    end: Option<Timestamp>,
    now: Timestamp,
    k: int,
)
    requires
        0 <= k < rows.len(),
        forall|i: int| 0 <= i < rows.len() ==> times_readable(#[trigger] rows[i]),
        rows[k].end_at is None,
        except != Some(rows[k].id),
        row_start(rows[k]) matches Some(s) && s.precedes(now) && match end {
            Some(e) => !e.precedes(start) && overlaps(
                Interval { start, end: e },
                Interval { start: s, end: now },
            ),
            None => s.not_after(start) && start.precedes(now),
        },
    ensures
        overlap_failure(start, end, rows, except, now) == Some(
            conflict_failure("Eintrag überschneidet sich mit einem bestehenden Zeitraum"@),
        ),
{
    lemma_stored_intervals_hold(rows, except, now, k);
    let s = row_start(rows[k])->0;
    let seq = stored_intervals(rows, except, now)->Ok_0;
    let j = choose|j: int|
        0 <= j < seq.len() && stored_interval(rows[k], now) == Ok::<Interval, Seq<char>>(
            #[trigger] seq[j],
        );
    assert(seq[j] == Interval { start: s, end: now });
    match end {
        Some(e) => {
            assert(overlaps(Interval { start, end: e }, seq[j]));
        },
        None => {
            assert(holds_instant(seq[j], start));
        },
    }
}

} // verus!
