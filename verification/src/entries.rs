//! Time entries: their rules, filters, and the CSV export.
use vstd::prelude::*;

use crate::calendar::{
    app_tz, app_zone_name, following_day, local_minute_text, next_day, parse_rfc3339,
    rfc3339_instant, zone_civil_date, zone_local_instant, zone_minute_text, CivilDate, Zone,
};
use crate::text::{chars_of, decimal, push_decimal, push_two_digit, string_from_chars, two_digit};
use crate::error::{
    failure_of, internal, internal_failure, is_internal, unprocessable, unprocessable_failure,
    AppError, AppResult,
};
use crate::same_day::start_of_day;
use crate::models::EntryRow;
use crate::time::{leap_adjustment, seconds_between, span_nanos, whole_seconds_between, Timestamp};

verus! {

/// Whole hours and remaining minutes of a number of seconds (negative counts as
/// zero), written `H:MM`.
pub open spec fn hm_text(total_seconds: int) -> Seq<char> {
    let seconds = if total_seconds < 0 {
        0
    } else {
        total_seconds
    };
    decimal((seconds / 3600) as nat) + seq![':'] + two_digit((seconds % 3600) / 60)
}

/// Writes a number of seconds as hours and minutes, `H:MM`.
pub fn format_hm(total_seconds: i64) -> (r: String)
    ensures
        r@ == hm_text(total_seconds as int),
{
    let seconds: i64 = if total_seconds < 0 {
        0
    } else {
        total_seconds
    };
    let hours = seconds / 3600;
    let minutes = (seconds % 3600) / 60;
    let mut r = String::new();
    push_decimal(&mut r, hours as u64);
    r.push(':');
    push_two_digit(&mut r, minutes);
    r
}

/// The length of the span from `start` to `end`, written `H:MM`.
pub fn format_duration_label(start: Timestamp, end: Timestamp) -> (r: String)
    requires
        start.wf(),
        end.wf(),
    ensures
        r@ == hm_text(seconds_between(start, end)),
{
    format_hm(whole_seconds_between(start, end))
}

/// Characters that force a CSV field into quotes.
pub open spec fn is_csv_special(c: char) -> bool {
    c == '"' || c == ',' || c == '\n' || c == '\r' || c == ';'
}

/// Every quote doubled.
pub open spec fn doubled_quotes(s: Seq<char>) -> Seq<char>
    decreases s.len(),
{
    if s.len() == 0 {
        Seq::empty()
    } else {
        doubled_quotes(s.drop_last()) + if s.last() == '"' {
            seq!['"', '"']
        } else {
            seq![s.last()]
        }
    }
}

/// A CSV field: quoted, with quotes doubled, when it holds a quote, comma,
/// line break or semicolon; unchanged otherwise.
pub open spec fn csv_field(s: Seq<char>) -> Seq<char> {
    if exists|i: int| 0 <= i < s.len() && is_csv_special(#[trigger] s[i]) {
        seq!['"'] + doubled_quotes(s) + seq!['"']
    } else {
        s
    }
}

/// Writes a text as a CSV field.
pub fn csv_escape(field: &str) -> (r: String)
    ensures
        r@ == csv_field(field@),
{
    let chars = chars_of(field);
    let mut special = false;
    let mut i: usize = 0;
    while i < chars.len()
        invariant
            chars@ == field@,
            i <= chars@.len(),
            special == (exists|j: int| 0 <= j < i && is_csv_special(#[trigger] chars@[j])),
        decreases chars@.len() - i,
    {
        let c = chars[i];
        if c == '"' || c == ',' || c == '\n' || c == '\r' || c == ';' {
            special = true;
        }
        i += 1;
    }
    if !special {
        return string_from_chars(&chars);
    }
    let mut out = String::new();
    out.push('"');
    let mut k: usize = 0;
    while k < chars.len()
        invariant
            chars@ == field@,
            k <= chars@.len(),
            out@ == seq!['"'] + doubled_quotes(chars@.take(k as int)),
        decreases chars@.len() - k,
    {
        assert(chars@.take(k + 1).drop_last() == chars@.take(k as int));
        if chars[k] == '"' {
            out.push('"');
            out.push('"');
        } else {
            out.push(chars[k]);
        }
        k += 1;
    }
    assert(chars@.take(chars@.len() as int) == chars@);
    out.push('"');
    out
}

/// The local day of `now` in the working zone.
pub fn today(now: Timestamp) -> (r: CivilDate)
    requires
        now.has_local_day(),
    ensures
        r == zone_civil_date(app_zone_name(), now),
{
    crate::same_day::civil_date(now, &app_tz())
}

/// The start of an entry, as stored.
pub open spec fn row_start(row: EntryRow) -> Option<Timestamp> {
    rfc3339_instant(row.start_at@)
}

/// The end of an entry, as stored: `Some(None)` for a running entry, `None` when
/// the stored end is not a valid time.
pub open spec fn row_end(row: EntryRow) -> Option<Option<Timestamp>> {
    match row.end_at {
        None => Some(None),
        Some(e) => match rfc3339_instant(e@) {
            Some(t) => Some(Some(t)),
            None => None,
        },
    }
}

/// The message of the first entry whose times cannot be read, if any: the
/// start of an entry is read before its end.
pub open spec fn csv_failure(rows: Seq<EntryRow>) -> Option<Seq<char>>
    decreases rows.len(),
{
    if rows.len() == 0 {
        None
    } else {
        match csv_failure(rows.drop_last()) {
            Some(m) => Some(m),
            None => if row_start(rows.last()) is None {
                Some("Startzeit ungültig"@)
            } else if row_end(rows.last()) is None {
                Some("Endzeit ungültig"@)
            } else {
                None
            },
        }
    }
}

/// Seconds an entry adds to the sum: its length, never below zero; nothing for
/// a running entry.
pub open spec fn row_seconds(row: EntryRow) -> int {
    match (row_start(row), row_end(row)) {
        (Some(s), Some(Some(e))) => if seconds_between(s, e) < 0 {
            0
        } else {
            seconds_between(s, e)
        },
        _ => 0,
    }
}

/// Sum of the seconds of the entries.
pub open spec fn csv_total(rows: Seq<EntryRow>) -> int
    decreases rows.len(),
{
    if rows.len() == 0 {
        0
    } else {
        csv_total(rows.drop_last()) + row_seconds(rows.last())
    }
}

/// A name shown in the export, empty when there is none.
pub open spec fn name_text(name: Option<String>) -> Seq<char> {
    match name {
        Some(n) => n@,
        None => Seq::empty(),
    }
}

/// The CSV line of an entry whose times can be read: local start and end,
/// duration, task and project.
pub open spec fn csv_line(row: EntryRow) -> Seq<char> {
    let start = row_start(row)->0;
    let end = row_end(row)->0;
    let end_text = match end {
        Some(e) => zone_minute_text(app_zone_name(), e),
        None => Seq::empty(),
    };
    let duration = match end {
        Some(e) => hm_text(seconds_between(start, e)),
        None => Seq::empty(),
    };
    csv_field(zone_minute_text(app_zone_name(), start)) + seq![','] + csv_field(end_text) + seq![
        ',',
    ] + csv_field(duration) + seq![','] + csv_field(name_text(row.task_name)) + seq![',']
        + csv_field(name_text(row.project_name)) + seq!['\n']
}

/// The lines of the entries, in order.
pub open spec fn csv_lines(rows: Seq<EntryRow>) -> Seq<char>
    decreases rows.len(),
{
    if rows.len() == 0 {
        Seq::empty()
    } else {
        csv_lines(rows.drop_last()) + csv_line(rows.last())
    }
}

/// The first line of the export: a byte-order mark and the column names.
pub open spec fn csv_header() -> Seq<char> {
    seq!['\u{feff}'] + "Start,Ende,Dauer,Task,Projekt\n"@
}

/// The export: header, one line per entry, and a closing line with the sum.
pub open spec fn csv_document(rows: Seq<EntryRow>) -> Seq<char> {
    csv_header() + csv_lines(rows) + csv_field("Summe"@) + seq![',', ','] + csv_field(
        hm_text(csv_total(rows)),
    ) + seq![',', ',', '\n']
}

proof fn lemma_row_seconds_bounds(row: EntryRow)
    requires
        row_start(row) matches Some(s) ==> s.wf(),
        row_end(row) matches Some(Some(e)) ==> e.wf(),
    ensures
        0 <= row_seconds(row) <= crate::time::MAX_TIMESTAMP - crate::time::MIN_TIMESTAMP + 3,
{
    if let (Some(s), Some(Some(e))) = (row_start(row), row_end(row)) {
        let d = span_nanos(s, e);
        let k = e.secs - s.secs + leap_adjustment(s, e);
        assert(k <= crate::time::MAX_TIMESTAMP - crate::time::MIN_TIMESTAMP + 1);
        assert(d <= (crate::time::MAX_TIMESTAMP - crate::time::MIN_TIMESTAMP + 3) * 1_000_000_000)
            by (nonlinear_arith)
            requires
                d == k * 1_000_000_000 + e.nanos - s.nanos,
                k <= crate::time::MAX_TIMESTAMP - crate::time::MIN_TIMESTAMP + 1,
                e.nanos < 2_000_000_000,
                s.nanos >= 0,
        ;
        if d >= 0 {
            assert(d / 1_000_000_000 <= crate::time::MAX_TIMESTAMP - crate::time::MIN_TIMESTAMP + 3)
                by (nonlinear_arith)
                requires
                    0 <= d <= (crate::time::MAX_TIMESTAMP - crate::time::MIN_TIMESTAMP + 3)
                        * 1_000_000_000,
            ;
        }
    }
}

fn escaped(text: &str) -> (r: String)
    ensures
        r@ == csv_field(text@),
{
    csv_escape(text)
}

fn append(out: &mut String, piece: &str)
    ensures
        final(out)@ == old(out)@ + piece@,
{
    out.append(piece);
}

fn name_or_empty(name: &Option<String>) -> (r: &str)
    ensures
        r@ == name_text(*name),
{
    match name {
        Some(n) => n.as_str(),
        None => {
            proof {
                reveal_strlit("");
            }
            ""
        },
    }
}

/// The CSV line of an entry whose start and end were read.
fn entry_line(row: &EntryRow, start: Timestamp, end: Option<Timestamp>, zone: &Zone) -> (r: String)
    requires
        row_start(*row) == Some(start),
        row_end(*row) == Some(end),
        start.wf(),
        end matches Some(e) ==> e.wf(),
        zone@ == app_zone_name(),
    ensures
        r@ == csv_line(*row),
{
    let mut duration = String::new();
    let mut end_text = String::new();
    if let Some(e) = end {
        duration = format_duration_label(start, e);
        end_text = local_minute_text(e, zone);
    }
    let start_text = local_minute_text(start, zone);
    let mut out = String::new();
    append(&mut out, escaped(start_text.as_str()).as_str());
    out.push(',');
    append(&mut out, escaped(end_text.as_str()).as_str());
    out.push(',');
    append(&mut out, escaped(duration.as_str()).as_str());
    out.push(',');
    append(&mut out, escaped(name_or_empty(&row.task_name)).as_str());
    out.push(',');
    append(&mut out, escaped(name_or_empty(&row.project_name)).as_str());
    out.push('\n');
    proof {
        reveal_strlit("");
    }
    out
}

/// The export of the entries when their sum of seconds fits in an `i64`.
pub fn entries_to_csv(rows: &[EntryRow]) -> (r: AppResult<String>)
    requires
        csv_sum_fits(rows@),
    ensures
        match csv_failure(rows@) {
            Some(m) => r matches Err(e) && is_internal(e, m),
            None => r matches Ok(s) && s@ == csv_document(rows@),
        },
{
    let zone = app_tz();
    let mut out = String::new();
    out.push('\u{feff}');
    append(&mut out, "Start,Ende,Dauer,Task,Projekt\n");
    let mut total_seconds: i64 = 0;
    let mut i: usize = 0;
    while i < rows.len()
        invariant
            zone@ == app_zone_name(),
            i <= rows@.len(),
            csv_failure(rows@.take(i as int)) is None,
            csv_sum_fits(rows@),
            total_seconds == csv_total(rows@.take(i as int)),
            out@ == csv_header() + csv_lines(rows@.take(i as int)),
        decreases rows@.len() - i,
    {
        let row = &rows[i];
        proof {
            assert(rows@.take(i + 1).drop_last() == rows@.take(i as int));
            assert(rows@.take(i + 1).last() == rows@[i as int]);
        }
        let start = match parse_rfc3339(row.start_at.as_str()) {
            Ok(t) => t,
            Err(_) => {
                proof {
                    lemma_failure_extends(rows@, i as int + 1);
                }
                return Err(internal("Startzeit ungültig"));
            },
        };
        let end: Option<Timestamp> = match &row.end_at {
            None => None,
            Some(text) => match parse_rfc3339(text.as_str()) {
                Ok(t) => Some(t),
                Err(_) => {
                    proof {
                        lemma_failure_extends(rows@, i as int + 1);
                    }
                    return Err(internal("Endzeit ungültig"));
                },
            },
        };
        proof {
            lemma_row_seconds_bounds(*row);
            assert(csv_failure(rows@.take(i + 1)) is None);
            assert(csv_total(rows@.take(i + 1)) <= i64::MAX);
        }
        if let Some(e) = end {
            let secs = whole_seconds_between(start, e);
            total_seconds = total_seconds + if secs < 0 {
                0
            } else {
                secs
            };
        }
        let line = entry_line(row, start, end, &zone);
        append(&mut out, line.as_str());
        i += 1;
    }
    proof {
        assert(rows@.take(rows@.len() as int) == rows@);
    }
    append(&mut out, escaped("Summe").as_str());
    out.push(',');
    out.push(',');
    append(&mut out, escaped(format_hm(total_seconds).as_str()).as_str());
    out.push(',');
    out.push(',');
    out.push('\n');
    Ok(out)
}

proof fn lemma_failure_extends(rows: Seq<EntryRow>, n: int)
    requires
        0 <= n <= rows.len(),
        csv_failure(rows.take(n)) is Some,
    ensures
        csv_failure(rows) == csv_failure(rows.take(n)),
    decreases rows.len() - n,
{
    if n < rows.len() {
        assert(rows.take(n + 1).drop_last() == rows.take(n));
        lemma_failure_extends(rows, n + 1);
    } else {
        assert(rows.take(n) == rows);
    }
}

/// The export of the entries, or `None` when their running sum of seconds
/// would not fit in an `i64`.
pub fn csv_export(rows: &[EntryRow]) -> (r: Option<AppResult<String>>)
    ensures
        r is None <==> !csv_sum_fits(rows@),
        r matches Some(x) ==> match csv_failure(rows@) {
            Some(m) => x matches Err(e) && is_internal(e, m),
            None => x matches Ok(s) && s@ == csv_document(rows@),
        },
{
    let mut total: i128 = 0;
    let mut i: usize = 0;
    proof {
        reveal(prefix_sums_fit);
    }
    while i < rows.len()
        invariant
            i <= rows@.len(),
            csv_failure(rows@.take(i as int)) is None,
            total == csv_total(rows@.take(i as int)),
            total <= i64::MAX,
            prefix_sums_fit(rows@, i as int),
        decreases rows@.len() - i,
    {
        let row = &rows[i];
        proof {
            assert(rows@.take(i + 1).drop_last() == rows@.take(i as int));
            assert(rows@.take(i + 1).last() == rows@[i as int]);
        }
        let start = parse_rfc3339(row.start_at.as_str());
        let end: Result<Option<Timestamp>, ()> = match &row.end_at {
            None => Ok(None),
            Some(text) => match parse_rfc3339(text.as_str()) {
                Ok(t) => Ok(Some(t)),
                Err(_) => Err(()),
            },
        };
        match (start, end) {
            (Ok(s), Ok(e)) => {
                proof {
                    lemma_row_seconds_bounds(*row);
                }
                if let Some(e) = e {
                    let secs = whole_seconds_between(s, e);
                    if secs > 0 {
                        total = total + secs as i128;
                    }
                }
                if total > i64::MAX as i128 {
                    proof {
                        lemma_sum_too_large(rows@, i as int + 1);
                    }
                    return None;
                }
                proof {
                    lemma_fits_extend(rows@, i as int);
                }
            },
            _ => {
                proof {
                    lemma_fits_after_failure(rows@, i as int);
                }
                return Some(entries_to_csv(rows));
            },
        }
        i += 1;
    }
    proof {
        assert(rows@.take(rows@.len() as int) == rows@);
        reveal(prefix_sums_fit);
    }
    Some(entries_to_csv(rows))
}

/// No prefix of the first `upto` entries without unreadable times sums beyond `i64::MAX`.
#[verifier::opaque]
pub open spec fn prefix_sums_fit(rows: Seq<EntryRow>, upto: int) -> bool {
    forall|n: int|
        0 <= n <= upto && csv_failure(#[trigger] rows.take(n)) is None ==> csv_total(rows.take(n))
            <= i64::MAX
}

proof fn lemma_fits_extend(rows: Seq<EntryRow>, i: int)
    requires
        0 <= i < rows.len(),
        prefix_sums_fit(rows, i),
        csv_total(rows.take(i + 1)) <= i64::MAX,
    ensures
        prefix_sums_fit(rows, i + 1),
{
    reveal(prefix_sums_fit);
}

proof fn lemma_sum_too_large(rows: Seq<EntryRow>, n: int)
    requires
        0 <= n <= rows.len(),
        csv_failure(rows.take(n)) is None,
        csv_total(rows.take(n)) > i64::MAX,
    ensures
        !csv_sum_fits(rows),
{
}

proof fn lemma_fits_after_failure(rows: Seq<EntryRow>, i: int)
    requires
        0 <= i < rows.len(),
        prefix_sums_fit(rows, i),
        csv_failure(rows.take(i + 1)) is Some,
    ensures
        csv_sum_fits(rows),
{
    reveal(prefix_sums_fit);
    assert forall|n: int|
        0 <= n <= rows.len() && csv_failure(#[trigger] rows.take(n)) is None implies csv_total(
        rows.take(n),
    ) <= i64::MAX by {
        if n > i {
            assert(rows.take(n).take(i + 1) == rows.take(i + 1));
            lemma_failure_extends(rows.take(n), i + 1);
        }
    }
}

/// No prefix of the entries without unreadable times sums beyond `i64::MAX`.
pub open spec fn csv_sum_fits(rows: Seq<EntryRow>) -> bool {
    forall|n: int|
        0 <= n <= rows.len() && csv_failure(#[trigger] rows.take(n)) is None ==> csv_total(
            rows.take(n),
        ) <= i64::MAX
}

/// Filters of the entry list: with ids given, only entries of those tasks, and
/// of those projects.
#[derive(Debug, Clone)]
pub struct EntryFilters {
    pub task_ids: Vec<i64>,
    pub project_ids: Vec<i64>,
}

impl Default for EntryFilters {
    fn default() -> (r: Self)
        ensures
            r.task_ids@.len() == 0,
            r.project_ids@.len() == 0,
    {
        EntryFilters { task_ids: Vec::new(), project_ids: Vec::new() }
    }
}

/// An id passes a filter list that is empty or names it.
pub open spec fn id_passes(ids: Seq<i64>, id: Option<i64>) -> bool {
    ids.len() == 0 || (id matches Some(i) && ids.contains(i))
}

/// An entry passes the filters of both its task and its project.
pub open spec fn entry_passes(row: EntryRow, task_ids: Seq<i64>, project_ids: Seq<i64>) -> bool {
    id_passes(task_ids, row.task_id) && id_passes(project_ids, row.project_id)
}

fn contains_id(ids: &Vec<i64>, id: i64) -> (r: bool)
    ensures
        r == ids@.contains(id),
{
    let mut i: usize = 0;
    while i < ids.len()
        invariant
            i <= ids@.len(),
            forall|j: int| 0 <= j < i ==> ids@[j] != id,
        decreases ids@.len() - i,
    {
        if ids[i] == id {
            assert(ids@[i as int] == id);
            return true;
        }
        i += 1;
    }
    false
}

fn id_filter_passes(ids: &Vec<i64>, id: Option<i64>) -> (r: bool)
    ensures
        r == id_passes(ids@, id),
{
    if ids.len() == 0 {
        return true;
    }
    match id {
        Some(i) => contains_id(ids, i),
        None => false,
    }
}

/// Whether an entry passes the filters.
pub fn passes_filters(row: &EntryRow, filters: &EntryFilters) -> (r: bool)
    ensures
        r == entry_passes(*row, filters.task_ids@, filters.project_ids@),
{
    id_filter_passes(&filters.task_ids, row.task_id) && id_filter_passes(
        &filters.project_ids,
        row.project_id,
    )
}

/// The entries that pass the filters, in their order.
pub open spec fn passing_entries(rows: Seq<EntryRow>, task_ids: Seq<i64>, project_ids: Seq<i64>) -> Seq<
    EntryRow,
>
    decreases rows.len(),
{
    if rows.len() == 0 {
        Seq::empty()
    } else {
        let prefix = passing_entries(rows.drop_last(), task_ids, project_ids);
        if entry_passes(rows.last(), task_ids, project_ids) {
            prefix.push(rows.last())
        } else {
            prefix
        }
    }
}

/// Keeps the entries that pass the filters, in their order.
pub fn filter_entries(rows: Vec<EntryRow>, filters: &EntryFilters) -> (r: Vec<EntryRow>)
    ensures
        r@ == passing_entries(rows@, filters.task_ids@, filters.project_ids@),
{
    let mut out: Vec<EntryRow> = Vec::new();
    let mut i: usize = 0;
    while i < rows.len()
        invariant
            i <= rows@.len(),
            out@ == passing_entries(rows@.take(i as int), filters.task_ids@, filters.project_ids@),
        decreases rows@.len() - i,
    {
        proof {
            assert(rows@.take(i + 1).drop_last() == rows@.take(i as int));
            assert(rows@.take(i + 1).last() == rows@[i as int]);
        }
        if passes_filters(&rows[i], filters) {
            out.push(rows[i].clone());
        }
        i += 1;
    }
    proof {
        assert(rows@.take(rows@.len() as int) == rows@);
    }
    out
}

/// The instants that bound the entry list from `from` to `to` (both local days
/// included): the start of `from` and the start of the day after `to`; or why
/// there are none.
pub open spec fn list_window(from: CivilDate, to: CivilDate) -> Result<
    (Timestamp, Timestamp),
    (int, Seq<char>),
> {
    if to.earlier_than(from) {
        Err(unprocessable_failure("Endedatum darf nicht vor dem Startdatum liegen"@))
    } else {
        match zone_local_instant(app_zone_name(), from, 0, 0, 0) {
            None => Err(internal_failure("Start des Tages ungültig"@)),
            Some(start) => match following_day(to) {
                None => Err(internal_failure("Endedatum ungültig"@)),
                Some(next) => match zone_local_instant(app_zone_name(), next, 0, 0, 0) {
                    None => Err(internal_failure("Ende des Tages ungültig"@)),
                    Some(end) => Ok((start, end)),
                },
            },
        }
    }
}

/// The bounds of the entry list: entries that start at or after the first and
/// before the second belong to it.
pub fn entries_window(from: CivilDate, to: CivilDate) -> (r: AppResult<(Timestamp, Timestamp)>)
    requires
        to.in_range(),
    ensures
        match list_window(from, to) {
            Ok(w) => r == Ok::<(Timestamp, Timestamp), AppError>(w),
            Err(f) => r matches Err(e) && failure_of(e) == f,
        },
        r matches Ok((a, b)) ==> a.wf() && b.wf(),
{
    if to.is_before(&from) {
        return Err(unprocessable("Endedatum darf nicht vor dem Startdatum liegen"));
    }
    let zone = app_tz();
    let start = match start_of_day(from, &zone) {
        Some(t) => t,
        None => return Err(internal("Start des Tages ungültig")),
    };
    let next = match next_day(to) {
        Some(d) => d,
        None => return Err(internal("Endedatum ungültig")),
    };
    let end = match start_of_day(next, &zone) {
        Some(t) => t,
        None => return Err(internal("Ende des Tages ungültig")),
    };
    Ok((start, end))
}

/// The query that reads entries with the names of their task and project, up to
/// its condition.
pub open spec fn entry_select_prefix() -> Seq<char> {
    "SELECT e.id, e.user_id, e.task_id, e.project_id, e.start_at, e.end_at, e.status, e.created_at,\n                t.name AS task_name, p.name AS project_name\n         FROM entries e\n         LEFT JOIN tasks t ON t.id = e.task_id\n         LEFT JOIN projects p ON p.id = e.project_id\n         WHERE "@
}

/// The query that reads the entries meeting a condition, with the names of
/// their task and project.
pub fn entry_select_sql(where_clause: &str) -> (r: String)
    ensures
        r@ == entry_select_prefix() + where_clause@,
{
    let mut sql = String::from_str(
        "SELECT e.id, e.user_id, e.task_id, e.project_id, e.start_at, e.end_at, e.status, e.created_at,\n                t.name AS task_name, p.name AS project_name\n         FROM entries e\n         LEFT JOIN tasks t ON t.id = e.task_id\n         LEFT JOIN projects p ON p.id = e.project_id\n         WHERE ",
    );
    sql.append(where_clause);
    sql
}

/// Empty filters keep every entry.
pub proof fn law_empty_filters_keep_all(rows: Seq<EntryRow>)
    ensures
        passing_entries(rows, Seq::empty(), Seq::empty()) == rows,
    decreases rows.len(),
{
    if rows.len() > 0 {
        law_empty_filters_keep_all(rows.drop_last());
        assert(rows.drop_last().push(rows.last()) == rows);
    }
}

/// The entries kept by filters all pass them.
pub proof fn law_filtered_entries_pass(rows: Seq<EntryRow>, task_ids: Seq<i64>, project_ids: Seq<i64>)
    ensures
        forall|i: int|
            0 <= i < passing_entries(rows, task_ids, project_ids).len() ==> entry_passes(
                #[trigger] passing_entries(rows, task_ids, project_ids)[i],
                task_ids,
                project_ids,
            ),
    decreases rows.len(),
{
    if rows.len() > 0 {
        law_filtered_entries_pass(rows.drop_last(), task_ids, project_ids);
        let prefix = passing_entries(rows.drop_last(), task_ids, project_ids);
        let all = passing_entries(rows, task_ids, project_ids);
        assert forall|i: int| 0 <= i < all.len() implies entry_passes(
            #[trigger] all[i],
            task_ids,
            project_ids,
        ) by {
            if i < prefix.len() {
                assert(all[i] == prefix[i]);
            }
        }
    }
}

/// Filtering is complete and keeps the order: the kept entries are exactly the
/// entries that pass both filters, as they come.
pub proof fn law_filter_keeps_exactly_the_passing(
    rows: Seq<EntryRow>,
    task_ids: Seq<i64>,
    project_ids: Seq<i64>,
)
    ensures
        passing_entries(rows, task_ids, project_ids) == rows.filter(
            |r: EntryRow| id_passes(task_ids, r.task_id) && id_passes(project_ids, r.project_id),
        ),
    decreases rows.len(),
{
    reveal(Seq::filter);
    if rows.len() > 0 {
        law_filter_keeps_exactly_the_passing(rows.drop_last(), task_ids, project_ids);
    }
}

} // verus!
