use chrono::{TimeZone, Utc};
use timey_api::calendar::{parse_rfc3339, CivilDate};
use timey_api::entries::{
    csv_escape, csv_export, entries_to_csv, entries_window, entry_select_sql, filter_entries,
    format_duration_label, format_hm, passes_filters, today, EntryFilters,
};
use timey_api::entry_rules::{
    assign_input, close_running_entry, deletion_result, ensure_no_needs_task,
    ensure_no_open_timer, ensure_no_open_timer_except, ensure_no_overlap, ensure_same_day,
    plan_create, plan_update, stop_input, timer_entry, validate_complete, validate_refs,
    EntryLookups, NewEntry,
};
use timey_api::error::AppError;
use timey_api::models::{EntryRow, EntryStatus, NamedRow, ProjectRow};
use timey_api::time::{whole_seconds_between, Timestamp};

fn at(dt: chrono::DateTime<Utc>) -> Timestamp {
    Timestamp { secs: dt.timestamp(), nanos: dt.timestamp_subsec_nanos() }
}

fn tss(hour: u32, minute: u32, second: u32) -> Timestamp {
    at(Utc.with_ymd_and_hms(2026, 8, 21, hour, minute, second).single().expect("valid utc"))
}

fn ts(hour: u32, minute: u32) -> Timestamp {
    tss(hour, minute, 0)
}

fn entry(
    start_at: &str,
    end_at: Option<&str>,
    task_name: Option<&str>,
    project_name: Option<&str>,
) -> EntryRow {
    EntryRow {
        id: 1,
        user_id: 1,
        task_id: None,
        project_id: None,
        start_at: start_at.to_string(),
        end_at: end_at.map(str::to_string),
        status: "complete".into(),
        created_at: start_at.to_string(),
        task_name: task_name.map(str::to_string),
        project_name: project_name.map(str::to_string),
    }
}

fn stored(id: i64, start_at: &str, end_at: Option<&str>, status: &str, task_id: Option<i64>) -> EntryRow {
    EntryRow {
        id,
        user_id: 1,
        task_id,
        project_id: None,
        start_at: start_at.to_string(),
        end_at: end_at.map(str::to_string),
        status: status.to_string(),
        created_at: start_at.to_string(),
        task_name: None,
        project_name: None,
    }
}

fn task(id: i64, archived: bool, is_system: bool) -> NamedRow {
    NamedRow {
        id,
        user_id: 1,
        name: if is_system { "unbestimmt".into() } else { "Coding".into() },
        archived,
        is_system,
        color: "#3f9d6c".into(),
        created_at: "2026-08-01T00:00:00+00:00".into(),
    }
}

fn project(id: i64, archived: bool) -> ProjectRow {
    ProjectRow {
        id,
        name: "Kunde XYZ".into(),
        archived,
        created_by: 1,
        created_at: "2026-08-01T00:00:00+00:00".into(),
    }
}

fn lookups(entries: Vec<EntryRow>) -> EntryLookups {
    EntryLookups {
        running_id: None,
        needs_task_count: 0,
        task: Some(task(7, false, false)),
        project: None,
        entries,
    }
}

fn complete(start: Timestamp, end: Timestamp) -> NewEntry {
    NewEntry { task_id: Some(7), project_id: None, start_at: start, end_at: Some(end) }
}

fn message(e: &AppError) -> String {
    e.message()
}

#[test]
fn csv_escape_quotes_comma_fields() {
    assert_eq!(csv_escape("Kunde, XYZ"), "\"Kunde, XYZ\"");
    assert_eq!(csv_escape("plain"), "plain");
    assert_eq!(csv_escape("say \"hi\""), "\"say \"\"hi\"\"\"");
}

#[test]
fn csv_escape_quotes_semicolons_and_line_breaks() {
    assert_eq!(csv_escape("a;b"), "\"a;b\"");
    assert_eq!(csv_escape("a\nb"), "\"a\nb\"");
    assert_eq!(csv_escape(""), "");
}

#[test]
fn duration_label_formats_hours_and_minutes() {
    let start = ts(10, 0);
    let end = ts(11, 30);
    assert_eq!(format_duration_label(start, end), "1:30");
}

#[test]
fn format_hm_floors_and_clamps() {
    assert_eq!(format_hm(0), "0:00");
    assert_eq!(format_hm(59), "0:00");
    assert_eq!(format_hm(3599), "0:59");
    assert_eq!(format_hm(36000 + 300), "10:05");
    assert_eq!(format_hm(-100), "0:00");
}

#[test]
fn csv_empty_list_includes_zero_sum_row() {
    let csv = entries_to_csv(&[]).expect("csv");
    assert!(csv.contains("Start,Ende,Dauer,Task,Projekt\n"));
    assert!(!csv.contains("Aufgabe"));
    assert!(csv.ends_with("Summe,,0:00,,\n"));
}

#[test]
fn csv_sums_completed_entries() {
    let csv = entries_to_csv(&[
        entry("2026-08-21T12:00:00Z", Some("2026-08-21T12:30:00Z"), Some("Meeting"), Some("Elba")),
        entry(
            "2026-08-21T09:45:00Z",
            Some("2026-08-21T11:00:00Z"),
            Some("E-Mail schreiben"),
            Some("Efa"),
        ),
    ])
    .expect("csv");
    assert!(csv.contains("Summe,,1:45,,\n"));
}

#[test]
fn csv_running_entry_does_not_increase_sum() {
    let csv = entries_to_csv(&[
        entry("2026-08-21T12:00:00Z", Some("2026-08-21T12:30:00Z"), Some("Meeting"), None),
        entry("2026-08-21T13:00:00Z", None, Some("läuft"), None),
    ])
    .expect("csv");
    assert!(csv.contains("Summe,,0:30,,\n"));
}

#[test]
fn csv_lines_show_berlin_time_and_escaped_names() {
    let csv = entries_to_csv(&[entry(
        "2026-08-21T12:00:00Z",
        Some("2026-08-21T12:30:00Z"),
        Some("Meeting, intern"),
        Some("Elba"),
    )])
    .expect("csv");
    assert_eq!(
        csv,
        "\u{feff}Start,Ende,Dauer,Task,Projekt\n2026-08-21 14:00,2026-08-21 14:30,0:30,\"Meeting, intern\",Elba\nSumme,,0:30,,\n"
    );
}

#[test]
fn csv_with_unreadable_start_is_internal_error() {
    let result = entries_to_csv(&[entry("gestern", None, None, None)]);
    assert_eq!(result, Err(AppError::Internal("Startzeit ungültig".into())));
    let result = entries_to_csv(&[entry("2026-08-21T12:00:00Z", Some("bald"), None, None)]);
    assert_eq!(result, Err(AppError::Internal("Endzeit ungültig".into())));
}

#[test]
fn csv_export_checks_the_sum_first() {
    let rows = [entry("2026-08-21T12:00:00Z", Some("2026-08-21T12:30:00Z"), None, None)];
    let out = csv_export(&rows).expect("sum fits").expect("csv");
    assert!(out.ends_with("Summe,,0:30,,\n"));
}

#[test]
fn empty_filters_pass_every_entry() {
    let filters = EntryFilters::default();
    let row = stored(1, "2026-08-21T08:00:00Z", None, "running", None);
    assert!(passes_filters(&row, &filters));
}

#[test]
fn filters_keep_only_named_tasks_and_projects() {
    let filters = EntryFilters { task_ids: vec![7], project_ids: vec![] };
    let mut with_task = stored(1, "2026-08-21T08:00:00Z", None, "running", Some(7));
    let other = stored(2, "2026-08-21T09:00:00Z", None, "running", Some(8));
    let none = stored(3, "2026-08-21T10:00:00Z", None, "running", None);
    assert!(passes_filters(&with_task, &filters));
    assert!(!passes_filters(&other, &filters));
    assert!(!passes_filters(&none, &filters));
    let kept = filter_entries(vec![with_task.clone(), other, none], &filters);
    assert_eq!(kept.len(), 1);
    assert_eq!(kept[0].id, 1);
    with_task.project_id = Some(4);
    let by_project = EntryFilters { task_ids: vec![], project_ids: vec![5] };
    assert!(!passes_filters(&with_task, &by_project));
}

#[test]
fn list_window_spans_whole_berlin_days() {
    let from = CivilDate { year: 2026, month: 8, day: 21 };
    let (start, end) = entries_window(from, from).expect("window");
    // Midnight in Berlin summer time is 22:00 UTC of the day before.
    assert_eq!(start, at(Utc.with_ymd_and_hms(2026, 8, 20, 22, 0, 0).single().unwrap()));
    assert_eq!(end, at(Utc.with_ymd_and_hms(2026, 8, 21, 22, 0, 0).single().unwrap()));
}

#[test]
fn list_window_rejects_inverted_range() {
    let from = CivilDate { year: 2026, month: 8, day: 21 };
    let to = CivilDate { year: 2026, month: 8, day: 20 };
    let err = entries_window(from, to).expect_err("inverted");
    assert_eq!(err, AppError::Unprocessable("Endedatum darf nicht vor dem Startdatum liegen".into()));
}

#[test]
fn today_is_the_berlin_day() {
    assert_eq!(today(ts(22, 30)), CivilDate { year: 2026, month: 8, day: 22 });
}

#[test]
fn entry_select_sql_ends_with_condition() {
    let sql = entry_select_sql("e.id = ?");
    assert!(sql.starts_with("SELECT e.id, e.user_id"));
    assert!(sql.ends_with("WHERE e.id = ?"));
}

#[test]
fn completed_entry_needs_task_and_length() {
    let no_task = NewEntry { task_id: None, project_id: None, start_at: ts(8, 0), end_at: Some(ts(9, 0)) };
    assert_eq!(
        validate_complete(&no_task, ts(9, 0)),
        Err(AppError::Unprocessable("Ein abgeschlossener Eintrag braucht einen Task".into()))
    );
    let input = complete(ts(8, 0), ts(9, 0));
    assert_eq!(
        validate_complete(&input, ts(7, 0)),
        Err(AppError::Unprocessable("Endzeitpunkt darf nicht vor dem Start liegen".into()))
    );
    assert_eq!(
        validate_complete(&input, ts(8, 0)),
        Err(AppError::Unprocessable("Eintrag braucht eine Dauer größer als 0".into()))
    );
    assert_eq!(validate_complete(&input, ts(9, 0)), Ok(()));
}

#[test]
fn entry_spanning_days_is_rejected() {
    assert_eq!(
        ensure_same_day(ts(21, 30), ts(22, 30)),
        Err(AppError::Unprocessable("Start und Ende müssen am selben Kalendertag liegen".into()))
    );
    assert_eq!(ensure_same_day(ts(6, 0), ts(20, 0)), Ok(()));
}

#[test]
fn timer_rivals_are_refused() {
    assert_eq!(
        ensure_no_open_timer(Some(4)),
        Err(AppError::Conflict("Es läuft bereits ein Eintrag".into()))
    );
    assert_eq!(ensure_no_open_timer(None), Ok(()));
    assert_eq!(ensure_no_open_timer_except(Some(4), 4), Ok(()));
    assert!(ensure_no_open_timer_except(Some(4), 5).is_err());
    assert_eq!(
        ensure_no_needs_task(2),
        Err(AppError::Unprocessable("Offene Einträge ohne Task zuerst zuordnen".into()))
    );
    assert_eq!(ensure_no_needs_task(0), Ok(()));
}

#[test]
fn refs_must_exist_and_be_active() {
    let input = NewEntry { task_id: Some(7), project_id: Some(3), start_at: ts(8, 0), end_at: None };
    assert_eq!(validate_refs(&input, &None, &Some(project(3, false)), None), Err(AppError::NotFound));
    assert_eq!(
        validate_refs(&input, &Some(task(7, true, false)), &Some(project(3, false)), None),
        Err(AppError::Unprocessable("Task ist archiviert".into()))
    );
    assert_eq!(
        validate_refs(&input, &Some(task(7, false, false)), &Some(project(3, true)), None),
        Err(AppError::Unprocessable("Projekt ist archiviert".into()))
    );
    assert_eq!(validate_refs(&input, &Some(task(7, false, false)), &None, None), Err(AppError::NotFound));
    assert_eq!(
        validate_refs(&input, &Some(task(7, false, false)), &Some(project(3, false)), None),
        Ok(())
    );
}

#[test]
fn create_entry_rejects_system_task() {
    let input = complete(ts(7, 0), ts(8, 0));
    let mut look = lookups(vec![]);
    look.task = Some(task(7, false, true));
    let err = plan_create(&input, &look, ts(12, 0)).expect_err("system task");
    assert_eq!(err.status(), 422);
}

#[test]
fn update_entry_keeps_existing_system_task() {
    let existing = stored(5, "2026-08-21T07:00:00Z", Some("2026-08-21T08:00:00Z"), "complete", Some(7));
    let input = complete(ts(7, 0), ts(9, 0));
    let mut look = lookups(vec![existing.clone()]);
    look.task = Some(task(7, false, true));
    assert_eq!(plan_update(&Some(existing), 5, &input, &look, ts(12, 0)), Ok(EntryStatus::Complete));
}

#[test]
fn overlapping_entries_are_rejected() {
    let rows = vec![stored(1, "2026-08-21T08:00:00Z", Some("2026-08-21T09:00:00Z"), "complete", Some(7))];
    let err = plan_create(&complete(ts(8, 30), ts(9, 30)), &lookups(rows), ts(12, 0)).expect_err("overlap");
    assert_eq!(err, AppError::Conflict("Eintrag überschneidet sich mit einem bestehenden Zeitraum".into()));
}

#[test]
fn adjacent_entries_are_allowed() {
    let rows = vec![stored(1, "2026-08-21T08:00:00Z", Some("2026-08-21T09:00:00Z"), "complete", Some(7))];
    assert_eq!(
        plan_create(&complete(ts(9, 0), ts(10, 0)), &lookups(rows), ts(12, 0)),
        Ok(EntryStatus::Complete)
    );
}

#[test]
fn running_entry_may_not_start_inside_another() {
    let rows = vec![stored(1, "2026-08-21T08:00:00Z", Some("2026-08-21T09:00:00Z"), "complete", Some(7))];
    let input = NewEntry { task_id: None, project_id: None, start_at: ts(8, 30), end_at: None };
    let mut look = lookups(rows);
    look.task = None;
    let err = ensure_no_overlap(&look.entries, None, input.start_at, None, ts(8, 30)).expect_err("inside");
    assert_eq!(err.status(), 409);
    assert!(plan_create(&input, &look, ts(8, 30)).is_err());
}

#[test]
fn broken_stored_entry_is_internal_error() {
    let rows = vec![stored(1, "2026-08-21T09:00:00Z", Some("2026-08-21T08:00:00Z"), "complete", Some(7))];
    assert_eq!(
        ensure_no_overlap(&rows, None, ts(10, 0), Some(ts(11, 0)), ts(12, 0)),
        Err(AppError::Internal("Gespeicherter Zeitraum ungültig".into()))
    );
    assert_eq!(ensure_no_overlap(&rows, Some(1), ts(10, 0), Some(ts(11, 0)), ts(12, 0)), Ok(()));
}

#[test]
fn timer_start_creates_running_entry_without_task() {
    let entry = timer_entry(ts(10, 0));
    assert_eq!(entry, NewEntry { task_id: None, project_id: None, start_at: ts(10, 0), end_at: None });
    assert_eq!(plan_create(&entry, &lookups(vec![]), ts(10, 0)), Ok(EntryStatus::Running));
    let mut busy = lookups(vec![]);
    busy.running_id = Some(3);
    assert!(plan_create(&entry, &busy, ts(10, 0)).is_err());
}

#[test]
fn stop_timer_truncates_end_seconds() {
    let running = stored(4, "2026-08-21T10:00:00Z", None, "running", None);
    let (id, change) = stop_input(&Some(running), 7, None, tss(11, 0, 45)).expect("stop");
    assert_eq!(id, 4);
    assert_eq!(change.end_at, Some(tss(11, 0, 0)));
    assert_eq!(change.task_id, Some(7));
}

#[test]
fn stop_timer_in_same_minute_bumps_end_to_next_minute() {
    let running = stored(4, "2026-08-21T10:00:30Z", None, "running", None);
    let (_, change) = stop_input(&Some(running), 7, None, tss(10, 0, 45)).expect("stop");
    assert_eq!(change.end_at, Some(tss(10, 1, 0)));
}

#[test]
fn adjacent_manual_entry_after_truncated_timer_stop_is_allowed() {
    let running = stored(4, "2026-08-21T10:00:00Z", None, "running", None);
    let (id, change) = stop_input(&Some(running.clone()), 7, None, tss(11, 0, 45)).expect("stop");
    let mut look = lookups(vec![running.clone()]);
    look.running_id = Some(4);
    assert_eq!(plan_update(&Some(running), id, &change, &look, tss(11, 0, 45)), Ok(EntryStatus::Complete));
    let stopped = stored(4, "2026-08-21T10:00:00Z", Some("2026-08-21T11:00:00Z"), "complete", Some(7));
    assert_eq!(
        plan_create(&complete(ts(11, 0), ts(12, 0)), &lookups(vec![stopped]), ts(12, 0)),
        Ok(EntryStatus::Complete)
    );
}

#[test]
fn stop_without_running_entry_is_refused() {
    assert_eq!(
        stop_input(&None, 7, None, ts(11, 0)),
        Err(AppError::Unprocessable("Kein laufender Eintrag".into()))
    );
}

#[test]
fn update_without_end_keeps_entry_running_with_task() {
    let running = stored(4, "2026-08-21T10:00:00Z", None, "running", None);
    let input = NewEntry { task_id: Some(7), project_id: None, start_at: ts(10, 0), end_at: None };
    let mut look = lookups(vec![running.clone()]);
    look.running_id = Some(4);
    look.needs_task_count = 1;
    assert_eq!(plan_update(&Some(running), 4, &input, &look, ts(11, 0)), Ok(EntryStatus::Running));
}

#[test]
fn update_of_unknown_entry_is_not_found() {
    let input = complete(ts(7, 0), ts(8, 0));
    assert_eq!(plan_update(&None, 9, &input, &lookups(vec![]), ts(12, 0)), Err(AppError::NotFound));
}

#[test]
fn update_with_end_but_no_task_waits_for_task() {
    let existing = stored(5, "2026-08-21T07:00:00Z", Some("2026-08-21T08:00:00Z"), "complete", Some(7));
    let input = NewEntry { task_id: None, project_id: None, start_at: ts(7, 0), end_at: Some(ts(8, 0)) };
    let mut look = lookups(vec![existing.clone()]);
    look.task = None;
    assert_eq!(plan_update(&Some(existing), 5, &input, &look, ts(12, 0)), Ok(EntryStatus::NeedsTask));
}

#[test]
fn task_is_assigned_to_entry_waiting_for_one() {
    let waiting = stored(6, "2026-08-21T07:00:00Z", Some("2026-08-21T08:00:00Z"), "needs_task", None);
    let change = assign_input(&Some(waiting), 7, Some(3)).expect("assign");
    assert_eq!(
        change,
        NewEntry { task_id: Some(7), project_id: Some(3), start_at: ts(7, 0), end_at: Some(ts(8, 0)) }
    );
    let done = stored(6, "2026-08-21T07:00:00Z", Some("2026-08-21T08:00:00Z"), "complete", Some(7));
    assert_eq!(
        assign_input(&Some(done), 7, None),
        Err(AppError::Unprocessable("Eintrag erwartet keinen nachträglichen Task".into()))
    );
    assert_eq!(assign_input(&None, 7, None), Err(AppError::NotFound));
}

#[test]
fn deleting_nothing_is_not_found() {
    assert_eq!(deletion_result(0), Err(AppError::NotFound));
    assert_eq!(deletion_result(1), Ok(()));
}

#[test]
fn midnight_close_marks_running_entry_without_task() {
    let running = stored(4, "2026-08-21T10:00:00Z", None, "running", None);
    let next_day = at(Utc.with_ymd_and_hms(2026, 8, 22, 0, 0, 0).single().unwrap());
    let (end, status) = close_running_entry(&running, next_day).expect("close").expect("stale");
    assert_eq!(status, EntryStatus::NeedsTask);
    assert_eq!(end, tss(21, 59, 59));
    let with_task = stored(5, "2026-08-21T10:00:00Z", None, "running", Some(7));
    let (_, status) = close_running_entry(&with_task, next_day).expect("close").expect("stale");
    assert_eq!(status, EntryStatus::Complete);
    assert_eq!(close_running_entry(&running, ts(16, 0)), Ok(None));
}

#[test]
fn error_messages_and_statuses() {
    let e = AppError::Conflict("x".into());
    assert_eq!(e.status(), 409);
    assert_eq!(message(&e), "x");
    assert_eq!(AppError::Internal("geheim".into()).message(), "interner Fehler");
    assert_eq!(AppError::Database.status(), 500);
    assert_eq!(AppError::Unauthorized.status(), 401);
    assert_eq!(AppError::Forbidden.message(), "keine Berechtigung");
    assert_eq!(AppError::NotFound.status(), 404);
    assert_eq!(AppError::BadRequest("b".into()).status(), 400);
    assert!(AppError::Config("c".into()).is_server_fault());
    assert!(!AppError::NotFound.is_server_fault());
}

#[test]
fn a_leap_second_counts_as_the_time_library_counts_it() {
    let start = parse_rfc3339("2026-08-21T12:34:60Z").expect("leap second");
    let end = parse_rfc3339("2026-08-21T12:35:59Z").expect("instant");
    assert_eq!(start.nanos, 1_000_000_000);
    assert_eq!(whole_seconds_between(start, end), 60);
    assert_eq!(whole_seconds_between(end, start), -60);
    let later = parse_rfc3339("2026-08-21T12:35:00Z").expect("instant");
    assert_eq!(whole_seconds_between(start, later), 1);
    let long = parse_rfc3339("2026-08-21T13:34:59Z").expect("instant");
    assert_eq!(format_duration_label(start, long), "1:00");
}
