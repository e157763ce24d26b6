use chrono::{TimeZone, Utc};
use timey_api::calendar::CivilDate;
use timey_api::error::AppError;
use timey_api::models::{WorkEventRow, WorkSessionRow, WorkSessionStatus};
use timey_api::overlap::Interval;
use timey_api::time::Timestamp;
use timey_api::work::{
    apply_event_times, check_range, close_stale_session, created_interval, day_intervals,
    day_summary, elapsed_from, ensure_no_open_session, ensure_no_work_overlap,
    ensure_timer_slot_free, event_records, find_interval, kind_str, open_session_of, owned_interval,
    parse_kind, plan_interval_create, plan_interval_delete, plan_interval_update,
    reject_if_entry_running, require_running, require_status, saved_interval, session_date,
    session_dates, session_to_stop, validate_closed, IntervalRemoval,
};
use timey_api::work_duration::WorkEventKind;
use timey_api::work_interval::{labeled_intervals, LabeledInterval, WorkEventRecord};

fn at(dt: chrono::DateTime<Utc>) -> Timestamp {
    Timestamp { secs: dt.timestamp(), nanos: dt.timestamp_subsec_nanos() }
}

fn tss(hour: u32, minute: u32, second: u32) -> Timestamp {
    at(Utc.with_ymd_and_hms(2026, 8, 21, hour, minute, second).single().expect("valid utc"))
}

fn ts(hour: u32, minute: u32) -> Timestamp {
    tss(hour, minute, 0)
}

fn rec(id: i64, kind: WorkEventKind, hour: u32, minute: u32) -> WorkEventRecord {
    WorkEventRecord { id, kind, at: ts(hour, minute) }
}

fn session(id: i64, status: &str) -> WorkSessionRow {
    WorkSessionRow {
        id,
        user_id: 1,
        local_date: "2026-08-21".into(),
        status: status.into(),
        created_at: "2026-08-21T06:00:00+00:00".into(),
    }
}

fn aug21() -> CivilDate {
    CivilDate { year: 2026, month: 8, day: 21 }
}

fn pause_resume_day() -> Vec<WorkEventRecord> {
    vec![
        rec(1, WorkEventKind::Started, 8, 0),
        rec(2, WorkEventKind::Paused, 12, 0),
        rec(3, WorkEventKind::Resumed, 13, 0),
        rec(4, WorkEventKind::Stopped, 17, 0),
    ]
}

#[test]
fn kinds_are_stored_by_name() {
    for kind in [
        WorkEventKind::Started,
        WorkEventKind::Paused,
        WorkEventKind::Resumed,
        WorkEventKind::Stopped,
    ] {
        assert_eq!(parse_kind(kind_str(kind)), Ok(kind));
    }
    assert_eq!(parse_kind("begun"), Err(AppError::Internal("Unbekanntes Work-Event".into())));
}

#[test]
fn stored_events_are_read_in_order() {
    let rows = vec![
        WorkEventRow { id: 1, work_session_id: 3, kind: "started".into(), at: "2026-08-21T08:00:00Z".into() },
        WorkEventRow { id: 2, work_session_id: 3, kind: "stopped".into(), at: "2026-08-21T09:00:00Z".into() },
    ];
    let records = event_records(&rows).expect("records");
    assert_eq!(records, vec![rec(1, WorkEventKind::Started, 8, 0), rec(2, WorkEventKind::Stopped, 9, 0)]);
    let bad = vec![WorkEventRow { id: 1, work_session_id: 3, kind: "started".into(), at: "morgen".into() }];
    assert_eq!(event_records(&bad), Err(AppError::Internal("Event-Zeit ungültig".into())));
}

#[test]
fn session_days_are_read() {
    assert_eq!(session_date("2026-08-21"), Ok(aug21()));
    assert_eq!(session_date("21.08.2026"), Err(AppError::Internal("local_date ungültig".into())));
    assert_eq!(session_dates(&["2026-08-21".to_string()]), Ok(vec![aug21()]));
}

#[test]
fn work_sessions_range_rejects_inverted_dates() {
    let from = aug21();
    let to = CivilDate { year: 2026, month: 8, day: 20 };
    assert_eq!(
        check_range(from, to),
        Err(AppError::Unprocessable("Endedatum darf nicht vor dem Startdatum liegen".into()))
    );
    assert_eq!(check_range(to, from), Ok(()));
}

#[test]
fn open_session_is_first_not_stopped() {
    let rows = vec![session(1, "stopped"), session(2, "paused"), session(3, "running")];
    assert_eq!(open_session_of(&rows).map(|s| s.id), Some(2));
    assert!(open_session_of(&[session(1, "stopped")]).is_none());
}

#[test]
fn start_is_refused_while_a_session_is_open() {
    assert_eq!(
        ensure_no_open_session(&Some(session(1, "running"))),
        Err(AppError::Conflict("Arbeitszeit läuft bereits".into()))
    );
    assert_eq!(
        ensure_no_open_session(&Some(session(1, "paused"))),
        Err(AppError::Conflict("Arbeitszeit ist pausiert — fortsetzen statt starten".into()))
    );
    assert_eq!(ensure_no_open_session(&None), Ok(()));
}

#[test]
fn timer_start_is_rejected_over_manual_interval() {
    let manual = labeled_intervals(
        1,
        &[rec(1, WorkEventKind::Started, 8, 0), rec(2, WorkEventKind::Stopped, 12, 0)],
        ts(18, 0),
    );
    let err = ensure_timer_slot_free(&manual, ts(10, 0)).expect_err("expected overlap");
    assert!(err.message().contains("überschneidet"));
    assert_eq!(ensure_timer_slot_free(&manual, ts(12, 0)), Ok(()));
}

#[test]
fn timer_start_without_work_session_is_rejected() {
    let expected = Err(AppError::Unprocessable("Arbeitszeit läuft nicht".into()));
    assert_eq!(require_running(&None), expected);
    assert_eq!(require_running(&Some(session(1, "paused"))), expected);
    assert_eq!(require_running(&Some(session(1, "running"))), Ok(()));
}

#[test]
fn work_pause_rejected_while_timer_running() {
    assert_eq!(
        reject_if_entry_running(true),
        Err(AppError::Unprocessable("Zuerst den laufenden Eintrag stoppen".into()))
    );
    assert_eq!(
        session_to_stop(true, &Some(session(1, "running"))).map(|s| s.id),
        Err(AppError::Unprocessable("Zuerst den laufenden Eintrag stoppen".into()))
    );
    assert_eq!(
        session_to_stop(false, &None).map(|s| s.id),
        Err(AppError::Unprocessable("Keine laufende Arbeitszeit".into()))
    );
}

#[test]
fn pause_and_resume_need_the_right_state() {
    assert_eq!(
        require_status(&Some(session(1, "paused")), WorkSessionStatus::Running).map(|s| s.id),
        Err(AppError::Unprocessable("Arbeitszeit ist nicht im Zustand running".into()))
    );
    assert_eq!(
        require_status(&None, WorkSessionStatus::Paused).map(|s| s.id),
        Err(AppError::Unprocessable("Keine offene Arbeitszeit".into()))
    );
    assert_eq!(require_status(&Some(session(1, "paused")), WorkSessionStatus::Paused).map(|s| s.id), Ok(1));
}

#[test]
fn elapsed_sums_intervals() {
    let intervals = labeled_intervals(1, &pause_resume_day(), ts(18, 0));
    assert_eq!(elapsed_from(&intervals), 8 * 3600);
    let summary = day_summary(aug21(), intervals);
    assert_eq!(summary.elapsed_seconds, 8 * 3600);
    assert_eq!(summary.intervals.len(), 2);
    assert_eq!(elapsed_from(&[]), 0);
}

#[test]
fn day_intervals_join_sessions_in_order() {
    let sessions = vec![
        (1, vec![rec(1, WorkEventKind::Started, 6, 0), rec(2, WorkEventKind::Stopped, 7, 0)]),
        (2, vec![rec(3, WorkEventKind::Started, 8, 0)]),
    ];
    let all = day_intervals(&sessions, ts(9, 0));
    assert_eq!(all.len(), 2);
    assert_eq!((all[0].session_id, all[0].id), (1, 1));
    assert_eq!((all[1].session_id, all[1].id, all[1].open), (2, 3, true));
}

#[test]
fn zero_duration_is_unprocessable() {
    assert_eq!(
        validate_closed(ts(6, 0), tss(6, 0, 30), ts(18, 0), None),
        Err(AppError::Unprocessable("Arbeitszeit braucht eine Dauer größer als 0".into()))
    );
}

#[test]
fn future_interval_is_unprocessable() {
    assert_eq!(
        validate_closed(ts(8, 0), ts(9, 0), ts(7, 0), None),
        Err(AppError::Unprocessable("Zeitpunkt liegt in der Zukunft".into()))
    );
}

#[test]
fn spanning_midnight_is_unprocessable() {
    assert_eq!(
        validate_closed(ts(21, 30), ts(22, 30), ts(23, 0), None),
        Err(AppError::Unprocessable("Start und Ende müssen am selben Kalendertag liegen".into()))
    );
}

#[test]
fn closed_interval_is_cut_to_minutes() {
    assert_eq!(validate_closed(tss(6, 0, 59), tss(10, 0, 10), ts(18, 0), None), Ok((ts(6, 0), ts(10, 0))));
    let other = CivilDate { year: 2026, month: 8, day: 20 };
    assert_eq!(
        validate_closed(ts(6, 0), ts(10, 0), ts(18, 0), Some(other)),
        Err(AppError::Unprocessable("Tageswechsel ist nicht erlaubt".into()))
    );
}

#[test]
fn create_closed_interval_appears_in_day_list() {
    let (span, date) = plan_interval_create(ts(6, 0), ts(10, 0), ts(18, 0)).expect("span");
    assert_eq!(span, Interval { start: ts(6, 0), end: ts(10, 0) });
    assert_eq!(date, aug21());
    let events = [rec(11, WorkEventKind::Started, 6, 0), rec(12, WorkEventKind::Stopped, 10, 0)];
    let listed = labeled_intervals(5, &events, ts(18, 0));
    let created = created_interval(&listed, 11).expect("created");
    assert_eq!((created.start, created.end, created.open), (ts(6, 0), ts(10, 0), false));
    assert_eq!(elapsed_from(&listed), 4 * 3600);
}

#[test]
fn overlapping_interval_is_conflict() {
    let day = labeled_intervals(1, &[rec(1, WorkEventKind::Started, 6, 0), rec(2, WorkEventKind::Stopped, 10, 0)], ts(18, 0));
    assert_eq!(
        ensure_no_work_overlap(&day, Interval { start: ts(8, 0), end: ts(9, 0) }, None),
        Err(AppError::Conflict("Arbeitszeit überschneidet sich mit einem bestehenden Zeitraum".into()))
    );
    assert_eq!(ensure_no_work_overlap(&day, Interval { start: ts(8, 0), end: ts(9, 0) }, Some(1)), Ok(()));
}

#[test]
fn adjacent_interval_is_allowed() {
    let day = labeled_intervals(1, &[rec(1, WorkEventKind::Started, 6, 0), rec(2, WorkEventKind::Stopped, 10, 0)], ts(18, 0));
    assert_eq!(ensure_no_work_overlap(&day, Interval { start: ts(10, 0), end: ts(12, 0) }, None), Ok(()));
}

#[test]
fn event_times_are_applied_and_checked() {
    let mut records = pause_resume_day();
    assert_eq!(apply_event_times(&mut records, &[(1, ts(7, 0))]), Ok(()));
    assert_eq!(records[0].at, ts(7, 0));
    let mut records = pause_resume_day();
    assert_eq!(
        apply_event_times(&mut records, &[(3, ts(11, 0))]),
        Err(AppError::Unprocessable("Die Zeiten der Arbeitszeit sind ungültig".into()))
    );
    let mut records = pause_resume_day();
    assert_eq!(
        apply_event_times(&mut records, &[(9, ts(11, 0))]),
        Err(AppError::Internal("Event nicht gefunden".into()))
    );
}

#[test]
fn patch_running_start_increases_elapsed() {
    let records = vec![rec(1, WorkEventKind::Started, 10, 0)];
    let now = ts(12, 0);
    let intervals = labeled_intervals(1, &records, now);
    let open = owned_interval(Some(1), &records, 1, now).expect("open");
    assert!(open.open);
    let updated = plan_interval_update(&open, aug21(), records, tss(8, 0, 30), None, &intervals, now).expect("patched");
    assert_eq!(updated[0].at, ts(8, 0));
    let after = labeled_intervals(1, &updated, now);
    assert!(elapsed_from(&after) >= 2 * 3600);
    assert_eq!(saved_interval(&after, 1).map(|l| l.start), Ok(ts(8, 0)));
}

#[test]
fn patch_open_interval_rejects_end_at() {
    let records = vec![rec(1, WorkEventKind::Started, 10, 0)];
    let now = ts(12, 0);
    let intervals = labeled_intervals(1, &records, now);
    let open = find_interval(&intervals, 1).expect("open");
    assert_eq!(
        plan_interval_update(&open, aug21(), records.clone(), ts(9, 0), Some(ts(10, 0)), &intervals, now),
        Err(AppError::Unprocessable("Laufende Arbeitszeit hat kein Ende".into()))
    );
    assert_eq!(
        plan_interval_update(&open, aug21(), records, ts(12, 30), None, &intervals, now),
        Err(AppError::Unprocessable("Start muss vor dem aktuellen Zeitpunkt liegen".into()))
    );
}

#[test]
fn patch_closed_interval_moves_both_events() {
    let records = pause_resume_day();
    let now = ts(18, 0);
    let intervals = labeled_intervals(1, &records, now);
    let afternoon = find_interval(&intervals, 3).expect("afternoon");
    let updated =
        plan_interval_update(&afternoon, aug21(), records.clone(), ts(13, 30), Some(ts(16, 0)), &intervals, now)
            .expect("patched");
    assert_eq!((updated[2].at, updated[3].at), (ts(13, 30), ts(16, 0)));
    assert_eq!(
        plan_interval_update(&afternoon, aug21(), records.clone(), ts(13, 30), None, &intervals, now),
        Err(AppError::Unprocessable("Endzeitpunkt ist erforderlich".into()))
    );
    assert_eq!(
        plan_interval_update(&afternoon, aug21(), records, ts(11, 0), Some(ts(16, 0)), &intervals, now),
        Err(AppError::Conflict("Arbeitszeit überschneidet sich mit einem bestehenden Zeitraum".into()))
    );
}

#[test]
fn delete_closed_interval_and_keep_neighbor() {
    let records = pause_resume_day();
    let now = ts(18, 0);
    let intervals = labeled_intervals(1, &records, now);
    let morning = find_interval(&intervals, 1).expect("morning");
    assert_eq!(
        plan_interval_delete(&morning, 1, &records, now),
        Ok(IntervalRemoval::DeleteEvents {
            close_event_id: Some(2),
            opening_event_id: 1,
            first: (3, WorkEventKind::Started),
        })
    );
}

#[test]
fn deleting_only_interval_deletes_session() {
    let records = vec![rec(1, WorkEventKind::Started, 6, 0), rec(2, WorkEventKind::Stopped, 10, 0)];
    let now = ts(18, 0);
    let intervals = labeled_intervals(1, &records, now);
    assert_eq!(plan_interval_delete(&intervals[0], 1, &records, now), Ok(IntervalRemoval::DeleteSession));
}

#[test]
fn delete_open_interval_is_unprocessable() {
    let records = vec![rec(1, WorkEventKind::Started, 10, 0)];
    let now = ts(12, 0);
    let intervals = labeled_intervals(1, &records, now);
    assert_eq!(
        plan_interval_delete(&intervals[0], 1, &records, now),
        Err(AppError::Unprocessable("Laufende Arbeitszeit kann nicht gelöscht werden".into()))
    );
}

#[test]
fn unknown_interval_is_not_found() {
    let records = pause_resume_day();
    assert_eq!(owned_interval(None, &records, 1, ts(18, 0)).map(|l| l.id), Err(AppError::NotFound));
    assert_eq!(owned_interval(Some(1), &records, 9999, ts(18, 0)).map(|l| l.id), Err(AppError::NotFound));
    let missing: Vec<LabeledInterval> = vec![];
    assert_eq!(
        created_interval(&missing, 1).map(|l| l.id),
        Err(AppError::Internal("Intervall nach dem Anlegen nicht gefunden".into()))
    );
}

#[test]
fn stale_session_is_stopped_at_end_of_its_day() {
    let next_day = at(Utc.with_ymd_and_hms(2026, 8, 22, 6, 0, 0).single().unwrap());
    assert_eq!(close_stale_session(&session(1, "running"), next_day), Ok(Some(Some(tss(21, 59, 59)))));
    assert_eq!(close_stale_session(&session(1, "paused"), next_day), Ok(Some(Some(tss(21, 59, 59)))));
    assert_eq!(close_stale_session(&session(1, "odd"), next_day), Ok(Some(None)));
    assert_eq!(close_stale_session(&session(1, "running"), ts(16, 0)), Ok(None));
}
