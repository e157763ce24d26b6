use chrono::{TimeZone, Timelike, Utc};
use timey_api::calendar::{app_tz, format_date, CivilDate};
use timey_api::default_task::{DefaultTaskId, DefaultTaskIdError};
use timey_api::default_view::DefaultView;
use timey_api::midnight::{close_timestamp, needs_midnight_close};
use timey_api::models::{EntryStatus, Role, WorkSessionStatus};
use timey_api::overlap::{any_overlap, contains_instant, intervals_overlap, Interval};
use timey_api::same_day::{civil_date, same_civil_day};
use timey_api::slot_minutes::{SlotMinutes, SlotMinutesError};
use timey_api::system_task::{is_reserved_task_name, UNBESTIMMT_NAME};
use timey_api::task_color::{parse_hex_color, rgb_from_hex, TaskColorError};
use timey_api::time::{truncate_to_minute, Timestamp};
use timey_api::work_duration::{elapsed_seconds, running_intervals, WorkEvent, WorkEventKind};
use timey_api::work_interval::{
    labeled_intervals, remove_interval, timestamps_non_decreasing, LabeledInterval,
    WorkEventRecord,
};
use timey_api::working_hours::{format_hhmm, parse_hhmm, WorkingHours, WorkingHoursError};

fn at(dt: chrono::DateTime<Utc>) -> Timestamp {
    Timestamp { secs: dt.timestamp(), nanos: dt.timestamp_subsec_nanos() }
}

fn tss(hour: u32, minute: u32, second: u32) -> Timestamp {
    at(Utc.with_ymd_and_hms(2026, 8, 21, hour, minute, second).single().expect("valid utc"))
}

fn ts(hour: u32, minute: u32) -> Timestamp {
    tss(hour, minute, 0)
}

fn iv(start_h: u32, start_m: u32, end_h: u32, end_m: u32) -> Interval {
    Interval::new(ts(start_h, start_m), ts(end_h, end_m)).expect("valid interval")
}

fn ev(kind: WorkEventKind, hour: u32, minute: u32) -> WorkEvent {
    WorkEvent { kind, at: ts(hour, minute) }
}

fn rec(id: i64, kind: WorkEventKind, hour: u32, minute: u32) -> WorkEventRecord {
    WorkEventRecord { id, kind, at: ts(hour, minute) }
}

fn day(year: i32, month: u32, day: u32) -> CivilDate {
    CivilDate { year, month, day }
}

#[test]
fn empty_is_valid() {
    let id = DefaultTaskId::parse(None).expect("empty is valid");
    assert_eq!(id.stored(), None);
    assert_eq!(DefaultTaskId::default(), id);
}

#[test]
fn positive_id_is_stored() {
    let id = DefaultTaskId::parse(Some(3)).expect("3 is valid");
    assert_eq!(id.stored(), Some(3));
}

#[test]
fn default_task_parse_rejects_zero_and_negative() {
    assert_eq!(DefaultTaskId::parse(Some(0)), Err(DefaultTaskIdError::NotPositive));
    assert_eq!(DefaultTaskId::parse(Some(-1)), Err(DefaultTaskIdError::NotPositive));
    assert_eq!(DefaultTaskIdError::NotPositive.message(), "Standard-Task ist ungültig");
}

#[test]
fn default_is_day() {
    assert_eq!(DefaultView::default(), DefaultView::Day);
    assert_eq!(DefaultView::default().as_str(), "day");
}

#[test]
fn parse_accepts_day_and_week() {
    assert_eq!(DefaultView::parse("day"), Some(DefaultView::Day));
    assert_eq!(DefaultView::parse("week"), Some(DefaultView::Week));
    assert_eq!(DefaultView::Day.as_str(), "day");
    assert_eq!(DefaultView::Week.as_str(), "week");
}

#[test]
fn parse_rejects_unknown_values() {
    assert_eq!(DefaultView::parse("month"), None);
    assert_eq!(DefaultView::parse(""), None);
    assert_eq!(DefaultView::parse("Day"), None);
}

#[test]
fn empty_uses_sixty_minutes() {
    let slot = SlotMinutes::parse(None).expect("empty is valid");
    assert_eq!(slot.stored(), None);
    assert_eq!(slot.effective(), 60);
    assert_eq!(SlotMinutes::DEFAULT, 60);
    assert_eq!(SlotMinutes::default(), slot);
}

#[test]
fn positive_integer_is_stored_and_effective() {
    let slot = SlotMinutes::parse(Some(30)).expect("30 is valid");
    assert_eq!(slot.stored(), Some(30));
    assert_eq!(slot.effective(), 30);
}

#[test]
fn slot_minutes_parse_rejects_zero_and_negative() {
    assert_eq!(SlotMinutes::parse(Some(0)), Err(SlotMinutesError::NotPositive));
    assert_eq!(SlotMinutes::parse(Some(-1)), Err(SlotMinutesError::NotPositive));
    assert_eq!(
        SlotMinutesError::NotPositive.message(),
        "Slotdauer muss eine positive ganze Zahl in Minuten sein"
    );
}

#[test]
fn reserved_name_is_unbestimmt() {
    assert_eq!(UNBESTIMMT_NAME, "unbestimmt");
}

#[test]
fn detects_reserved_name_ignoring_case_and_whitespace() {
    assert!(is_reserved_task_name("unbestimmt"));
    assert!(is_reserved_task_name("  Unbestimmt  "));
    assert!(is_reserved_task_name("UNBESTIMMT"));
    assert!(!is_reserved_task_name("Meeting"));
    assert!(!is_reserved_task_name(""));
}

#[test]
fn parse_accepts_user_black_and_normalizes_case() {
    assert_eq!(parse_hex_color("#000000").expect("black"), "#000000");
    assert_eq!(parse_hex_color("#FFFFFF").expect("white"), "#ffffff");
    assert_eq!(parse_hex_color("#3F9D6C").expect("mid"), "#3f9d6c");
}

#[test]
fn parse_rejects_invalid_hex() {
    for value in ["", "3f9d6c", "#fff", "#3f9d6", "#3f9d6cc", "#gg0000", " #3f9d6c"] {
        assert_eq!(parse_hex_color(value), Err(TaskColorError::InvalidFormat));
    }
}

#[test]
fn color_error_message_names_the_format() {
    assert_eq!(
        TaskColorError::InvalidFormat.message(),
        "Farbe muss im Format #RRGGBB angegeben werden"
    );
}

#[test]
fn rgb_channels_are_read_from_hex() {
    assert_eq!(rgb_from_hex("#3f9d6c"), Some((0x3f, 0x9d, 0x6c)));
    assert_eq!(rgb_from_hex("#FFffFF"), Some((255, 255, 255)));
    assert_eq!(rgb_from_hex("#3f9d6"), None);
    assert_eq!(rgb_from_hex("#3g9d6c"), None);
}

#[test]
fn default_is_seven_thirty_to_sixteen_fifteen() {
    let hours = WorkingHours::default();
    assert_eq!(hours.work_start(), "07:30");
    assert_eq!(hours.work_end(), "16:15");
    assert_eq!(hours.start_minutes, 450);
    assert_eq!(hours.end_minutes, 975);
}

#[test]
fn parse_hhmm_reads_clock_time() {
    assert_eq!(parse_hhmm("07:30"), Ok(450));
    assert_eq!(parse_hhmm("16:15"), Ok(975));
    assert_eq!(parse_hhmm("00:00"), Ok(0));
    assert_eq!(parse_hhmm("23:59"), Ok(23 * 60 + 59));
}

#[test]
fn parse_hhmm_rejects_invalid_format() {
    assert_eq!(parse_hhmm("7:30"), Err(WorkingHoursError::InvalidFormat));
    assert_eq!(parse_hhmm("24:00"), Err(WorkingHoursError::InvalidFormat));
    assert_eq!(parse_hhmm("12:60"), Err(WorkingHoursError::InvalidFormat));
    assert_eq!(parse_hhmm("ab:cd"), Err(WorkingHoursError::InvalidFormat));
    assert_eq!(parse_hhmm("0730"), Err(WorkingHoursError::InvalidFormat));
    assert_eq!(parse_hhmm(""), Err(WorkingHoursError::InvalidFormat));
}

#[test]
fn parse_working_hours_requires_start_before_end() {
    let hours = WorkingHours::parse("07:30", "16:15").expect("valid");
    assert_eq!(hours.start_minutes, 450);
    assert_eq!(hours.end_minutes, 975);
    assert_eq!(WorkingHours::parse("16:15", "07:30"), Err(WorkingHoursError::InvalidRange));
    assert_eq!(WorkingHours::parse("08:00", "08:00"), Err(WorkingHoursError::InvalidRange));
}

#[test]
fn from_minutes_rejects_out_of_clock_range() {
    assert_eq!(WorkingHours::from_minutes(-1, 60), Err(WorkingHoursError::InvalidFormat));
    assert_eq!(WorkingHours::from_minutes(0, 24 * 60), Err(WorkingHoursError::InvalidFormat));
}

#[test]
fn hhmm_text_roundtrips_through_parse() {
    for minutes in [0i64, 1, 59, 60, 450, 975, 1439] {
        let text = format_hhmm(minutes);
        assert_eq!(parse_hhmm(&text), Ok(minutes));
    }
    assert_eq!(format_hhmm(605), "10:05");
}

#[test]
fn working_hours_messages() {
    assert_eq!(
        WorkingHoursError::InvalidFormat.message(),
        "Arbeitszeit muss im Format HH:MM angegeben werden"
    );
    assert_eq!(WorkingHoursError::InvalidRange.message(), "Beginn muss vor dem Ende liegen");
}

#[test]
fn floors_seconds_to_zero() {
    assert_eq!(truncate_to_minute(tss(10, 0, 45)), tss(10, 0, 0));
}

#[test]
fn keeps_already_whole_minute() {
    let whole = tss(11, 30, 0);
    assert_eq!(truncate_to_minute(whole), whole);
}

#[test]
fn drops_nanoseconds() {
    let with_nanos = at(
        Utc.with_ymd_and_hms(2026, 8, 21, 9, 15, 0)
            .single()
            .expect("valid utc")
            .with_nanosecond(123_456_789)
            .expect("valid nanos"),
    );
    let truncated = truncate_to_minute(with_nanos);
    assert_eq!(truncated, tss(9, 15, 0));
    assert_eq!(truncated.nanos, 0);
}

#[test]
fn truncation_floors_before_the_epoch() {
    let before = Timestamp { secs: -61, nanos: 5 };
    assert_eq!(truncate_to_minute(before), Timestamp { secs: -120, nanos: 0 });
}

#[test]
fn adjacent_intervals_do_not_overlap() {
    let morning = iv(9, 0, 10, 0);
    let next = iv(10, 0, 11, 0);
    assert!(!intervals_overlap(morning, next));
    assert!(!intervals_overlap(next, morning));
}

#[test]
fn overlapping_intervals_are_detected() {
    let a = iv(9, 0, 11, 0);
    let b = iv(10, 0, 12, 0);
    assert!(intervals_overlap(a, b));
}

#[test]
fn contained_interval_overlaps() {
    let outer = iv(8, 0, 12, 0);
    let inner = iv(9, 30, 10, 15);
    assert!(intervals_overlap(outer, inner));
}

#[test]
fn disjoint_intervals_do_not_overlap() {
    let a = iv(8, 0, 9, 0);
    let b = iv(10, 0, 11, 0);
    assert!(!intervals_overlap(a, b));
}

#[test]
fn running_entry_uses_now_as_end() {
    let running = Interval::running(ts(9, 0), ts(10, 30));
    let during = iv(10, 0, 10, 15);
    let after = iv(10, 30, 11, 0);
    assert!(intervals_overlap(running, during));
    assert!(!intervals_overlap(running, after));
}

#[test]
fn any_overlap_scans_existing_list() {
    let existing = vec![iv(8, 0, 9, 0), iv(11, 0, 12, 0)];
    assert!(any_overlap(iv(8, 30, 8, 45), &existing));
    assert!(!any_overlap(iv(9, 0, 11, 0), &existing));
}

#[test]
fn instant_inside_interval_is_detected() {
    let block = iv(8, 0, 12, 0);
    assert!(contains_instant(block, ts(10, 0)));
    assert!(!contains_instant(block, ts(12, 0)));
    assert!(contains_instant(block, ts(8, 0)));
}

#[test]
fn inverted_bounds_are_rejected() {
    assert!(Interval::new(ts(10, 0), ts(9, 0)).is_none());
}

#[test]
fn overlap_is_symmetric_on_examples() {
    let pairs = [(iv(9, 0, 11, 0), iv(10, 0, 12, 0)), (iv(8, 0, 9, 0), iv(9, 0, 10, 0))];
    for (a, b) in pairs {
        assert_eq!(intervals_overlap(a, b), intervals_overlap(b, a));
    }
}

#[test]
fn running_without_pause_counts_until_now() {
    let events = [ev(WorkEventKind::Started, 8, 0)];
    assert_eq!(elapsed_seconds(&events, ts(10, 0)), 2 * 3600);
}

#[test]
fn pause_stops_accumulation() {
    let events = [ev(WorkEventKind::Started, 8, 0), ev(WorkEventKind::Paused, 9, 0)];
    assert_eq!(elapsed_seconds(&events, ts(12, 0)), 3600);
}

#[test]
fn resume_after_pause_adds_more_time() {
    let events = [
        ev(WorkEventKind::Started, 8, 0),
        ev(WorkEventKind::Paused, 9, 0),
        ev(WorkEventKind::Resumed, 9, 30),
        ev(WorkEventKind::Stopped, 10, 30),
    ];
    assert_eq!(elapsed_seconds(&events, ts(18, 0)), 2 * 3600);
}

#[test]
fn empty_events_are_zero() {
    assert_eq!(elapsed_seconds(&[], ts(8, 0)), 0);
}

fn bounds(intervals: Vec<Interval>) -> Vec<(Timestamp, Timestamp)> {
    intervals.iter().map(|i| (i.start, i.end)).collect()
}

#[test]
fn running_without_pause_is_one_open_interval() {
    let events = [ev(WorkEventKind::Started, 8, 0)];
    assert_eq!(bounds(running_intervals(&events, ts(10, 0))), vec![(ts(8, 0), ts(10, 0))]);
}

#[test]
fn pause_closes_the_interval() {
    let events = [ev(WorkEventKind::Started, 8, 0), ev(WorkEventKind::Paused, 9, 0)];
    assert_eq!(bounds(running_intervals(&events, ts(12, 0))), vec![(ts(8, 0), ts(9, 0))]);
}

#[test]
fn resume_after_pause_leaves_a_gap() {
    let events = [
        ev(WorkEventKind::Started, 8, 0),
        ev(WorkEventKind::Paused, 9, 0),
        ev(WorkEventKind::Resumed, 9, 30),
        ev(WorkEventKind::Stopped, 10, 30),
    ];
    assert_eq!(
        bounds(running_intervals(&events, ts(18, 0))),
        vec![(ts(8, 0), ts(9, 0)), (ts(9, 30), ts(10, 30))]
    );
}

#[test]
fn empty_events_have_no_intervals() {
    assert!(running_intervals(&[], ts(8, 0)).is_empty());
}

#[test]
fn zero_length_closed_interval_is_dropped() {
    let events = [ev(WorkEventKind::Started, 8, 0), ev(WorkEventKind::Paused, 8, 0)];
    assert!(running_intervals(&events, ts(12, 0)).is_empty());
}

#[test]
fn zero_length_open_interval_is_dropped() {
    let events = [ev(WorkEventKind::Started, 8, 0)];
    assert!(running_intervals(&events, ts(8, 0)).is_empty());
}

#[test]
fn labels_open_running_interval_with_opening_event_id() {
    let events = [rec(10, WorkEventKind::Started, 8, 0)];
    let intervals = labeled_intervals(3, &events, ts(10, 0));
    assert_eq!(
        intervals,
        vec![LabeledInterval {
            id: 10,
            session_id: 3,
            start: ts(8, 0),
            end: ts(10, 0),
            open: true,
            close_event_id: None,
        }]
    );
}

#[test]
fn labels_closed_started_stopped_pair() {
    let events = [rec(1, WorkEventKind::Started, 8, 0), rec(2, WorkEventKind::Stopped, 12, 0)];
    let intervals = labeled_intervals(1, &events, ts(18, 0));
    assert_eq!(
        intervals,
        vec![LabeledInterval {
            id: 1,
            session_id: 1,
            start: ts(8, 0),
            end: ts(12, 0),
            open: false,
            close_event_id: Some(2),
        }]
    );
}

#[test]
fn labels_pause_gap_as_two_intervals() {
    let events = [
        rec(1, WorkEventKind::Started, 8, 0),
        rec(2, WorkEventKind::Paused, 12, 0),
        rec(3, WorkEventKind::Resumed, 13, 0),
        rec(4, WorkEventKind::Stopped, 17, 0),
    ];
    let intervals = labeled_intervals(9, &events, ts(18, 0));
    assert_eq!(intervals.len(), 2);
    assert_eq!(intervals[0].id, 1);
    assert_eq!(intervals[0].close_event_id, Some(2));
    assert!(!intervals[0].open);
    assert_eq!(intervals[1].id, 3);
    assert_eq!(intervals[1].close_event_id, Some(4));
    assert_eq!(intervals[1].start, ts(13, 0));
    assert_eq!(intervals[1].end, ts(17, 0));
}

#[test]
fn drops_zero_length_closed_interval() {
    let events = [rec(1, WorkEventKind::Started, 8, 0), rec(2, WorkEventKind::Paused, 8, 0)];
    assert!(labeled_intervals(1, &events, ts(12, 0)).is_empty());
}

#[test]
fn remove_first_interval_promotes_resumed_to_started() {
    let events = [
        rec(1, WorkEventKind::Started, 8, 0),
        rec(2, WorkEventKind::Paused, 12, 0),
        rec(3, WorkEventKind::Resumed, 13, 0),
        rec(4, WorkEventKind::Stopped, 17, 0),
    ];
    let remaining = remove_interval(&events, 1).expect("found");
    assert_eq!(
        remaining,
        vec![rec(3, WorkEventKind::Started, 13, 0), rec(4, WorkEventKind::Stopped, 17, 0)]
    );
}

#[test]
fn remove_second_interval_keeps_morning() {
    let events = [
        rec(1, WorkEventKind::Started, 8, 0),
        rec(2, WorkEventKind::Paused, 12, 0),
        rec(3, WorkEventKind::Resumed, 13, 0),
        rec(4, WorkEventKind::Stopped, 17, 0),
    ];
    let remaining = remove_interval(&events, 3).expect("found");
    assert_eq!(
        remaining,
        vec![rec(1, WorkEventKind::Started, 8, 0), rec(2, WorkEventKind::Paused, 12, 0)]
    );
}

#[test]
fn remove_open_interval_leaves_empty() {
    let events = [rec(5, WorkEventKind::Started, 8, 0)];
    let remaining = remove_interval(&events, 5).expect("found");
    assert!(remaining.is_empty());
}

#[test]
fn remove_unknown_interval_is_none() {
    let events = [rec(5, WorkEventKind::Started, 8, 0)];
    assert!(remove_interval(&events, 99).is_none());
}

#[test]
fn timestamps_must_not_fall() {
    let ok = [rec(1, WorkEventKind::Started, 8, 0), rec(2, WorkEventKind::Stopped, 9, 0)];
    assert!(timestamps_non_decreasing(&ok));
    let falling = [rec(1, WorkEventKind::Started, 10, 0), rec(2, WorkEventKind::Stopped, 9, 0)];
    assert!(!timestamps_non_decreasing(&falling));
}

#[test]
fn same_berlin_day_is_accepted() {
    assert!(same_civil_day(ts(6, 0), ts(20, 0), &app_tz()));
}

#[test]
fn spanning_berlin_midnight_is_rejected() {
    assert!(!same_civil_day(ts(21, 30), ts(22, 30), &app_tz()));
}

#[test]
fn civil_date_uses_berlin_offset() {
    assert_eq!(civil_date(ts(22, 30), &app_tz()), day(2026, 8, 22));
}

#[test]
fn same_day_does_not_need_close() {
    assert!(!needs_midnight_close(day(2026, 8, 21), ts(16, 0), &app_tz()));
}

#[test]
fn next_berlin_day_needs_close() {
    assert!(needs_midnight_close(day(2026, 8, 21), ts(22, 1), &app_tz()));
}

#[test]
fn close_timestamp_is_end_of_started_day() {
    let close = close_timestamp(day(2026, 8, 21), &app_tz()).expect("close");
    // 23:59:59 in Berlin summer time is 21:59:59 UTC.
    assert_eq!(close, tss(21, 59, 59));
    assert_eq!(civil_date(close, &app_tz()), day(2026, 8, 21));
}

#[test]
fn stored_state_names_read_back() {
    for role in [Role::Admin, Role::User] {
        assert_eq!(Role::parse(role.as_str()), Some(role));
    }
    for status in [EntryStatus::Running, EntryStatus::Complete, EntryStatus::NeedsTask] {
        assert_eq!(EntryStatus::parse(status.as_str()), Some(status));
    }
    for status in [WorkSessionStatus::Running, WorkSessionStatus::Paused, WorkSessionStatus::Stopped] {
        assert_eq!(WorkSessionStatus::parse(status.as_str()), Some(status));
    }
    assert_eq!(Role::parse("Admin"), None);
}

#[test]
fn labels_span_the_worked_intervals() {
    let records = [
        rec(1, WorkEventKind::Started, 8, 0),
        rec(2, WorkEventKind::Paused, 12, 0),
        rec(3, WorkEventKind::Resumed, 13, 0),
    ];
    let events: Vec<WorkEvent> = records.iter().map(|r| WorkEvent { kind: r.kind, at: r.at }).collect();
    let labeled: Vec<(Timestamp, Timestamp)> =
        labeled_intervals(1, &records, ts(18, 0)).iter().map(|l| (l.start, l.end)).collect();
    assert_eq!(labeled, bounds(running_intervals(&events, ts(18, 0))));
}

#[test]
fn normalized_colour_stays_normalized() {
    let once = parse_hex_color("#3F9d6C").expect("valid");
    assert_eq!(parse_hex_color(&once), Ok(once.clone()));
}

#[test]
fn overlapping_intervals_share_an_instant() {
    let a = iv(9, 0, 11, 0);
    let b = iv(10, 0, 12, 0);
    assert!(intervals_overlap(a, b));
    assert!(contains_instant(a, ts(10, 0)) && contains_instant(b, ts(10, 0)));
}

#[test]
fn elapsed_time_grows_with_now() {
    let events = vec![
        WorkEvent { kind: WorkEventKind::Started, at: ts(8, 0) },
        WorkEvent { kind: WorkEventKind::Paused, at: ts(9, 0) },
        WorkEvent { kind: WorkEventKind::Resumed, at: ts(9, 30) },
    ];
    let mut last = 0;
    for hour in 8..18 {
        let now = ts(hour, 15);
        let elapsed = elapsed_seconds(&events, now);
        assert!(elapsed >= last);
        last = elapsed;
    }
    assert_eq!(elapsed_seconds(&events, ts(10, 30)), 3600 + 3600);
}

#[test]
fn instants_near_the_ends_of_the_range_have_no_local_day() {
    let last = Timestamp { secs: timey_api::time::MAX_TIMESTAMP, nanos: 0 };
    assert!(!last.within_local_days());
    let first = Timestamp { secs: timey_api::time::MIN_TIMESTAMP, nanos: 0 };
    assert!(!first.within_local_days());
    assert!(ts(12, 0).within_local_days());
}

#[test]
fn dates_are_written_with_padded_fields() {
    assert_eq!(format_date(CivilDate { year: 2026, month: 8, day: 1 }), "2026-08-01");
    assert_eq!(format_date(CivilDate { year: 987, month: 12, day: 31 }), "0987-12-31");
    assert_eq!(format_date(CivilDate { year: 10000, month: 1, day: 5 }), "+10000-01-05");
    assert_eq!(format_date(CivilDate { year: -7, month: 3, day: 9 }), "-0007-03-09");
}
