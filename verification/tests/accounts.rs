use chrono::{TimeZone, Utc};
use timey_api::catalogs::{
    check_task_archiving, check_task_deletion, default_tasks, filter_projects, filter_tasks,
    missing_default_tasks, plan_rename, plan_task_color, reject_system_mutation, validate_name,
};
use timey_api::config::{
    cookie_name, database_url, env_flag, is_memory_db, max_connections, session_ttl_seconds,
    sqlite_file_path,
};
use timey_api::crypto::{generate_session_token, hash_password, hash_session_token, verify_password};
use timey_api::default_view::DefaultView;
use timey_api::error::AppError;
use timey_api::http::{
    cookie_max_age, ensure_local_login, parse_filters, parse_ids, require_admin, session_user,
    to_current, AdminUserView, CurrentUser, EntryView, Health, ListParams, ListQuery, NamedView,
    PatchTaskBody, ProjectView, StopBody, UserView, WorkDayView, WorkView,
};
use timey_api::calendar::CivilDate;
use timey_api::models::{EntryRow, NamedRow, ProjectRow, Role, UserRow, WorkSessionRow};
use timey_api::numbers::{parse_i64, parse_u64};
use timey_api::sessions::{check_session, open_session, session_expiry, SessionCheck};
use timey_api::settings::{default_settings, update_settings, PatchSettings, SettingsRow, SettingsView};
use timey_api::time::Timestamp;
use timey_api::users::{
    apply_user_update, authenticate, needs_bootstrap, plan_new_user, plan_user_update,
    validate_password, validate_username,
};
use timey_api::work_duration::WorkEventKind;
use timey_api::work_interval::{labeled_intervals, WorkEventRecord};

fn at(dt: chrono::DateTime<Utc>) -> Timestamp {
    Timestamp { secs: dt.timestamp(), nanos: dt.timestamp_subsec_nanos() }
}

fn ts(hour: u32, minute: u32) -> Timestamp {
    at(Utc.with_ymd_and_hms(2026, 8, 21, hour, minute, 0).single().expect("valid utc"))
}

fn task(id: i64, name: &str, archived: bool, is_system: bool) -> NamedRow {
    NamedRow {
        id,
        user_id: 1,
        name: name.into(),
        archived,
        is_system,
        color: "#3f9d6c".into(),
        created_at: "2026-08-01T00:00:00+00:00".into(),
    }
}

fn user(role: &str, hash: Option<String>, disabled: bool, provider: &str) -> UserRow {
    UserRow {
        id: 3,
        username: "enrico".into(),
        password_hash: hash,
        auth_provider: provider.into(),
        oidc_subject: None,
        role: role.into(),
        disabled,
        created_at: "2026-08-01T00:00:00+00:00".into(),
    }
}

#[test]
fn names_are_trimmed_and_bounded() {
    assert_eq!(validate_name("  Kunde XYZ "), Ok("Kunde XYZ".to_string()));
    let message = "Name muss zwischen 1 und 120 Zeichen haben";
    assert_eq!(validate_name("   "), Err(AppError::Unprocessable(message.into())));
    assert_eq!(validate_name(&"x".repeat(121)), Err(AppError::Unprocessable(message.into())));
    assert_eq!(validate_name(&"x".repeat(120)).map(|s| s.len()), Ok(120));
    assert_eq!(validate_name(&"ä".repeat(61)), Err(AppError::Unprocessable(message.into())));
}

#[test]
fn reserved_task_name_is_unprocessable() {
    assert_eq!(
        validate_name("  Unbestimmt  "),
        Err(AppError::Unprocessable("Name ist reserviert".into()))
    );
    let coding = task(1, "Coding", false, false);
    assert_eq!(
        plan_rename(&Some(coding), "unbestimmt"),
        Err(AppError::Unprocessable("Name ist reserviert".into()))
    );
}

#[test]
fn patch_task_renames() {
    assert_eq!(plan_rename(&Some(task(1, "Coding", false, false)), "Coding reviewen"), Ok("Coding reviewen".to_string()));
}

#[test]
fn patch_task_empty_name_is_unprocessable() {
    assert_eq!(plan_rename(&Some(task(1, "Coding", false, false)), "   ").map_err(|e| e.status()), Err(422));
}

#[test]
fn patch_task_empty_body_is_unprocessable() {
    let body = PatchTaskBody { name: None, archived: None, color: None };
    assert_eq!(
        body.ensure_any(),
        Err(AppError::Unprocessable("name, archived oder color ist erforderlich".into()))
    );
    let body = PatchTaskBody { name: None, archived: Some(true), color: None };
    assert_eq!(body.ensure_any(), Ok(()));
}

#[test]
fn patch_task_foreign_id_is_not_found() {
    assert_eq!(plan_rename(&None, "Fremd"), Err(AppError::NotFound));
    assert_eq!(check_task_archiving(&None), Err(AppError::NotFound));
}

#[test]
fn patch_system_task_is_conflict() {
    let system = task(9, "unbestimmt", false, true);
    let conflict = Err(AppError::Conflict("interner Task kann nicht verändert werden".into()));
    assert_eq!(reject_system_mutation(&system), conflict.clone());
    assert_eq!(plan_rename(&Some(system.clone()), "anders").map(|_| ()), conflict.clone());
    assert_eq!(check_task_archiving(&Some(system)), conflict);
}

#[test]
fn delete_system_task_is_conflict() {
    assert_eq!(
        check_task_deletion(&Some(task(9, "unbestimmt", false, true))),
        Err(AppError::Conflict("interner Task kann nicht gelöscht werden".into()))
    );
    assert_eq!(check_task_deletion(&Some(task(1, "Coding", false, false))), Ok(()));
    assert_eq!(check_task_deletion(&None), Err(AppError::NotFound));
}

#[test]
fn task_color_is_normalized() {
    let coding = Some(task(1, "Coding", false, false));
    assert_eq!(plan_task_color(&coding, "#ABCDEF"), Ok("#abcdef".to_string()));
    assert_eq!(
        plan_task_color(&coding, "blau"),
        Err(AppError::Unprocessable("Farbe muss im Format #RRGGBB angegeben werden".into()))
    );
    assert_eq!(plan_task_color(&None, "#abcdef"), Err(AppError::NotFound));
}

#[test]
fn list_tasks_hides_system_unless_requested() {
    let rows = vec![
        task(1, "Coding", false, false),
        task(2, "Alt", true, false),
        task(3, "unbestimmt", false, true),
    ];
    let ids = |v: Vec<NamedRow>| v.iter().map(|t| t.id).collect::<Vec<_>>();
    assert_eq!(ids(filter_tasks(rows.clone(), false, false)), vec![1]);
    assert_eq!(ids(filter_tasks(rows.clone(), true, false)), vec![1, 2]);
    assert_eq!(ids(filter_tasks(rows.clone(), false, true)), vec![1, 3]);
    assert_eq!(ids(filter_tasks(rows, true, true)), vec![1, 2, 3]);
}

#[test]
fn archived_projects_show_on_request() {
    let p = |id: i64, archived: bool| ProjectRow {
        id,
        name: "P".into(),
        archived,
        created_by: 1,
        created_at: "2026-08-01T00:00:00+00:00".into(),
    };
    assert_eq!(filter_projects(vec![p(1, false), p(2, true)], false).len(), 1);
    assert_eq!(filter_projects(vec![p(1, false), p(2, true)], true).len(), 2);
}

#[test]
fn admin_can_create_user_and_seed_tasks() {
    let all: Vec<&str> = default_tasks();
    assert_eq!(all, vec!["Meeting", "E-Mail", "Coding", "Termin", "Feature", "Qualitätssicherung", "Wartung"]);
    assert_eq!(missing_default_tasks(&[]), all);
}

#[test]
fn default_task_seed_fills_missing_names_without_duplicates() {
    let existing: Vec<String> = ["Meeting", "E-Mail", "Coding", "Termin", "Qualitätssicherung", "Wartung"]
        .iter()
        .map(|s| s.to_string())
        .collect();
    assert_eq!(missing_default_tasks(&existing), vec!["Feature"]);
    let mut seeded = existing.clone();
    seeded.push("Feature".to_string());
    assert!(missing_default_tasks(&seeded).is_empty());
}

#[test]
fn usernames_are_checked() {
    assert_eq!(validate_username(" enrico "), Ok("enrico".to_string()));
    assert_eq!(validate_username("a.b_c-9"), Ok("a.b_c-9".to_string()));
    assert_eq!(
        validate_username(""),
        Err(AppError::Unprocessable("Benutzername muss zwischen 1 und 64 Zeichen haben".into()))
    );
    assert_eq!(
        validate_username(&"a".repeat(65)),
        Err(AppError::Unprocessable("Benutzername muss zwischen 1 und 64 Zeichen haben".into()))
    );
    assert_eq!(
        validate_username("en rico"),
        Err(AppError::Unprocessable(
            "Benutzername darf nur Buchstaben, Zahlen, Punkt, Unterstrich und Bindestrich enthalten".into()
        ))
    );
}

#[test]
fn passwords_need_eight_bytes() {
    assert_eq!(
        validate_password("kurz"),
        Err(AppError::Unprocessable("Passwort muss mindestens 8 Zeichen haben".into()))
    );
    assert_eq!(validate_password("password1"), Ok(()));
}

#[test]
fn password_roundtrip_succeeds() {
    let hash = hash_password("geheim-123").expect("hash");
    assert!(verify_password("geheim-123", &hash).expect("verify"));
    assert!(!verify_password("wrong", &hash).expect("verify"));
}

#[test]
fn unreadable_hash_is_internal_error() {
    let err = verify_password("x", "kein-hash").expect_err("unreadable");
    match err {
        AppError::Internal(m) => assert!(m.starts_with("Passwort-Hash ungültig: ")),
        other => panic!("unexpected {other:?}"),
    }
}

#[test]
fn session_token_hash_is_stable() {
    let token = generate_session_token();
    assert_eq!(hash_session_token(&token), hash_session_token(&token));
    assert_ne!(hash_session_token(&token), hash_session_token("other"));
}

#[test]
fn session_tokens_are_hex() {
    let token = generate_session_token();
    assert_eq!(token.len(), 64);
    assert!(token.chars().all(|c| c.is_ascii_hexdigit() && !c.is_ascii_uppercase()));
    assert_eq!(
        hash_session_token("abc"),
        "ba7816bf8f01cfea414140de5dae2223b00361a396177a9cb410ff61f20015ad"
    );
}

#[test]
fn login_and_me_roundtrip() {
    let hash = hash_password("password1").expect("hash");
    let account = user("admin", Some(hash), false, "local");
    let logged_in = authenticate(Some(account), "password1").expect("login");
    assert_eq!(logged_in.username, "enrico");
    let current = to_current(logged_in).expect("current");
    assert_eq!(current.role, Role::Admin);
    let view = UserView::from_current(&current);
    assert_eq!((view.username.as_str(), view.role.as_str()), ("enrico", "admin"));
}

#[test]
fn login_refusals() {
    let hash = hash_password("password1").expect("hash");
    assert_eq!(authenticate(None, "password1").map(|u| u.id), Err(AppError::Unauthorized));
    assert_eq!(
        authenticate(Some(user("user", Some(hash.clone()), true, "local")), "password1").map(|u| u.id),
        Err(AppError::Forbidden)
    );
    assert_eq!(
        authenticate(Some(user("user", Some(hash.clone()), false, "oidc")), "password1").map(|u| u.id),
        Err(AppError::Unprocessable("Dieser Benutzer kann sich nicht lokal anmelden".into()))
    );
    assert_eq!(
        authenticate(Some(user("user", None, false, "local")), "password1").map(|u| u.id),
        Err(AppError::Unauthorized)
    );
    assert_eq!(
        authenticate(Some(user("user", Some(hash), false, "local")), "falsch123").map(|u| u.id),
        Err(AppError::Unauthorized)
    );
    assert_eq!(
        ensure_local_login(false),
        Err(AppError::Unprocessable("Lokales Login ist deaktiviert".into()))
    );
}

#[test]
fn new_user_is_checked_then_hashed() {
    let (name, hash) = plan_new_user(" enrico ", "password1").expect("new user");
    assert_eq!(name, "enrico");
    assert!(verify_password("password1", &hash).expect("verify"));
    assert_eq!(
        plan_new_user("enrico", "kurz").map(|_| ()),
        Err(AppError::Unprocessable("Passwort muss mindestens 8 Zeichen haben".into()))
    );
}

#[test]
fn admin_changes_account() {
    let account = user("user", None, false, "local");
    let changed = apply_user_update(account, None, Some(Role::Admin), Some(true));
    assert_eq!((changed.role.as_str(), changed.disabled), ("admin", true));
    let updated = plan_user_update(Some(user("user", None, false, "local")), Some("neues-passwort"), None, None)
        .expect("updated");
    assert!(verify_password("neues-passwort", updated.password_hash.as_deref().expect("hash")).expect("verify"));
    assert_eq!(plan_user_update(None, None, None, None).map(|u| u.id), Err(AppError::NotFound));
    assert!(needs_bootstrap(0));
    assert!(!needs_bootstrap(1));
}

#[test]
fn non_admin_cannot_create_users() {
    let plain = CurrentUser { id: 2, username: "enrico".into(), role: Role::User };
    assert!(!plain.is_admin());
    assert_eq!(require_admin(&plain), Err(AppError::Forbidden));
    let admin = CurrentUser { id: 1, username: "admin".into(), role: Role::Admin };
    assert_eq!(require_admin(&admin), Ok(()));
}

#[test]
fn disabled_account_is_logged_out() {
    assert_eq!(session_user(user("user", None, true, "local")).map(|c| c.id), Err(AppError::Unauthorized));
    assert_eq!(
        session_user(user("boss", None, false, "local")).map(|c| c.id),
        Err(AppError::Internal("Unbekannte Rolle".into()))
    );
}

#[test]
fn sessions_expire_after_their_lifetime() {
    let now = ts(10, 0);
    assert_eq!(session_expiry(now, 3600), Ok(ts(11, 0)));
    assert_eq!(
        session_expiry(now, 9_223_372_036_854_776),
        Err(AppError::Internal("SESSION_TTL ungültig".into()))
    );
    let leap = Timestamp { secs: now.secs - 1, nanos: 1_500_000_000 };
    assert_eq!(session_expiry(leap, 10), Ok(Timestamp { secs: now.secs + 9, nanos: 500_000_000 }));
    let session = open_session(now, 3600).expect("session");
    assert_eq!(session.token_hash, hash_session_token(&session.token));
    assert_eq!(session.expires_at, ts(11, 0));
}

#[test]
fn me_without_cookie_is_unauthorized() {
    let now = ts(10, 0);
    assert_eq!(check_session(&None, now), Err(AppError::Unauthorized));
    assert_eq!(check_session(&Some((3, "2026-08-21T11:00:00+00:00".to_string())), now), Ok(SessionCheck::Active(3)));
    assert_eq!(check_session(&Some((3, "2026-08-21T10:00:00+00:00".to_string())), now), Ok(SessionCheck::Expired));
    assert_eq!(
        check_session(&Some((3, "bald".to_string())), now),
        Err(AppError::Internal("Session-Ablauf ungültig".into()))
    );
}

#[test]
fn settings_default_after_login() {
    let view = SettingsView::from_settings(default_settings());
    assert_eq!(view.work_start, "07:30");
    assert_eq!(view.work_end, "16:15");
    assert_eq!(view.default_view, "day");
    assert_eq!(view.slot_minutes, None);
    assert_eq!(view.default_task_id, None);
}

#[test]
fn settings_patch_roundtrip() {
    let updated = update_settings(default_settings(), "08:00", "17:00", Some("week"), Some(Some(30)), None)
        .expect("updated");
    let row = timey_api::settings::settings_row(&updated);
    assert_eq!(row.into_settings(), Ok(updated));
    let view = SettingsView::from_settings(updated);
    assert_eq!((view.work_start.as_str(), view.work_end.as_str(), view.default_view.as_str()), ("08:00", "17:00", "week"));
    assert_eq!(view.slot_minutes, Some(30));
}

#[test]
fn settings_patch_rejects_invalid_range() {
    assert_eq!(
        update_settings(default_settings(), "16:15", "07:30", None, None, None),
        Err(AppError::Unprocessable("Beginn muss vor dem Ende liegen".into()))
    );
}

#[test]
fn settings_patch_rejects_invalid_format() {
    assert_eq!(
        update_settings(default_settings(), "7:30", "16:15", None, None, None),
        Err(AppError::Unprocessable("Arbeitszeit muss im Format HH:MM angegeben werden".into()))
    );
}

#[test]
fn settings_patch_rejects_invalid_default_view() {
    assert_eq!(
        update_settings(default_settings(), "08:00", "17:00", Some("month"), None, None),
        Err(AppError::Unprocessable("Standardansicht muss day oder week sein".into()))
    );
}

#[test]
fn settings_patch_without_default_view_keeps_stored_value() {
    let weekly = update_settings(default_settings(), "08:00", "17:00", Some("week"), Some(Some(15)), Some(Some(4)))
        .expect("week");
    let again = update_settings(weekly, "09:00", "18:00", None, None, None).expect("again");
    assert_eq!(again.default_view, DefaultView::Week);
    assert_eq!(again.slot_minutes.stored(), Some(15));
    assert_eq!(again.default_task_id.stored(), Some(4));
    let cleared = update_settings(again, "09:00", "18:00", None, Some(None), Some(None)).expect("cleared");
    assert_eq!(cleared.slot_minutes.stored(), None);
    assert_eq!(cleared.default_task_id.stored(), None);
}

#[test]
fn stored_settings_that_cannot_be_read_are_internal() {
    let row = SettingsRow {
        work_start_minutes: 450,
        work_end_minutes: 975,
        default_view: "month".into(),
        slot_minutes: None,
        default_task_id: None,
    };
    assert_eq!(row.into_settings(), Err(AppError::Internal("ungültige Standardansicht: month".into())));
    let row = SettingsRow {
        work_start_minutes: 975,
        work_end_minutes: 450,
        default_view: "day".into(),
        slot_minutes: None,
        default_task_id: None,
    };
    assert_eq!(row.into_settings(), Err(AppError::Internal("Beginn muss vor dem Ende liegen".into())));
}

#[test]
fn ids_are_read_from_comma_lists() {
    assert_eq!(parse_ids("1, 2,,x,3 "), vec![1, 2, 3]);
    assert_eq!(parse_ids(""), Vec::<i64>::new());
    assert_eq!(parse_ids("-4,+5"), vec![-4, 5]);
    let params = ListParams {
        from: CivilDate { year: 2026, month: 8, day: 21 },
        to: CivilDate { year: 2026, month: 8, day: 21 },
        task_ids: "7".into(),
        project_ids: "".into(),
    };
    let filters = parse_filters(&params);
    assert_eq!((filters.task_ids, filters.project_ids), (vec![7], vec![]));
}

#[test]
fn numbers_are_read_like_rust() {
    assert_eq!(parse_i64("9223372036854775807"), Some(i64::MAX));
    assert_eq!(parse_i64("-9223372036854775808"), Some(i64::MIN));
    assert_eq!(parse_i64("9223372036854775808"), None);
    assert_eq!(parse_i64("-"), None);
    assert_eq!(parse_i64("1 "), None);
    assert_eq!(parse_u64("+12"), Some(12));
    assert_eq!(parse_u64("-0"), None);
    assert_eq!(parse_u64("18446744073709551616"), None);
}

#[test]
fn play_timer_starts_without_task_and_stop_requires_task() {
    assert_eq!(
        StopBody { task_id: 0, project_id: None }.ensure_task(),
        Err(AppError::Unprocessable("Task ist erforderlich".into()))
    );
    assert_eq!(StopBody { task_id: 7, project_id: None }.ensure_task(), Ok(()));
}

#[test]
fn views_copy_rows() {
    let entry = EntryRow {
        id: 1,
        user_id: 1,
        task_id: Some(7),
        project_id: None,
        start_at: "2026-08-21T08:00:00+00:00".into(),
        end_at: None,
        status: "running".into(),
        created_at: "2026-08-21T08:00:00+00:00".into(),
        task_name: Some("Coding".into()),
        project_name: None,
    };
    let view = EntryView::from_row(entry);
    assert_eq!((view.id, view.task_id, view.status.as_str()), (1, Some(7), "running"));
    let named = NamedView::from_row(task(9, "unbestimmt", false, true));
    assert!(named.system);
    let project = ProjectView::from_row(ProjectRow {
        id: 2,
        name: "Kunde XYZ".into(),
        archived: false,
        created_by: 1,
        created_at: "2026-08-01T00:00:00+00:00".into(),
    });
    assert_eq!(project.name, "Kunde XYZ");
    let admin_view = AdminUserView::from_row(user("user", Some("h".into()), false, "local"));
    assert_eq!((admin_view.role.as_str(), admin_view.auth_provider.as_str()), ("user", "local"));
    assert_eq!(UserView::from_row(&user("user", None, false, "local")).role, "user");
    assert_eq!(Health::ok().status, "ok");
    let query = ListQuery::default();
    assert!(!query.include_archived && !query.include_system);
}

#[test]
fn work_views_show_days_and_times() {
    let date = CivilDate { year: 2026, month: 8, day: 21 };
    let session = WorkSessionRow {
        id: 5,
        user_id: 1,
        local_date: "2026-08-21".into(),
        status: "running".into(),
        created_at: "2026-08-21T06:00:00+00:00".into(),
    };
    let view = WorkView::from_snapshot(&Some(session), date, 120);
    assert_eq!(view.local_date, "2026-08-21");
    assert_eq!((view.session_id, view.status.as_deref()), (Some(5), Some("running")));
    let events = [WorkEventRecord { id: 1, kind: WorkEventKind::Started, at: ts(8, 0) }];
    let intervals = labeled_intervals(5, &events, ts(9, 0));
    let day = WorkDayView::from_day(date, 3600, &intervals);
    assert_eq!(day.intervals.len(), 1);
    assert_eq!(day.intervals[0].start_at, "2026-08-21T08:00:00+00:00");
    assert!(day.intervals[0].open);
}

#[test]
fn config_flags_and_database() {
    assert!(env_flag(Some("1"), false));
    assert!(env_flag(Some("TRUE"), false));
    assert!(!env_flag(Some("yes"), true));
    assert!(env_flag(None, true));
    assert_eq!(session_ttl_seconds(None), 12 * 3600);
    assert_eq!(session_ttl_seconds(Some("2")), 7200);
    assert_eq!(session_ttl_seconds(Some("x")), 12 * 3600);
    assert_eq!(session_ttl_seconds(Some("18446744073709551615")), u64::MAX);
    assert_eq!(database_url(None), "sqlite://data/timey.db");
    assert_eq!(cookie_name(), "timey_session");
    assert!(is_memory_db("sqlite::memory:"));
    assert!(is_memory_db("sqlite://x?mode=memory"));
    assert!(!is_memory_db("sqlite://data/timey.db"));
    assert_eq!(max_connections("sqlite::memory:"), 1);
    assert_eq!(max_connections("sqlite://data/timey.db"), 5);
    assert_eq!(sqlite_file_path("sqlite://data/timey.db"), Some("data/timey.db".to_string()));
    assert_eq!(sqlite_file_path("sqlite:data.db"), Some("data.db".to_string()));
    assert_eq!(sqlite_file_path("sqlite::memory:"), None);
    assert_eq!(sqlite_file_path("postgres://x"), None);
    assert_eq!(cookie_max_age(3600), 3600);
    assert_eq!(cookie_max_age(u64::MAX), i64::MAX);
}

#[test]
fn settings_are_isolated_per_user() {
    let patch = PatchSettings {
        work_start: "09:00".into(),
        work_end: "18:00".into(),
        default_view: None,
        slot_minutes: None,
        default_task_id: None,
    };
    let changed = patch.apply_to(default_settings()).expect("changed");
    assert_eq!(changed.hours.start_minutes, 540);
    let other = default_settings();
    let view = SettingsView::from_settings(other);
    assert_eq!((view.work_start.as_str(), view.work_end.as_str(), view.default_view.as_str()), ("07:30", "16:15", "day"));
}
