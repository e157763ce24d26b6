//! What the HTTP API takes and gives: the logged-in user, request bodies, the
//! views of stored rows, and the checks made before a service is called.
use vstd::prelude::*;

use crate::calendar::{format_date, format_rfc3339, utc_rfc3339_text, ymd_text, CivilDate};
use crate::entries::EntryFilters;
use crate::error::{
    fails_as, failure_of, forbidden_failure, internal_failure, unauthorized_failure,
    unprocessable, unprocessable_failure, AppError, AppResult,
};
use crate::models::{
    role_name, role_named, EntryRow, NamedRow, ProjectRow, Role, UserRow, WorkSessionRow,
};
use crate::numbers::{i64_of, parse_i64};
use crate::text::{chars_of, string_from_chars, trim, trimmed};
use crate::work_interval::LabeledInterval;

verus! {

/// The user a request is made for.
#[derive(Debug, Clone)]
pub struct CurrentUser {
    pub id: i64,
    pub username: String,
    pub role: Role,
}

impl CurrentUser {
    /// Admins manage users and projects.
    pub fn is_admin(&self) -> (r: bool)
        ensures
            r == (self.role == Role::Admin),
    {
        match self.role {
            Role::Admin => true,
            Role::User => false,
        }
    }
}

/// Only an admin passes.
pub fn require_admin(user: &CurrentUser) -> (r: AppResult<()>)
    ensures
        fails_as(
            r,
            if user.role == Role::Admin {
                None
            } else {
                Some(forbidden_failure())
            },
        ),
{
    if user.is_admin() {
        Ok(())
    } else {
        Err(AppError::Forbidden)
    }
}

/// The user of a stored account; an unknown stored role is an internal error.
pub fn to_current(user: UserRow) -> (r: AppResult<CurrentUser>)
    ensures
        match role_named(user.role@) {
            Some(role) => r matches Ok(c) && c.id == user.id && c.username == user.username
                && c.role == role,
            None => r matches Err(e) && failure_of(e) == internal_failure("Unbekannte Rolle"@),
        },
{
    let role = match Role::parse(user.role.as_str()) {
        Some(r) => r,
        None => return Err(crate::error::internal("Unbekannte Rolle")),
    };
    Ok(CurrentUser { id: user.id, username: user.username, role })
}

/// The user a live session belongs to: a disabled account is refused like a
/// missing login.
pub fn session_user(user: UserRow) -> (r: AppResult<CurrentUser>)
    ensures
        user.disabled ==> (r matches Err(e) && failure_of(e) == unauthorized_failure()),
        !user.disabled ==> match role_named(user.role@) {
            Some(role) => r matches Ok(c) && c.id == user.id && c.username == user.username
                && c.role == role,
            None => r matches Err(e) && failure_of(e) == internal_failure("Unbekannte Rolle"@),
        },
{
    if user.disabled {
        return Err(AppError::Unauthorized);
    }
    to_current(user)
}

/// The pieces of a text between commas (one empty piece for an empty text).
pub open spec fn comma_pieces(s: Seq<char>) -> Seq<Seq<char>>
    decreases s.len(),
{
    if s.len() == 0 {
        seq![Seq::empty()]
    } else {
        let p = comma_pieces(s.drop_last());
        if s.last() == ',' {
            p.push(Seq::empty())
        } else {
            p.update(p.len() - 1, p.last().push(s.last()))
        }
    }
}

/// The ids the pieces name: each piece trimmed; empty pieces and pieces that
/// are not an `i64` are left out.
pub open spec fn ids_of_pieces(pieces: Seq<Seq<char>>) -> Seq<i64>
    decreases pieces.len(),
{
    if pieces.len() == 0 {
        Seq::empty()
    } else {
        let prev = ids_of_pieces(pieces.drop_last());
        let t = trimmed(pieces.last());
        if t.len() == 0 {
            prev
        } else {
            match i64_of(t) {
                Some(v) => prev.push(v),
                None => prev,
            }
        }
    }
}

proof fn lemma_comma_pieces_nonempty(s: Seq<char>)
    ensures
        comma_pieces(s).len() >= 1,
    decreases s.len(),
{
    if s.len() > 0 {
        lemma_comma_pieces_nonempty(s.drop_last());
    }
}

fn piece_id(out: &mut Vec<i64>, piece: &Vec<char>)
    ensures
        final(out)@ == (if trimmed(piece@).len() == 0 {
            old(out)@
        } else {
            match i64_of(trimmed(piece@)) {
                Some(v) => old(out)@.push(v),
                None => old(out)@,
            }
        }),
{
    let text = string_from_chars(piece.as_slice());
    let t = trim(text.as_str());
    if t.is_empty() {
        return;
    }
    if let Some(v) = parse_i64(t) {
        out.push(v);
    }
}

/// Reads a comma-separated list of ids, skipping empty and unreadable pieces.
pub fn parse_ids(raw: &str) -> (r: Vec<i64>)
    ensures
        r@ == ids_of_pieces(comma_pieces(raw@)),
{
    let chars = chars_of(raw);
    let mut out: Vec<i64> = Vec::new();
    let mut current: Vec<char> = Vec::new();
    let ghost mut done: Seq<Seq<char>> = Seq::empty();
    let mut i: usize = 0;
    while i < chars.len()
        invariant
            chars@ == raw@,
            i <= chars@.len(),
            comma_pieces(raw@.take(i as int)) == done.push(current@),
            out@ == ids_of_pieces(done),
        decreases chars@.len() - i,
    {
        proof {
            assert(raw@.take(i + 1).drop_last() == raw@.take(i as int));
            assert(raw@.take(i + 1).last() == raw@[i as int]);
            lemma_comma_pieces_nonempty(raw@.take(i as int));
        }
        let c = chars[i];
        if c == ',' {
            let ghost before = out@;
            piece_id(&mut out, &current);
            proof {
                assert(done.push(current@).drop_last() == done);
                done = done.push(current@);
            }
            current = Vec::new();
            assert(done.push(current@) == comma_pieces(raw@.take(i + 1)));
        } else {
            current.push(c);
            proof {
                let p = comma_pieces(raw@.take(i as int));
                assert(p.update(p.len() - 1, p.last().push(c)) == done.push(current@));
            }
        }
        i += 1;
    }
    proof {
        assert(raw@.take(chars@.len() as int) == raw@);
        assert(done.push(current@).drop_last() == done);
    }
    piece_id(&mut out, &current);
    out
}

/// The query of the entry list: ids of tasks and projects, comma separated.
pub struct ListParams {
    pub from: CivilDate,
    pub to: CivilDate,
    pub task_ids: String,
    pub project_ids: String,
}

/// The filters a list query asks for.
pub fn parse_filters(params: &ListParams) -> (r: EntryFilters)
    ensures
        r.task_ids@ == ids_of_pieces(comma_pieces(params.task_ids@)),
        r.project_ids@ == ids_of_pieces(comma_pieces(params.project_ids@)),
{
    EntryFilters {
        task_ids: parse_ids(params.task_ids.as_str()),
        project_ids: parse_ids(params.project_ids.as_str()),
    }
}

/// The body of a task change.
pub struct PatchTaskBody {
    pub name: Option<String>,
    pub archived: Option<bool>,
    pub color: Option<String>,
}

impl PatchTaskBody {
    /// A change must name something to change.
    pub fn ensure_any(&self) -> (r: AppResult<()>)
        ensures
            fails_as(
                r,
                if self.name is None && self.archived is None && self.color is None {
                    Some(unprocessable_failure("name, archived oder color ist erforderlich"@))
                } else {
                    None
                },
            ),
    {
        if self.name.is_none() && self.archived.is_none() && self.color.is_none() {
            return Err(unprocessable("name, archived oder color ist erforderlich"));
        }
        Ok(())
    }
}

/// The body that stops the timer: the task (required) and project of the entry.
#[derive(Debug, Clone, Copy)]
pub struct StopBody {
    pub task_id: i64,
    pub project_id: Option<i64>,
}

impl StopBody {
    /// The task id 0 names no task.
    pub fn ensure_task(&self) -> (r: AppResult<()>)
        ensures
            fails_as(
                r,
                if self.task_id == 0 {
                    Some(unprocessable_failure("Task ist erforderlich"@))
                } else {
                    None
                },
            ),
    {
        if self.task_id == 0 {
            return Err(unprocessable("Task ist erforderlich"));
        }
        Ok(())
    }
}

/// The body of a login.
pub struct LoginRequest {
    pub username: String,
    pub password: String,
}

/// Local login is refused while it is switched off.
pub fn ensure_local_login(enabled: bool) -> (r: AppResult<()>)
    ensures
        fails_as(
            r,
            if enabled {
                None
            } else {
                Some(unprocessable_failure("Lokales Login ist deaktiviert"@))
            },
        ),
{
    if !enabled {
        return Err(unprocessable("Lokales Login ist deaktiviert"));
    }
    Ok(())
}

/// Which logins the service offers.
#[derive(Debug, Clone, Copy)]
pub struct AuthConfig {
    pub local: bool,
    pub oidc: bool,
}

/// The answer of the health checks.
pub struct Health {
    pub status: String,
}

impl Health {
    /// The service answers.
    pub fn ok() -> (r: Self)
        ensures
            r.status@ == "ok"@,
    {
        Health { status: String::from_str("ok") }
    }
}

/// The lifetime of the session cookie, in seconds: the session's, or the
/// largest `i64` when that is larger.
pub fn cookie_max_age(ttl_secs: u64) -> (r: i64)
    ensures
        r == (if ttl_secs <= i64::MAX {
            ttl_secs as int
        } else {
            i64::MAX as int
        }),
{
    if ttl_secs <= 9223372036854775807 {
        ttl_secs as i64
    } else {
        i64::MAX
    }
}

/// A user as shown to the user: id, name and role.
pub struct UserView {
    pub id: i64,
    pub username: String,
    pub role: String,
}

impl UserView {
    /// The view of a stored account.
    pub fn from_row(user: &UserRow) -> (r: Self)
        ensures
            r.id == user.id,
            r.username@ == user.username@,
            r.role@ == user.role@,
    {
        UserView { id: user.id, username: user.username.clone(), role: user.role.clone() }
    }

    /// The view of the logged-in user.
    pub fn from_current(user: &CurrentUser) -> (r: Self)
        ensures
            r.id == user.id,
            r.username@ == user.username@,
            r.role@ == role_name(user.role),
    {
        UserView {
            id: user.id,
            username: user.username.clone(),
            role: String::from_str(user.role.as_str()),
        }
    }
}

/// An account as an admin sees it.
pub struct AdminUserView {
    pub id: i64,
    pub username: String,
    pub role: String,
    pub disabled: bool,
    pub auth_provider: String,
}

impl AdminUserView {
    /// The admin's view of an account; the password hash stays out.
    pub fn from_row(user: UserRow) -> (r: Self)
        ensures
            r.id == user.id,
            r.username == user.username,
            r.role == user.role,
            r.disabled == user.disabled,
            r.auth_provider == user.auth_provider,
    {
        AdminUserView {
            id: user.id,
            username: user.username,
            role: user.role,
            disabled: user.disabled,
            auth_provider: user.auth_provider,
        }
    }
}

/// The body that creates an account.
pub struct CreateUserRequest {
    pub username: String,
    pub password: String,
    pub role: Role,
}

/// The body that changes an account.
pub struct UpdateUserRequest {
    pub password: Option<String>,
    pub role: Option<Role>,
    pub disabled: Option<bool>,
}

/// The query of a catalog list.
#[derive(Debug, Clone, Copy)]
pub struct ListQuery {
    pub include_archived: bool,
    pub include_system: bool,
}

impl Default for ListQuery {
    fn default() -> (r: Self)
        ensures
            !r.include_archived,
            !r.include_system,
    {
        ListQuery { include_archived: false, include_system: false }
    }
}

/// The body that names a project or task.
pub struct NameBody {
    pub name: String,
}

/// The body that archives or restores a project.
#[derive(Debug, Clone, Copy)]
pub struct ArchiveBody {
    pub archived: bool,
}

/// A project as shown.
pub struct ProjectView {
    pub id: i64,
    pub name: String,
    pub archived: bool,
}

impl ProjectView {
    /// The view of a stored project.
    pub fn from_row(row: ProjectRow) -> (r: Self)
        ensures
            r.id == row.id,
            r.name == row.name,
            r.archived == row.archived,
    {
        ProjectView { id: row.id, name: row.name, archived: row.archived }
    }
}

/// A task as shown; `system` marks the built-in task.
pub struct NamedView {
    pub id: i64,
    pub name: String,
    pub archived: bool,
    pub system: bool,
    pub color: String,
}

impl NamedView {
    /// The view of a stored task.
    pub fn from_row(row: NamedRow) -> (r: Self)
        ensures
            r.id == row.id,
            r.name == row.name,
            r.archived == row.archived,
            r.system == row.is_system,
            r.color == row.color,
    {
        NamedView {
            id: row.id,
            name: row.name,
            archived: row.archived,
            system: row.is_system,
            color: row.color,
        }
    }
}

/// A time entry as shown.
pub struct EntryView {
    pub id: i64,
    pub task_id: Option<i64>,
    pub project_id: Option<i64>,
    pub task_name: Option<String>,
    pub project_name: Option<String>,
    pub start_at: String,
    pub end_at: Option<String>,
    pub status: String,
}

impl EntryView {
    /// The view of a stored entry.
    pub fn from_row(row: EntryRow) -> (r: Self)
        ensures
            r.id == row.id,
            r.task_id == row.task_id,
            r.project_id == row.project_id,
            r.task_name == row.task_name,
            r.project_name == row.project_name,
            r.start_at == row.start_at,
            r.end_at == row.end_at,
            r.status == row.status,
    {
        EntryView {
            id: row.id,
            task_id: row.task_id,
            project_id: row.project_id,
            task_name: row.task_name,
            project_name: row.project_name,
            start_at: row.start_at,
            end_at: row.end_at,
            status: row.status,
        }
    }
}

/// A work interval as shown.
pub struct WorkIntervalView {
    pub id: i64,
    pub start_at: String,
    pub end_at: String,
    pub open: bool,
}

impl WorkIntervalView {
    /// The view of an interval: its bounds in RFC 3339.
    pub fn from_interval(interval: &LabeledInterval) -> (r: Self)
        requires
            interval.start.wf(),
            interval.end.wf(),
        ensures
            r.id == interval.id,
            r.start_at@ == utc_rfc3339_text(interval.start),
            r.end_at@ == utc_rfc3339_text(interval.end),
            r.open == interval.open,
    {
        WorkIntervalView {
            id: interval.id,
            start_at: format_rfc3339(interval.start),
            end_at: format_rfc3339(interval.end),
            open: interval.open,
        }
    }
}

/// The work of the current day as shown.
pub struct WorkView {
    pub session_id: Option<i64>,
    pub status: Option<String>,
    pub local_date: String,
    pub elapsed_seconds: i64,
}

impl WorkView {
    /// The view of the day's open session (if any), its day and the worked seconds.
    pub fn from_snapshot(
        session: &Option<WorkSessionRow>,
        local_date: CivilDate,
        elapsed_seconds: i64,
    ) -> (r: Self)
        requires
            local_date.in_range(),
        ensures
            r.session_id == (match session {
                Some(s) => Some(s.id),
                None => None::<i64>,
            }),
            r.status == (match session {
                Some(s) => Some(s.status),
                None => None::<String>,
            }),
            r.local_date@ == ymd_text(local_date),
            r.elapsed_seconds == elapsed_seconds,
    {
        let (session_id, status) = match session {
            Some(s) => (Some(s.id), Some(s.status.clone())),
            None => (None, None),
        };
        WorkView { session_id, status, local_date: format_date(local_date), elapsed_seconds }
    }
}

/// A day of work as shown: its intervals and worked seconds.
pub struct WorkDayView {
    pub local_date: String,
    pub elapsed_seconds: i64,
    pub intervals: Vec<WorkIntervalView>,
}

impl WorkDayView {
    /// The view of a day.
    pub fn from_day(local_date: CivilDate, elapsed_seconds: i64, intervals: &[LabeledInterval]) -> (r:
        Self)
        requires
            local_date.in_range(),
            forall|i: int|
                0 <= i < intervals@.len() ==> (#[trigger] intervals@[i]).start.wf()
                    && intervals@[i].end.wf(),
        ensures
            r.local_date@ == ymd_text(local_date),
            r.elapsed_seconds == elapsed_seconds,
            r.intervals@.len() == intervals@.len(),
            forall|i: int|
                0 <= i < intervals@.len() ==> (#[trigger] r.intervals@[i]).id == intervals@[i].id
                    && r.intervals@[i].start_at@ == utc_rfc3339_text(intervals@[i].start)
                    && r.intervals@[i].end_at@ == utc_rfc3339_text(intervals@[i].end)
                    && r.intervals@[i].open == intervals@[i].open,
    {
        let mut views: Vec<WorkIntervalView> = Vec::new();
        let mut i: usize = 0;
        while i < intervals.len()
            invariant
                i <= intervals@.len(),
                views@.len() == i,
                forall|k: int|
                    0 <= k < intervals@.len() ==> (#[trigger] intervals@[k]).start.wf()
                        && intervals@[k].end.wf(),
                forall|k: int|
                    0 <= k < i ==> (#[trigger] views@[k]).id == intervals@[k].id
                        && views@[k].start_at@ == utc_rfc3339_text(intervals@[k].start)
                        && views@[k].end_at@ == utc_rfc3339_text(intervals@[k].end)
                        && views@[k].open == intervals@[k].open,
            decreases intervals@.len() - i,
        {
            views.push(WorkIntervalView::from_interval(&intervals[i]));
            i += 1;
        }
        WorkDayView { local_date: format_date(local_date), elapsed_seconds, intervals: views }
    }
}

} // verus!
