//! Stored records and the names under which their states are stored.
use vstd::prelude::*;

use crate::text::str_equals;

verus! {

/// The role of a user.
#[derive(Debug, Clone, Copy, PartialEq, Eq, Structural)]
pub enum Role {
    Admin,
    User,
}

/// Stored name of a role.
pub open spec fn role_name(r: Role) -> Seq<char> {
    match r {
        Role::Admin => "admin"@,
        Role::User => "user"@,
    }
}

/// The role stored under a name.
pub open spec fn role_named(value: Seq<char>) -> Option<Role> {
    if value == "admin"@ {
        Some(Role::Admin)
    } else if value == "user"@ {
        Some(Role::User)
    } else {
        None
    }
}

impl Role {
    /// The stored name.
    pub fn as_str(self) -> (r: &'static str)
        ensures
            r@ == role_name(self),
    {
        match self {
            Role::Admin => "admin",
            Role::User => "user",
        }
    }

    /// The role named `admin` or `user`.
    pub fn parse(value: &str) -> (r: Option<Self>)
        ensures
            r == role_named(value@),
    {
        if str_equals(value, "admin") {
            Some(Role::Admin)
        } else if str_equals(value, "user") {
            Some(Role::User)
        } else {
            None
        }
    }
}

/// The state of a time entry.
#[derive(Debug, Clone, Copy, PartialEq, Eq, Structural)]
pub enum EntryStatus {
    Running,
    Complete,
    NeedsTask,
}

/// Stored name of an entry state.
pub open spec fn entry_status_name(s: EntryStatus) -> Seq<char> {
    match s {
        EntryStatus::Running => "running"@,
        EntryStatus::Complete => "complete"@,
        EntryStatus::NeedsTask => "needs_task"@,
    }
}

/// The entry state stored under a name.
pub open spec fn entry_status_named(value: Seq<char>) -> Option<EntryStatus> {
    if value == "running"@ {
        Some(EntryStatus::Running)
    } else if value == "complete"@ {
        Some(EntryStatus::Complete)
    } else if value == "needs_task"@ {
        Some(EntryStatus::NeedsTask)
    } else {
        None
    }
}

impl EntryStatus {
    /// The stored name.
    pub fn as_str(self) -> (r: &'static str)
        ensures
            r@ == entry_status_name(self),
    {
        match self {
            EntryStatus::Running => "running",
            EntryStatus::Complete => "complete",
            EntryStatus::NeedsTask => "needs_task",
        }
    }

    /// The state named `running`, `complete` or `needs_task`.
    pub fn parse(value: &str) -> (r: Option<Self>)
        ensures
            r == entry_status_named(value@),
    {
        if str_equals(value, "running") {
            Some(EntryStatus::Running)
        } else if str_equals(value, "complete") {
            Some(EntryStatus::Complete)
        } else if str_equals(value, "needs_task") {
            Some(EntryStatus::NeedsTask)
        } else {
            None
        }
    }
}

/// The state of a work session.
#[derive(Debug, Clone, Copy, PartialEq, Eq, Structural)]
pub enum WorkSessionStatus {
    Running,
    Paused,
    Stopped,
}

/// Stored name of a session state.
pub open spec fn session_status_name(s: WorkSessionStatus) -> Seq<char> {
    match s {
        WorkSessionStatus::Running => "running"@,
        WorkSessionStatus::Paused => "paused"@,
        WorkSessionStatus::Stopped => "stopped"@,
    }
}

/// The session state stored under a name.
pub open spec fn session_status_named(value: Seq<char>) -> Option<WorkSessionStatus> {
    if value == "running"@ {
        Some(WorkSessionStatus::Running)
    } else if value == "paused"@ {
        Some(WorkSessionStatus::Paused)
    } else if value == "stopped"@ {
        Some(WorkSessionStatus::Stopped)
    } else {
        None
    }
}

impl WorkSessionStatus {
    /// The stored name.
    pub fn as_str(self) -> (r: &'static str)
        ensures
            r@ == session_status_name(self),
    {
        match self {
            WorkSessionStatus::Running => "running",
            WorkSessionStatus::Paused => "paused",
            WorkSessionStatus::Stopped => "stopped",
        }
    }

    /// The state named `running`, `paused` or `stopped`.
    pub fn parse(value: &str) -> (r: Option<Self>)
        ensures
            r == session_status_named(value@),
    {
        if str_equals(value, "running") {
            Some(WorkSessionStatus::Running)
        } else if str_equals(value, "paused") {
            Some(WorkSessionStatus::Paused)
        } else if str_equals(value, "stopped") {
            Some(WorkSessionStatus::Stopped)
        } else {
            None
        }
    }
}

/// Reading back the stored name of a role, entry state or session state gives it back.
pub proof fn law_state_names_roundtrip(r: Role, e: EntryStatus, w: WorkSessionStatus)
    ensures
        role_named(role_name(r)) == Some(r),
        entry_status_named(entry_status_name(e)) == Some(e),
        session_status_named(session_status_name(w)) == Some(w),
{
    reveal_strlit("admin");
    reveal_strlit("user");
    reveal_strlit("running");
    reveal_strlit("complete");
    reveal_strlit("needs_task");
    reveal_strlit("paused");
    reveal_strlit("stopped");
    assert("user"@[0] != "admin"@[0]);
    assert("complete"@[0] != "running"@[0]);
    assert("needs_task"@[0] != "running"@[0]);
    assert("needs_task"@[0] != "complete"@[0]);
    assert("paused"@[0] != "running"@[0]);
    assert("stopped"@[0] != "running"@[0]);
    assert("stopped"@[0] != "paused"@[0]);
}

/// A user account.
#[derive(Debug)]
pub struct UserRow {
    pub id: i64,
    pub username: String,
    pub password_hash: Option<String>,
    pub auth_provider: String,
    pub oidc_subject: Option<String>,
    pub role: String,
    pub disabled: bool,
    pub created_at: String,
}

/// A project.
#[derive(Debug)]
pub struct ProjectRow {
    pub id: i64,
    pub name: String,
    pub archived: bool,
    pub created_by: i64,
    pub created_at: String,
}

/// A task of a user.
#[derive(Debug)]
pub struct NamedRow {
    pub id: i64,
    pub user_id: i64,
    pub name: String,
    pub archived: bool,
    pub is_system: bool,
    pub color: String,
    pub created_at: String,
}

/// A time entry with the names of its task and project.
#[derive(Debug)]
pub struct EntryRow {
    pub id: i64,
    pub user_id: i64,
    pub task_id: Option<i64>,
    pub project_id: Option<i64>,
    pub start_at: String,
    pub end_at: Option<String>,
    pub status: String,
    pub created_at: String,
    pub task_name: Option<String>,
    pub project_name: Option<String>,
}

fn clone_opt_string(s: &Option<String>) -> (r: Option<String>)
    ensures
        r == *s,
{
    match s {
        Some(v) => Some(v.clone()),
        None => None,
    }
}

impl Clone for EntryRow {
    fn clone(&self) -> (r: Self)
        ensures
            r == *self,
    {
        EntryRow {
            id: self.id,
            user_id: self.user_id,
            task_id: self.task_id,
            project_id: self.project_id,
            start_at: self.start_at.clone(),
            end_at: clone_opt_string(&self.end_at),
            status: self.status.clone(),
            created_at: self.created_at.clone(),
            task_name: clone_opt_string(&self.task_name),
            project_name: clone_opt_string(&self.project_name),
        }
    }
}

/// A work session of a user on one local day.
#[derive(Debug)]
pub struct WorkSessionRow {
    pub id: i64,
    pub user_id: i64,
    pub local_date: String,
    pub status: String,
    pub created_at: String,
}

/// A stored event of a work session.
#[derive(Debug)]
pub struct WorkEventRow {
    pub id: i64,
    pub work_session_id: i64,
    pub kind: String,
    pub at: String,
}

impl Clone for UserRow {
    fn clone(&self) -> (r: Self)
        ensures
            r == *self,
    {
        UserRow {
            id: self.id,
            username: self.username.clone(),
            password_hash: clone_opt_string(&self.password_hash),
            auth_provider: self.auth_provider.clone(),
            oidc_subject: clone_opt_string(&self.oidc_subject),
            role: self.role.clone(),
            disabled: self.disabled,
            created_at: self.created_at.clone(),
        }
    }
}

impl Clone for ProjectRow {
    fn clone(&self) -> (r: Self)
        ensures
            r == *self,
    {
        ProjectRow {
            id: self.id,
            name: self.name.clone(),
            archived: self.archived,
            created_by: self.created_by,
            created_at: self.created_at.clone(),
        }
    }
}

impl Clone for NamedRow {
    fn clone(&self) -> (r: Self)
        ensures
            r == *self,
    {
        NamedRow {
            id: self.id,
            user_id: self.user_id,
            name: self.name.clone(),
            archived: self.archived,
            is_system: self.is_system,
            color: self.color.clone(),
            created_at: self.created_at.clone(),
        }
    }
}

impl Clone for WorkSessionRow {
    fn clone(&self) -> (r: Self)
        ensures
            r == *self,
    {
        WorkSessionRow {
            id: self.id,
            user_id: self.user_id,
            local_date: self.local_date.clone(),
            status: self.status.clone(),
            created_at: self.created_at.clone(),
        }
    }
}

impl Clone for WorkEventRow {
    fn clone(&self) -> (r: Self)
        ensures
            r == *self,
    {
        WorkEventRow {
            id: self.id,
            work_session_id: self.work_session_id,
            kind: self.kind.clone(),
            at: self.at.clone(),
        }
    }
}

} // verus!
