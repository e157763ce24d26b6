//! The settings of a user: working hours, calendar view, slot length and
//! default task, as stored and as changed.
use vstd::prelude::*;

use crate::default_task::DefaultTaskId;
use crate::default_view::{law_view_name_roundtrip, view_name, view_named, DefaultView};
use crate::error::{failure_of, internal_failure, unprocessable_failure, AppError, AppResult};
use crate::slot_minutes::SlotMinutes;
use crate::working_hours::{
    hhmm_text, hours_from, hours_parsed, WorkingHours, WorkingHoursError,
    DEFAULT_WORK_END_MINUTES, DEFAULT_WORK_START_MINUTES,
};

verus! {

/// The settings of a user.
#[derive(Debug, Clone, Copy, PartialEq, Eq)]
pub struct UserSettings {
    pub hours: WorkingHours,
    pub default_view: DefaultView,
    pub slot_minutes: SlotMinutes,
    pub default_task_id: DefaultTaskId,
}

/// The settings as plain values: start and end minute, view, slot length and
/// default task.
pub open spec fn settings_view(s: UserSettings) -> (int, int, DefaultView, Option<i64>, Option<i64>) {
    (
        s.hours.start_minutes as int,
        s.hours.end_minutes as int,
        s.default_view,
        s.slot_minutes.minutes(),
        s.default_task_id.id(),
    )
}

/// Settings a user can have: working hours within a day with the start first,
/// a positive slot length and a positive task id where given.
pub open spec fn settings_valid(s: UserSettings) -> bool {
    &&& hours_from(s.hours.start_minutes as int, s.hours.end_minutes as int) is Ok
    &&& s.slot_minutes.minutes() matches Some(m) ==> m >= 1
    &&& s.default_task_id.id() matches Some(t) ==> t >= 1
}

/// The settings of a user who never changed them: 07:30 to 16:15, day view, no
/// slot length and no default task.
pub fn default_settings() -> (r: UserSettings)
    ensures
        settings_view(r) == (
            DEFAULT_WORK_START_MINUTES as int,
            DEFAULT_WORK_END_MINUTES as int,
            DefaultView::Day,
            None::<i64>,
            None::<i64>,
        ),
        settings_valid(r),
{
    UserSettings {
        hours: WorkingHours::default(),
        default_view: DefaultView::default(),
        slot_minutes: SlotMinutes::default(),
        default_task_id: DefaultTaskId::default(),
    }
}

/// The stored form of a user's settings.
pub struct SettingsRow {
    pub work_start_minutes: i64,
    pub work_end_minutes: i64,
    pub default_view: String,
    pub slot_minutes: Option<i64>,
    pub default_task_id: Option<i64>,
}

/// The message of a refused working-hours value.
pub open spec fn hours_error_text(e: WorkingHoursError) -> Seq<char> {
    match e {
        WorkingHoursError::InvalidFormat => "Arbeitszeit muss im Format HH:MM angegeben werden"@,
        WorkingHoursError::InvalidRange => "Beginn muss vor dem Ende liegen"@,
    }
}

/// The settings read from stored values, or the message of why they cannot be
/// read: the hours first, then view, slot length and default task.
pub open spec fn read_settings(
    start: int,
    end: int,
    view: Seq<char>,
    slot: Option<i64>,
    task: Option<i64>,
) -> Result<(int, int, DefaultView, Option<i64>, Option<i64>), Seq<char>> {
    match hours_from(start, end) {
        Err(e) => Err(hours_error_text(e)),
        Ok(_) => match view_named(view) {
            None => Err("ungültige Standardansicht: "@ + view),
            Some(v) => if slot matches Some(m) && m < 1 {
                Err("Slotdauer muss eine positive ganze Zahl in Minuten sein"@)
            } else if task matches Some(t) && t < 1 {
                Err("Standard-Task ist ungültig"@)
            } else {
                Ok((start, end, v, slot, task))
            },
        },
    }
}

impl SettingsRow {
    /// Reads stored settings; values that cannot be read are an internal error.
    pub fn into_settings(&self) -> (r: AppResult<UserSettings>)
        ensures
            match read_settings(
                self.work_start_minutes as int,
                self.work_end_minutes as int,
                self.default_view@,
                self.slot_minutes,
                self.default_task_id,
            ) {
                Ok(v) => r matches Ok(s) && settings_view(s) == v && settings_valid(s),
                Err(m) => r matches Err(e) && failure_of(e) == internal_failure(m),
            },
    {
        let hours = match WorkingHours::from_minutes(self.work_start_minutes, self.work_end_minutes) {
            Ok(h) => h,
            Err(e) => return Err(AppError::Internal(String::from_str(e.message()))),
        };
        let default_view = match DefaultView::parse(self.default_view.as_str()) {
            Some(v) => v,
            None => {
                let mut m = String::from_str("ungültige Standardansicht: ");
                m.append(self.default_view.as_str());
                return Err(AppError::Internal(m));
            },
        };
        let slot_minutes = match SlotMinutes::parse(self.slot_minutes) {
            Ok(s) => s,
            Err(e) => return Err(AppError::Internal(String::from_str(e.message()))),
        };
        let default_task_id = match DefaultTaskId::parse(self.default_task_id) {
            Ok(t) => t,
            Err(e) => return Err(AppError::Internal(String::from_str(e.message()))),
        };
        Ok(UserSettings { hours, default_view, slot_minutes, default_task_id })
    }
}

/// The stored form of settings.
pub fn settings_row(settings: &UserSettings) -> (r: SettingsRow)
    ensures
        r.work_start_minutes == settings.hours.start_minutes,
        r.work_end_minutes == settings.hours.end_minutes,
        r.default_view@ == view_name(settings.default_view),
        r.slot_minutes == settings.slot_minutes.minutes(),
        r.default_task_id == settings.default_task_id.id(),
{
    SettingsRow {
        work_start_minutes: settings.hours.start_minutes,
        work_end_minutes: settings.hours.end_minutes,
        default_view: String::from_str(settings.default_view.as_str()),
        slot_minutes: settings.slot_minutes.stored(),
        default_task_id: settings.default_task_id.stored(),
    }
}

/// Settings a user can have read back unchanged from their stored form.
pub proof fn law_settings_roundtrip(s: UserSettings)
    requires
        settings_valid(s),
    ensures
        read_settings(
            s.hours.start_minutes as int,
            s.hours.end_minutes as int,
            view_name(s.default_view),
            s.slot_minutes.minutes(),
            s.default_task_id.id(),
        ) == Ok::<(int, int, DefaultView, Option<i64>, Option<i64>), Seq<char>>(settings_view(s)),
{
    law_view_name_roundtrip(s.default_view);
}

/// The settings after a change, or why the change is refused: the hours are
/// read first; a view, slot length or default task that is not given keeps
/// its current value.
pub open spec fn changed_settings(
    current: UserSettings,
    work_start: Seq<char>,
    work_end: Seq<char>,
    default_view: Option<Seq<char>>,
    slot_minutes: Option<Option<i64>>,
    default_task_id: Option<Option<i64>>,
) -> Result<(int, int, DefaultView, Option<i64>, Option<i64>), (int, Seq<char>)> {
    match hours_parsed(work_start, work_end) {
        Err(e) => Err(unprocessable_failure(hours_error_text(e))),
        Ok((start, end)) => {
            let view = match default_view {
                Some(v) => view_named(v),
                None => Some(current.default_view),
            };
            match view {
                None => Err(unprocessable_failure("Standardansicht muss day oder week sein"@)),
                Some(v) => {
                    let slot = match slot_minutes {
                        Some(x) => x,
                        None => current.slot_minutes.minutes(),
                    };
                    let task = match default_task_id {
                        Some(x) => x,
                        None => current.default_task_id.id(),
                    };
                    if slot_minutes matches Some(Some(m)) && m < 1 {
                        Err(
                            unprocessable_failure(
                                "Slotdauer muss eine positive ganze Zahl in Minuten sein"@,
                            ),
                        )
                    } else if default_task_id matches Some(Some(t)) && t < 1 {
                        Err(unprocessable_failure("Standard-Task ist ungültig"@))
                    } else {
                        Ok((start, end, v, slot, task))
                    }
                },
            }
        },
    }
}

/// Changes a user's settings.
pub fn update_settings(
    current: UserSettings,
    work_start: &str,
    work_end: &str,
    default_view: Option<&str>,
    slot_minutes: Option<Option<i64>>,
    default_task_id: Option<Option<i64>>,
) -> (r: AppResult<UserSettings>)
    requires
        settings_valid(current),
    ensures
        match changed_settings(
            current,
            work_start@,
            work_end@,
            match default_view {
                Some(v) => Some(v@),
                None => None,
            },
            slot_minutes,
            default_task_id,
        ) {
            Ok(v) => r matches Ok(s) && settings_view(s) == v && settings_valid(s),
            Err(f) => r matches Err(e) && failure_of(e) == f,
        },
{
    let hours = match WorkingHours::parse(work_start, work_end) {
        Ok(h) => h,
        Err(e) => return Err(AppError::Unprocessable(String::from_str(e.message()))),
    };
    let view = match default_view {
        Some(v) => match DefaultView::parse(v) {
            Some(x) => x,
            None => {
                return Err(
                    AppError::Unprocessable(
                        String::from_str("Standardansicht muss day oder week sein"),
                    ),
                )
            },
        },
        None => current.default_view,
    };
    let slot = match slot_minutes {
        Some(x) => match SlotMinutes::parse(x) {
            Ok(s) => s,
            Err(e) => return Err(AppError::Unprocessable(String::from_str(e.message()))),
        },
        None => current.slot_minutes,
    };
    let task = match default_task_id {
        Some(x) => match DefaultTaskId::parse(x) {
            Ok(t) => t,
            Err(e) => return Err(AppError::Unprocessable(String::from_str(e.message()))),
        },
        None => current.default_task_id,
    };
    Ok(UserSettings { hours, default_view: view, slot_minutes: slot, default_task_id: task })
}

/// The settings as shown to the client.
pub struct SettingsView {
    pub work_start: String,
    pub work_end: String,
    pub default_view: String,
    pub slot_minutes: Option<i64>,
    pub default_task_id: Option<i64>,
}

impl SettingsView {
    /// The shown form of settings: clock times as `HH:MM`, the view by name.
    pub fn from_settings(settings: UserSettings) -> (r: Self)
        ensures
            r.work_start@ == hhmm_text(settings.hours.start_minutes as int),
            r.work_end@ == hhmm_text(settings.hours.end_minutes as int),
            r.default_view@ == view_name(settings.default_view),
            r.slot_minutes == settings.slot_minutes.minutes(),
            r.default_task_id == settings.default_task_id.id(),
    {
        SettingsView {
            work_start: settings.hours.work_start(),
            work_end: settings.hours.work_end(),
            default_view: String::from_str(settings.default_view.as_str()),
            slot_minutes: settings.slot_minutes.stored(),
            default_task_id: settings.default_task_id.stored(),
        }
    }
}

/// The body of a change of settings: the hours always, the others where given
/// (`Some(None)` clears a slot length or default task).
pub struct PatchSettings {
    pub work_start: String,
    pub work_end: String,
    pub default_view: Option<String>,
    pub slot_minutes: Option<Option<i64>>,
    pub default_task_id: Option<Option<i64>>,
}

impl PatchSettings {
    /// The settings after this change of `current`.
    pub fn apply_to(&self, current: UserSettings) -> (r: AppResult<UserSettings>)
        requires
            settings_valid(current),
        ensures
            match changed_settings(
                current,
                self.work_start@,
                self.work_end@,
                match self.default_view {
                    Some(v) => Some(v@),
                    None => None,
                },
                self.slot_minutes,
                self.default_task_id,
            ) {
                Ok(v) => r matches Ok(s) && settings_view(s) == v && settings_valid(s),
                Err(f) => r matches Err(e) && failure_of(e) == f,
            },
    {
        let view = match &self.default_view {
            Some(v) => Some(v.as_str()),
            None => None,
        };
        update_settings(
            current,
            self.work_start.as_str(),
            self.work_end.as_str(),
            view,
            self.slot_minutes,
            self.default_task_id,
        )
    }
}

} // verus!
