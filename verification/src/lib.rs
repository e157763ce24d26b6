//! Working-time tracking: the rules behind work sessions, time entries,
//! settings and catalogs, stated and proved with Verus.

pub mod calendar;
pub mod text;
pub mod numbers;
pub mod time;
pub mod overlap;
pub mod work_duration;
pub mod work_interval;
pub mod work;
pub mod working_hours;
pub mod default_task;
pub mod entries;
pub mod entry_rules;
pub mod catalogs;
pub mod crypto;
pub mod users;
pub mod sessions;
pub mod settings;
pub mod http;
pub mod config;
pub mod error;
pub mod default_view;
pub mod slot_minutes;
pub mod system_task;
pub mod task_color;
pub mod models;
pub mod midnight;
pub mod same_day;
