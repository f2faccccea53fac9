//! A verified storage core for a habit-tracking application.
//!
//! The library models the persisted state of an embedded SQLite store:
//! habits, their daily completion entries, and (optionally) cached calendar
//! events. All domain logic — the text codecs, the row mapping, and the
//! repository operations — is verified; the calls into the embedded store
//! itself stand behind a small trusted layer in [`db`].

pub mod api;
pub mod app_config;
pub mod codec;
pub mod db;
pub mod errors;
pub mod json;
pub mod model;
pub mod requests;
pub mod rows;
pub mod text;

pub use api::{AppleCalendarEvent, EventIds, Habit, HabitEntry, HabitTrackerService};
pub use app_config::{get_test_app_config, AppConfig};
pub use codec::HabitType;
pub use errors::StorageError;
pub use requests::{
    CreateHabitRequest, InsertHabitEntriesRequest, InsertHabitEntryItem, UpdateHabitRequest,
};
