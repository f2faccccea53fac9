//! Raw result rows, typed but not yet decoded.
//!
//! A query hands rows back in this shape: each field holds exactly what the
//! column holds. The row mapper in [`crate::api`] turns these into domain
//! records, or fails if a stored text does not decode.

use crate::model::{EntryRowModel, EventRowModel, HabitRowModel};
use vstd::prelude::*;

verus! {

/// One raw `habit` row.
#[derive(Debug)]
pub struct HabitRow {
    pub id: i64,
    pub habit_type: String,
    pub event_ids: Option<String>,
    pub title: String,
    pub question: String,
}

impl View for HabitRow {
    type V = HabitRowModel;

    open spec fn view(&self) -> HabitRowModel {
        HabitRowModel {
            id: self.id as int,
            habit_type: self.habit_type@,
            event_ids: match self.event_ids {
                Some(s) => Some(s@),
                None => None,
            },
            title: self.title@,
            question: self.question@,
        }
    }
}

/// One raw `habitEntry` row.
#[derive(Debug)]
pub struct EntryRow {
    pub id: i64,
    pub completed: bool,
    /// Milliseconds since the Unix epoch, UTC.
    pub date: i64,
    pub habit_id: i64,
}

impl View for EntryRow {
    type V = EntryRowModel;

    open spec fn view(&self) -> EntryRowModel {
        EntryRowModel {
            id: self.id as int,
            completed: self.completed,
            date: self.date as int,
            habit_id: self.habit_id as int,
        }
    }
}

/// One raw `appleCalendarEvent` row.
#[derive(Debug)]
pub struct EventRow {
    pub id: String,
    pub name: String,
    /// Milliseconds since the Unix epoch, UTC.
    pub start_date: i64,
    pub recurrence: String,
}

impl View for EventRow {
    type V = EventRowModel;

    open spec fn view(&self) -> EventRowModel {
        EventRowModel {
            id: self.id@,
            name: self.name@,
            start_date: self.start_date as int,
            recurrence: self.recurrence@,
        }
    }
}

/// The models of a vector of raw habit rows, in order.
pub open spec fn habit_row_views(v: Seq<HabitRow>) -> Seq<HabitRowModel> {
    v.map_values(|r: HabitRow| r@)
}

/// The models of a vector of raw entry rows, in order.
pub open spec fn entry_row_views(v: Seq<EntryRow>) -> Seq<EntryRowModel> {
    v.map_values(|r: EntryRow| r@)
}

/// The models of a vector of raw event rows, in order.
pub open spec fn event_row_views(v: Seq<EventRow>) -> Seq<EventRowModel> {
    v.map_values(|r: EventRow| r@)
}

} // verus!
