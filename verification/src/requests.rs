//! The request shapes the service operations take.

use crate::api::EventIds;
use crate::codec::HabitType;
use vstd::prelude::*;

verus! {

/// What a new habit is created from; the store assigns the identifier.
#[derive(Debug)]
pub struct CreateHabitRequest {
    pub habit_type: HabitType,
    pub event_ids: EventIds,
    pub title: String,
    pub question: String,
}

/// A full-row replacement of every mutable habit field, by identifier.
#[derive(Debug)]
pub struct UpdateHabitRequest {
    pub id: i64,
    pub habit_type: HabitType,
    pub event_ids: EventIds,
    pub title: String,
    pub question: String,
}

/// One completion record to insert; the store assigns identifier and the
/// service assigns the insertion time.
#[derive(Debug, Clone, Copy, PartialEq, Eq, Structural)]
pub struct InsertHabitEntryItem {
    pub habit_id: i64,
    pub completed: bool,
}

/// A batch of completion records, written all-or-nothing.
#[derive(Debug)]
pub struct InsertHabitEntriesRequest {
    pub data: Vec<InsertHabitEntryItem>,
}

} // verus!
