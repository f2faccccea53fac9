//! The text codec for the habit-type enumeration.
//!
//! The store keeps a habit's type as one of two tag strings. Encoding is
//! total; decoding fails with [`StorageError::InvalidEnumValue`] on any
//! other text, never substituting a default.

use crate::errors::StorageError;
use vstd::prelude::*;

verus! {

/// Whether a habit's entries are created manually each day or derived from
/// external calendar events.
#[derive(Debug, Clone, Copy, PartialEq, Eq, Structural)]
pub enum HabitType {
    Daily,
    AppleCalendar,
}

/// The tag text under which a habit type is persisted.
pub open spec fn habit_type_text(t: HabitType) -> Seq<char> {
    match t {
        HabitType::Daily => "daily"@,
        HabitType::AppleCalendar => "appleCalendar"@,
    }
}

/// The habit type a tag text stands for, if any.
pub open spec fn habit_type_of_text(s: Seq<char>) -> Option<HabitType> {
    if s == "daily"@ {
        Some(HabitType::Daily)
    } else if s == "appleCalendar"@ {
        Some(HabitType::AppleCalendar)
    } else {
        None
    }
}

/// Encoding then decoding a habit type gives the type back.
pub proof fn lemma_habit_type_round_trip(t: HabitType)
    ensures
        habit_type_of_text(habit_type_text(t)) == Some(t),
{
    reveal_strlit("daily");
    reveal_strlit("appleCalendar");
    assert("daily"@.len() != "appleCalendar"@.len());
}

/// Produce the tag text under which `t` is persisted.
pub fn encode_habit_type(t: &HabitType) -> (r: String)
    ensures
        r@ == habit_type_text(*t),
{
    match t {
        HabitType::Daily => "daily".to_owned(),
        HabitType::AppleCalendar => "appleCalendar".to_owned(),
    }
}

/// Decode a stored tag text; any unrecognized tag is rejected.
pub fn decode_habit_type(s: &str) -> (r: Result<HabitType, StorageError>)
    ensures
        r == match habit_type_of_text(s@) {
            Some(t) => Ok::<HabitType, StorageError>(t),
            None => Err::<HabitType, StorageError>(StorageError::InvalidEnumValue),
        },
{
    let text = s.to_owned();
    if text == "daily".to_owned() {
        Ok(HabitType::Daily)
    } else if text == "appleCalendar".to_owned() {
        Ok(HabitType::AppleCalendar)
    } else {
        Err(StorageError::InvalidEnumValue)
    }
}

} // verus!
