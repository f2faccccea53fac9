//! The mathematical model of the store's contents.
//!
//! The store is abstracted as three sequences of raw rows, one per table.
//! Habit and entry rows are listed in ascending identifier order — the order
//! the primary key induces — and event identifiers are unique, as their
//! primary key makes them. The raw rows hold exactly what the columns hold:
//! a habit's type and identifier list appear as the text they are stored as,
//! not as decoded domain values.

use vstd::prelude::*;

verus! {

/// One stored `habit` row, as the table holds it.
#[verifier::ext_equal]
pub ghost struct HabitRowModel {
    pub id: int,
    /// The habit-type tag text.
    pub habit_type: Seq<char>,
    /// The serialized identifier list, or a NULL column.
    pub event_ids: Option<Seq<char>>,
    pub title: Seq<char>,
    pub question: Seq<char>,
}

/// One stored `habitEntry` row, as the table holds it.
#[verifier::ext_equal]
pub ghost struct EntryRowModel {
    pub id: int,
    pub completed: bool,
    /// Milliseconds since the Unix epoch, timezone-normalized to UTC.
    pub date: int,
    pub habit_id: int,
}

/// One stored `appleCalendarEvent` row, as the table holds it.
#[verifier::ext_equal]
pub ghost struct EventRowModel {
    pub id: Seq<char>,
    pub name: Seq<char>,
    /// Milliseconds since the Unix epoch, timezone-normalized to UTC.
    pub start_date: int,
    pub recurrence: Seq<char>,
}

/// Everything the store holds.
#[verifier::ext_equal]
pub ghost struct DbContents {
    pub habits: Seq<HabitRowModel>,
    pub entries: Seq<EntryRowModel>,
    pub events: Seq<EventRowModel>,
}

/// What a store that was just created holds.
pub open spec fn empty_contents() -> DbContents {
    DbContents { habits: Seq::empty(), entries: Seq::empty(), events: Seq::empty() }
}

/// Every habit row's identifier is below `id`: what makes a fresh
/// identifier fresh.
pub open spec fn habit_ids_below(rows: Seq<HabitRowModel>, id: int) -> bool {
    forall|i: int| 0 <= i < rows.len() ==> (#[trigger] rows[i]).id < id
}

/// Every entry row's identifier is below `id`.
pub open spec fn entry_ids_below(rows: Seq<EntryRowModel>, id: int) -> bool {
    forall|i: int| 0 <= i < rows.len() ==> (#[trigger] rows[i]).id < id
}

/// Habit rows stand in strictly ascending identifier order.
pub open spec fn habits_sorted(rows: Seq<HabitRowModel>) -> bool {
    forall|i: int, j: int| 0 <= i < j < rows.len() ==> (#[trigger] rows[i]).id < (
    #[trigger] rows[j]).id
}

/// Entry rows stand in strictly ascending identifier order.
pub open spec fn entries_sorted(rows: Seq<EntryRowModel>) -> bool {
    forall|i: int, j: int| 0 <= i < j < rows.len() ==> (#[trigger] rows[i]).id < (
    #[trigger] rows[j]).id
}

/// No two event rows share an identifier.
pub open spec fn event_ids_distinct(rows: Seq<EventRowModel>) -> bool {
    forall|i: int, j: int| 0 <= i < j < rows.len() ==> (#[trigger] rows[i]).id != (
    #[trigger] rows[j]).id
}

/// Whether some event row carries identifier `id`.
pub open spec fn has_event_id(rows: Seq<EventRowModel>, id: Seq<char>) -> bool {
    exists|i: int| 0 <= i < rows.len() && (#[trigger] rows[i]).id == id
}

/// Whether `row` is one of the stored rows.
pub open spec fn habit_row_stored(rows: Seq<HabitRowModel>, row: HabitRowModel) -> bool {
    exists|i: int| 0 <= i < rows.len() && rows[i] == row
}

/// Whether some habit row carries identifier `id`.
pub open spec fn has_habit_id(rows: Seq<HabitRowModel>, id: int) -> bool {
    exists|i: int| 0 <= i < rows.len() && (#[trigger] rows[i]).id == id
}

/// What a full-row update by primary key leaves behind: the matching row —
/// there is at most one — carries the new fields, every other row stands
/// unchanged.
pub open spec fn apply_update(
    rows: Seq<HabitRowModel>,
    id: int,
    habit_type: Seq<char>,
    event_ids: Option<Seq<char>>,
    title: Seq<char>,
    question: Seq<char>,
) -> Seq<HabitRowModel> {
    rows.map_values(
        |r: HabitRowModel|
            if r.id == id {
                HabitRowModel { id: r.id, habit_type, event_ids, title, question }
            } else {
                r
            },
    )
}

/// The identifier the store assigns to the next habit row: one more than
/// the largest in use, 1 in an empty table.
pub open spec fn next_habit_id(rows: Seq<HabitRowModel>) -> int {
    if rows.len() == 0 {
        1
    } else {
        rows.last().id + 1
    }
}

/// The identifier the store assigns to the next entry row.
pub open spec fn next_entry_id(rows: Seq<EntryRowModel>) -> int {
    if rows.len() == 0 {
        1
    } else {
        rows.last().id + 1
    }
}

/// In a sorted table the next identifier is above every identifier in use.
pub proof fn lemma_next_habit_id_fresh(rows: Seq<HabitRowModel>)
    requires
        habits_sorted(rows),
    ensures
        habit_ids_below(rows, next_habit_id(rows)),
{
    assert forall|i: int| 0 <= i < rows.len() implies (#[trigger] rows[i]).id < next_habit_id(
        rows,
    ) by {
        if i < rows.len() - 1 {
            assert(rows[i].id < rows[rows.len() - 1].id);
        }
    }
}

/// In a sorted table the next identifier is above every identifier in use.
pub proof fn lemma_next_entry_id_fresh(rows: Seq<EntryRowModel>)
    requires
        entries_sorted(rows),
    ensures
        entry_ids_below(rows, next_entry_id(rows)),
{
    assert forall|i: int| 0 <= i < rows.len() implies (#[trigger] rows[i]).id < next_entry_id(
        rows,
    ) by {
        if i < rows.len() - 1 {
            assert(rows[i].id < rows[rows.len() - 1].id);
        }
    }
}

/// Appending a row with a fresh, larger identifier keeps habit rows sorted.
pub proof fn lemma_habits_sorted_push(rows: Seq<HabitRowModel>, row: HabitRowModel)
    requires
        habits_sorted(rows),
        habit_ids_below(rows, row.id),
    ensures
        habits_sorted(rows.push(row)),
{
}

/// Appending a row with a fresh, larger identifier keeps entry rows sorted.
pub proof fn lemma_entries_sorted_push(rows: Seq<EntryRowModel>, row: EntryRowModel)
    requires
        entries_sorted(rows),
        entry_ids_below(rows, row.id),
    ensures
        entries_sorted(rows.push(row)),
{
}

/// Appending an event row whose identifier is new keeps identifiers unique.
pub proof fn lemma_event_distinct_push(rows: Seq<EventRowModel>, row: EventRowModel)
    requires
        event_ids_distinct(rows),
        !has_event_id(rows, row.id),
    ensures
        event_ids_distinct(rows.push(row)),
{
    assert forall|i: int, j: int|
        0 <= i < j < rows.push(row).len() implies (#[trigger] rows.push(row)[i]).id != (
    #[trigger] rows.push(row)[j]).id by {
        if j == rows.len() {
            assert(rows[i].id != row.id);
        }
    }
}

/// An update leaves every identifier where it was.
pub proof fn lemma_apply_update_ids(
    rows: Seq<HabitRowModel>,
    id: int,
    habit_type: Seq<char>,
    event_ids: Option<Seq<char>>,
    title: Seq<char>,
    question: Seq<char>,
)
    ensures
        apply_update(rows, id, habit_type, event_ids, title, question).len() == rows.len(),
        forall|i: int|
            0 <= i < rows.len() ==> (#[trigger] apply_update(
                rows,
                id,
                habit_type,
                event_ids,
                title,
                question,
            )[i]).id == rows[i].id,
        habits_sorted(rows) ==> habits_sorted(
            apply_update(rows, id, habit_type, event_ids, title, question),
        ),
        !has_habit_id(rows, id) ==> apply_update(rows, id, habit_type, event_ids, title, question)
            == rows,
{
    let out = apply_update(rows, id, habit_type, event_ids, title, question);
    if !has_habit_id(rows, id) {
        assert forall|i: int| 0 <= i < rows.len() implies out[i] == rows[i] by {
            assert(rows[i].id != id);
        }
        assert(out =~= rows);
    }
}

/// The one law an update obeys beyond its own contract: running the same
/// full-row update twice leaves exactly what running it once leaves.
pub proof fn lemma_apply_update_idempotent(
    rows: Seq<HabitRowModel>,
    id: int,
    habit_type: Seq<char>,
    event_ids: Option<Seq<char>>,
    title: Seq<char>,
    question: Seq<char>,
)
    ensures
        apply_update(
            apply_update(rows, id, habit_type, event_ids, title, question),
            id,
            habit_type,
            event_ids,
            title,
            question,
        ) == apply_update(rows, id, habit_type, event_ids, title, question),
{
    let once = apply_update(rows, id, habit_type, event_ids, title, question);
    let twice = apply_update(once, id, habit_type, event_ids, title, question);
    assert forall|i: int| 0 <= i < rows.len() implies twice[i] == once[i] by {}
    assert(twice =~= once);
}

} // verus!
