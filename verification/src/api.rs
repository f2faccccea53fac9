//! The domain records and the storage service.
//!
//! A [`Habit`] is a tracked behavior; a [`HabitEntry`] is one dated
//! completion record; an [`AppleCalendarEvent`] is one cached external
//! calendar occurrence. The row mappers turn raw rows into these records,
//! failing — never defaulting — when a stored text does not decode. The
//! [`HabitTrackerService`] at the end of this module composes the schema
//! manager, the codecs and the repositories behind one handle.

use crate::app_config::{in_memory_path, AppConfig};
use crate::codec::{
    decode_habit_type, encode_habit_type, habit_type_of_text, habit_type_text,
    lemma_habit_type_round_trip, HabitType,
};
use crate::db::{
    begin_txn, commit_txn, count_foreign_schema_objects, create_schema, db_canonical, db_committed,
    db_in_txn, db_state,
    delete_all_events, entry_schema_string, event_schema_string, habit_schema_string,
    insert_entry_row, insert_event_row, insert_habit_row, now_millis, open_connection,
    query_entry_rows, query_event_rows, query_habit_row_by_id, query_habit_rows,
    query_last_entry_rows, rollback_txn, table_create_text, table_schema_text, update_habit_row,
};
use crate::errors::StorageError;
use crate::json::{
    decode_event_ids, encode_event_ids, encode_string_list, lemma_string_list_round_trip,
    parse_string_list,
};
use crate::model::{
    apply_update, empty_contents, entries_sorted, event_ids_distinct, habit_ids_below,
    habits_sorted, has_habit_id, lemma_apply_update_ids, lemma_entries_sorted_push,
    lemma_event_distinct_push, lemma_habits_sorted_push, lemma_next_entry_id_fresh,
    lemma_next_habit_id_fresh, next_entry_id, next_habit_id, DbContents, EntryRowModel,
    EventRowModel, HabitRowModel,
};
use crate::requests::{
    CreateHabitRequest, InsertHabitEntriesRequest, InsertHabitEntryItem, UpdateHabitRequest,
};
use crate::rows::{entry_row_views, event_row_views, habit_row_views, EntryRow, EventRow, HabitRow};
use crate::text::str_views;
use vstd::prelude::*;

verus! {

// ---------------------------------------------------------------------------
// Domain records
// ---------------------------------------------------------------------------

/// The external-event identifiers attached to a calendar-derived habit;
/// empty for a daily habit.
#[derive(Debug, Clone)]
pub struct EventIds {
    pub values: Vec<String>,
}

impl View for EventIds {
    type V = Seq<Seq<char>>;

    open spec fn view(&self) -> Seq<Seq<char>> {
        str_views(self.values@)
    }
}

impl PartialEq for EventIds {
    fn eq(&self, other: &EventIds) -> (r: bool) {
        if self.values.len() != other.values.len() {
            proof {
                assert(self@.len() != other@.len());
            }
            return false;
        }
        let mut i: usize = 0;
        while i < self.values.len()
            invariant
                i <= self.values@.len(),
                self.values@.len() == other.values@.len(),
                forall|j: int| 0 <= j < i ==> (#[trigger] self.values@[j])@ == other.values@[j]@,
            decreases self.values@.len() - i,
        {
            if !(self.values[i] == other.values[i]) {
                proof {
                    assert(self@[i as int] != other@[i as int]);
                }
                return false;
            }
            i = i + 1;
        }
        proof {
            assert(self@ =~= other@);
        }
        true
    }
}

impl vstd::std_specs::cmp::PartialEqSpecImpl for EventIds {
    open spec fn obeys_eq_spec() -> bool {
        true
    }

    open spec fn eq_spec(&self, other: &EventIds) -> bool {
        self@ == other@
    }
}

/// What a habit record stands for: its identifier, decoded type, decoded
/// identifier list, and display strings.
#[verifier::ext_equal]
pub ghost struct HabitModel {
    pub id: int,
    pub habit_type: HabitType,
    pub event_ids: Seq<Seq<char>>,
    pub title: Seq<char>,
    pub question: Seq<char>,
}

/// A tracked behavior definition.
#[derive(Debug, Clone)]
pub struct Habit {
    pub id: i64,
    pub habit_type: HabitType,
    pub event_ids: EventIds,
    pub title: String,
    pub question: String,
}

impl View for Habit {
    type V = HabitModel;

    open spec fn view(&self) -> HabitModel {
        HabitModel {
            id: self.id as int,
            habit_type: self.habit_type,
            event_ids: self.event_ids@,
            title: self.title@,
            question: self.question@,
        }
    }
}

impl PartialEq for Habit {
    fn eq(&self, other: &Habit) -> (r: bool) {
        let same = self.id == other.id && self.habit_type == other.habit_type
            && self.event_ids == other.event_ids && self.title == other.title && self.question
            == other.question;
        proof {
            if same {
                assert(self@ =~= other@);
            }
        }
        same
    }
}

impl vstd::std_specs::cmp::PartialEqSpecImpl for Habit {
    open spec fn obeys_eq_spec() -> bool {
        true
    }

    open spec fn eq_spec(&self, other: &Habit) -> bool {
        self@ == other@
    }
}

/// One completion record for one date.
#[derive(Debug, Clone, Copy, PartialEq, Eq, Structural)]
pub struct HabitEntry {
    pub id: i64,
    pub habit_id: i64,
    pub completed: bool,
    /// Milliseconds since the Unix epoch, UTC.
    pub date: i64,
}

impl View for HabitEntry {
    type V = EntryRowModel;

    open spec fn view(&self) -> EntryRowModel {
        EntryRowModel {
            id: self.id as int,
            completed: self.completed,
            date: self.date as int,
            habit_id: self.habit_id as int,
        }
    }
}

/// One cached external calendar occurrence.
#[derive(Debug, Clone)]
pub struct AppleCalendarEvent {
    pub id: String,
    pub name: String,
    /// Milliseconds since the Unix epoch, UTC.
    pub start_date: i64,
    pub recurrence: String,
}

impl View for AppleCalendarEvent {
    type V = EventRowModel;

    open spec fn view(&self) -> EventRowModel {
        EventRowModel {
            id: self.id@,
            name: self.name@,
            start_date: self.start_date as int,
            recurrence: self.recurrence@,
        }
    }
}

impl PartialEq for AppleCalendarEvent {
    fn eq(&self, other: &AppleCalendarEvent) -> (r: bool) {
        let same = self.id == other.id && self.name == other.name && self.start_date
            == other.start_date && self.recurrence == other.recurrence;
        proof {
            if same {
                assert(self@ =~= other@);
            }
        }
        same
    }
}

impl vstd::std_specs::cmp::PartialEqSpecImpl for AppleCalendarEvent {
    open spec fn obeys_eq_spec() -> bool {
        true
    }

    open spec fn eq_spec(&self, other: &AppleCalendarEvent) -> bool {
        self@ == other@
    }
}

/// The models of a vector of entries, in order.
pub open spec fn entry_views(v: Seq<HabitEntry>) -> Seq<EntryRowModel> {
    v.map_values(|e: HabitEntry| e@)
}

/// The models of a vector of calendar events, in order.
pub open spec fn event_views(v: Seq<AppleCalendarEvent>) -> Seq<EventRowModel> {
    v.map_values(|e: AppleCalendarEvent| e@)
}

// ---------------------------------------------------------------------------
// Row mapping
// ---------------------------------------------------------------------------

/// The record a raw habit row decodes to, if both its stored texts decode:
/// the habit-type tag must be known, and the identifier list — absent
/// standing for empty — must parse.
pub open spec fn decode_habit_row(row: HabitRowModel) -> Option<HabitModel> {
    match habit_type_of_text(row.habit_type) {
        Some(t) => {
            let parsed = match row.event_ids {
                Some(s) => parse_string_list(s),
                None => Some(Seq::<Seq<char>>::empty()),
            };
            match parsed {
                Some(ids) => Some(
                    HabitModel {
                        id: row.id,
                        habit_type: t,
                        event_ids: ids,
                        title: row.title,
                        question: row.question,
                    },
                ),
                None => None,
            }
        },
        None => None,
    }
}

impl Habit {
    /// One typed record from one raw row, or the failure that names which
    /// stored text did not decode.
    pub fn from_row(row: &HabitRow) -> (r: Result<Habit, StorageError>)
        ensures
            match decode_habit_row(row@) {
                Some(m) => r matches Ok(h) && h@ == m,
                None => r is Err,
            },
            r matches Err(e) ==> (e == StorageError::InvalidEnumValue || e
                == StorageError::InvalidEncoding),
            r matches Err(e) && e == StorageError::InvalidEnumValue ==> habit_type_of_text(
                row@.habit_type,
            ) is None,
            r matches Err(e) && e == StorageError::InvalidEncoding ==> (row@.event_ids matches Some(
                s,
            ) && parse_string_list(s) is None),
    {
        let habit_type = match decode_habit_type(row.habit_type.as_str()) {
            Ok(t) => t,
            Err(e) => {
                return Err(e);
            },
        };
        let values: Vec<String> = match &row.event_ids {
            Some(s) => match decode_event_ids(s.as_str()) {
                Ok(v) => v,
                Err(e) => {
                    return Err(e);
                },
            },
            None => Vec::new(),
        };
        let h = Habit {
            id: row.id,
            habit_type,
            event_ids: EventIds { values },
            title: row.title.clone(),
            question: row.question.clone(),
        };
        proof {
            assert(str_views(Seq::<String>::empty()) =~= Seq::<Seq<char>>::empty());
            assert(h@ =~= decode_habit_row(row@)->0);
        }
        Ok(h)
    }
}

impl HabitEntry {
    /// One typed record from one raw row; every entry field is primitive,
    /// so nothing can fail.
    pub fn from_row(row: &EntryRow) -> (r: HabitEntry)
        ensures
            r@ == row@,
    {
        HabitEntry { id: row.id, habit_id: row.habit_id, completed: row.completed, date: row.date }
    }
}

impl AppleCalendarEvent {
    /// One typed record from one raw row; nothing can fail.
    pub fn from_row(row: &EventRow) -> (r: AppleCalendarEvent)
        ensures
            r@ == row@,
    {
        AppleCalendarEvent {
            id: row.id.clone(),
            name: row.name.clone(),
            start_date: row.start_date,
            recurrence: row.recurrence.clone(),
        }
    }
}

/// Decode a whole result set, failing on the first row whose stored text
/// does not decode.
pub fn habits_from_rows(rows: &Vec<HabitRow>) -> (r: Result<Vec<Habit>, StorageError>)
    ensures
        r is Ok <==> (forall|i: int|
            0 <= i < rows@.len() ==> decode_habit_row((#[trigger] rows@[i])@) is Some),
        r matches Ok(v) ==> {
            &&& v@.len() == rows@.len()
            &&& forall|i: int|
                0 <= i < rows@.len() ==> decode_habit_row(rows@[i]@) == Some((#[trigger] v@[i])@)
        },
        r matches Err(e) ==> (e == StorageError::InvalidEnumValue || e
            == StorageError::InvalidEncoding),
        r matches Err(e) ==> (exists|i: int|
            0 <= i < rows@.len() && decode_habit_row((#[trigger] rows@[i])@) is None),
{
    let mut out: Vec<Habit> = Vec::new();
    let mut i: usize = 0;
    while i < rows.len()
        invariant
            i <= rows@.len(),
            out@.len() == i,
            forall|j: int|
                0 <= j < i ==> decode_habit_row((#[trigger] rows@[j])@) == Some(out@[j]@),
        decreases rows@.len() - i,
    {
        match Habit::from_row(&rows[i]) {
            Ok(h) => out.push(h),
            Err(e) => {
                return Err(e);
            },
        }
        i = i + 1;
    }
    Ok(out)
}

/// Decode a whole entry result set; nothing can fail.
pub fn entries_from_rows(rows: &Vec<EntryRow>) -> (r: Vec<HabitEntry>)
    ensures
        r@.len() == rows@.len(),
        forall|i: int| 0 <= i < rows@.len() ==> (#[trigger] r@[i])@ == rows@[i]@,
{
    let mut out: Vec<HabitEntry> = Vec::new();
    let mut i: usize = 0;
    while i < rows.len()
        invariant
            i <= rows@.len(),
            out@.len() == i,
            forall|j: int| 0 <= j < i ==> (#[trigger] out@[j])@ == rows@[j]@,
        decreases rows@.len() - i,
    {
        out.push(HabitEntry::from_row(&rows[i]));
        i = i + 1;
    }
    out
}

/// Decode a whole event result set; nothing can fail.
pub fn events_from_rows(rows: &Vec<EventRow>) -> (r: Vec<AppleCalendarEvent>)
    ensures
        r@.len() == rows@.len(),
        forall|i: int| 0 <= i < rows@.len() ==> (#[trigger] r@[i])@ == rows@[i]@,
{
    let mut out: Vec<AppleCalendarEvent> = Vec::new();
    let mut i: usize = 0;
    while i < rows.len()
        invariant
            i <= rows@.len(),
            out@.len() == i,
            forall|j: int| 0 <= j < i ==> (#[trigger] out@[j])@ == rows@[j]@,
        decreases rows@.len() - i,
    {
        out.push(AppleCalendarEvent::from_row(&rows[i]));
        i = i + 1;
    }
    out
}

// ---------------------------------------------------------------------------
// The create-then-read law
// ---------------------------------------------------------------------------

/// How many stored rows decode to exactly the record `m`.
pub open spec fn matching_count(rows: Seq<HabitRowModel>, m: HabitModel) -> nat
    decreases rows.len(),
{
    if rows.len() == 0 {
        0
    } else {
        (if decode_habit_row(rows.last()) == Some(m) {
            1nat
        } else {
            0nat
        }) + matching_count(rows.drop_last(), m)
    }
}

/// No stored row whose identifier differs from `m`'s decodes to `m`.
proof fn lemma_matching_count_zero(rows: Seq<HabitRowModel>, m: HabitModel)
    requires
        forall|i: int| 0 <= i < rows.len() ==> (#[trigger] rows[i]).id != m.id,
    ensures
        matching_count(rows, m) == 0,
    decreases rows.len(),
{
    if rows.len() > 0 {
        lemma_matching_count_zero(rows.drop_last(), m);
    }
}

/// The create-then-read law: a created row's identifier is fresh, so after
/// appending it the store holds exactly one row that decodes to the record
/// the creation returned.
pub proof fn lemma_create_then_read(rows: Seq<HabitRowModel>, row: HabitRowModel, m: HabitModel)
    requires
        habit_ids_below(rows, row.id),
        decode_habit_row(row) == Some(m),
    ensures
        matching_count(rows.push(row), m) == 1,
{
    assert(m.id == row.id);
    assert(rows.push(row).last() == row);
    assert(rows.push(row).drop_last() =~= rows);
    lemma_matching_count_zero(rows, m);
}

// ---------------------------------------------------------------------------
// The storage service
// ---------------------------------------------------------------------------

/// The single entry point other layers call. It owns the store connection
/// exclusively; mutual exclusion around a shared instance is the caller's
/// concern.
#[derive(Debug)]
pub struct HabitTrackerService {
    conn: rusqlite::Connection,
}

impl HabitTrackerService {
    /// Everything the underlying store holds right now.
    pub closed spec fn contents(self) -> DbContents {
        db_state(self.conn)
    }

    /// The service's steady state between calls: no transaction is open,
    /// everything visible is durable, the store carries this library's
    /// schema and nothing foreign, and the model's ordering and uniqueness
    /// conventions hold.
    pub closed spec fn wf(self) -> bool {
        &&& !db_in_txn(self.conn)
        &&& db_committed(self.conn) == db_state(self.conn)
        &&& db_canonical(self.conn)
        &&& habits_sorted(db_state(self.conn).habits)
        &&& entries_sorted(db_state(self.conn).entries)
        &&& event_ids_distinct(db_state(self.conn).events)
    }

    /// Open or create the backing store, run schema creation, and verify
    /// the store's shape: the three tables must carry exactly this
    /// library's schema, and nothing may stand in the schema besides them
    /// and ordinary indexes — no triggers, views or foreign tables, of
    /// which nothing could be promised. A file that fails either check is
    /// rejected with `Schema`: construction accepts only stores this
    /// library laid out. No partial service is ever returned; an in-memory
    /// store starts empty.
    pub fn build(app_config: AppConfig) -> (r: Result<HabitTrackerService, StorageError>)
        ensures
            r matches Ok(s) ==> s.wf(),
            r matches Ok(s) ==> (app_config.db_path@ == in_memory_path() ==> s.contents()
                == empty_contents()),
            r matches Err(e) ==> (e == StorageError::Connection || e == StorageError::Schema),
    {
        let mut conn = match open_connection(app_config.db_path.as_str()) {
            Ok(c) => c,
            Err(e) => {
                return Err(e);
            },
        };
        match create_schema(&mut conn) {
            Ok(()) => (),
            Err(e) => {
                return Err(e);
            },
        }
        let habit_ok = match table_text_is(&conn, "habit", habit_schema_string()) {
            Ok(b) => b,
            Err(e) => {
                return Err(e);
            },
        };
        let entry_ok = match table_text_is(&conn, "habitEntry", entry_schema_string()) {
            Ok(b) => b,
            Err(e) => {
                return Err(e);
            },
        };
        let event_ok = match table_text_is(&conn, "appleCalendarEvent", event_schema_string()) {
            Ok(b) => b,
            Err(e) => {
                return Err(e);
            },
        };
        if !(habit_ok && entry_ok && event_ok) {
            return Err(StorageError::Schema);
        }
        let foreign = match count_foreign_schema_objects(&conn) {
            Ok(n) => n,
            Err(e) => {
                return Err(e);
            },
        };
        if foreign != 0 {
            return Err(StorageError::Schema);
        }
        proof {
            assert(db_canonical(conn));
        }
        Ok(HabitTrackerService { conn })
    }

    /// Every stored habit, decoded, in ascending identifier order.
    pub fn get_habits(&self) -> (r: Result<Vec<Habit>, StorageError>)
        requires
            self.wf(),
        ensures
            r matches Ok(v) ==> {
                &&& v@.len() == self.contents().habits.len()
                &&& forall|i: int|
                    0 <= i < v@.len() ==> decode_habit_row(
                        (#[trigger] self.contents().habits[i]),
                    ) == Some(v@[i]@)
            },
            r matches Err(e) && (e == StorageError::InvalidEnumValue || e
                == StorageError::InvalidEncoding) ==> (exists|i: int|
                0 <= i < self.contents().habits.len() && decode_habit_row(
                    (#[trigger] self.contents().habits[i]),
                ) is None),
    {
        let rows = match query_habit_rows(&self.conn) {
            Ok(rows) => rows,
            Err(e) => {
                return Err(e);
            },
        };
        proof {
            assert forall|i: int| 0 <= i < rows@.len() implies (#[trigger] rows@[i])@
                == self.contents().habits[i] by {
                assert(habit_row_views(rows@)[i] == rows@[i]@);
            }
        }
        habits_from_rows(&rows)
    }

    /// Every stored completion record, in ascending identifier order.
    pub fn get_habit_entries(&self) -> (r: Result<Vec<HabitEntry>, StorageError>)
        requires
            self.wf(),
        ensures
            r matches Ok(v) ==> entry_views(v@) == self.contents().entries,
    {
        let rows = match query_entry_rows(&self.conn) {
            Ok(rows) => rows,
            Err(e) => {
                return Err(e);
            },
        };
        let out = entries_from_rows(&rows);
        proof {
            assert(entry_views(out@) =~= entry_row_views(rows@));
        }
        Ok(out)
    }

    /// Insert one habit, then re-read it by its store-assigned identifier,
    /// so the caller observes exactly what was persisted. On success the
    /// returned record carries the request's fields and the identifier one
    /// larger than the largest in use — 1 in an empty store. A write the
    /// store rejects leaves the contents exactly as they were.
    pub fn create_habit(&mut self, request: CreateHabitRequest) -> (r: Result<Habit, StorageError>)
        requires
            old(self).wf(),
        ensures
            final(self).wf(),
            final(self).contents().entries == old(self).contents().entries,
            final(self).contents().events == old(self).contents().events,
            r matches Ok(h) ==> {
                &&& h.habit_type == request.habit_type
                &&& h.event_ids@ == request.event_ids@
                &&& h.title@ == request.title@
                &&& h.question@ == request.question@
                &&& h.id as int == next_habit_id(old(self).contents().habits)
                &&& habit_ids_below(old(self).contents().habits, h.id as int)
                &&& final(self).contents().habits == old(self).contents().habits.push(
                    created_habit_row(request, h.id as int),
                )
            },
            r matches Err(e) ==> (e == StorageError::ConstraintViolation ==> final(self).contents()
                == old(self).contents()),
            r is Err ==> final(self).contents().habits == old(self).contents().habits || (
            exists|id: int|
                final(self).contents().habits == old(self).contents().habits.push(
                    created_habit_row(request, id),
                )),
    {
        let habit_type = encode_habit_type(&request.habit_type);
        let event_ids = encode_event_ids(&request.event_ids.values);
        let id = match insert_habit_row(
            &mut self.conn,
            habit_type.as_str(),
            event_ids.as_str(),
            request.title.as_str(),
            request.question.as_str(),
        ) {
            Ok(id) => id,
            Err(e) => {
                proof {
                    assert(db_canonical(self.conn));
                    assert(db_state(self.conn) =~= db_state(old(self).conn));
                }
                return Err(e);
            },
        };
        proof {
            assert(db_canonical(self.conn));
            lemma_next_habit_id_fresh(db_state(old(self).conn).habits);
            lemma_habits_sorted_push(
                db_state(old(self).conn).habits,
                created_habit_row(request, id as int),
            );
        }
        let row = match query_habit_row_by_id(&self.conn, id) {
            Ok(row) => row,
            Err(e) => {
                return Err(e);
            },
        };
        proof {
            let habits0 = db_state(old(self).conn).habits;
            let habits1 = db_state(self.conn).habits;
            let i = choose|i: int| 0 <= i < habits1.len() && habits1[i] == row@;
            assert(i == habits0.len());
            assert(row@ == created_habit_row(request, id as int));
            lemma_habit_type_round_trip(request.habit_type);
            lemma_string_list_round_trip(request.event_ids@);
        }
        match Habit::from_row(&row) {
            Ok(h) => Ok(h),
            Err(e) => Err(e),
        }
    }

    /// Replace every mutable field of the habit with identifier
    /// `request.id`, then re-read it. Updating an identifier that matches
    /// zero rows changes nothing at the store level, and the re-read then
    /// surfaces `NotFound` — never a default record.
    pub fn update_habit(&mut self, request: UpdateHabitRequest) -> (r: Result<Habit, StorageError>)
        requires
            old(self).wf(),
        ensures
            final(self).wf(),
            final(self).contents().entries == old(self).contents().entries,
            final(self).contents().events == old(self).contents().events,
            r matches Ok(h) ==> {
                &&& h.id == request.id
                &&& h.habit_type == request.habit_type
                &&& h.event_ids@ == request.event_ids@
                &&& h.title@ == request.title@
                &&& h.question@ == request.question@
                &&& has_habit_id(old(self).contents().habits, request.id as int)
                &&& final(self).contents().habits == updated_habit_rows(
                    old(self).contents().habits,
                    request,
                )
            },
            r matches Err(e) ==> (e == StorageError::NotFound ==> !has_habit_id(
                old(self).contents().habits,
                request.id as int,
            ) && final(self).contents() == old(self).contents()),
            r matches Err(e) ==> (e == StorageError::ConstraintViolation ==> final(self).contents()
                == old(self).contents()),
            r is Err ==> final(self).contents().habits == old(self).contents().habits
                || final(self).contents().habits == updated_habit_rows(
                old(self).contents().habits,
                request,
            ),
    {
        let habit_type = encode_habit_type(&request.habit_type);
        let event_ids = encode_event_ids(&request.event_ids.values);
        match update_habit_row(
            &mut self.conn,
            request.id,
            habit_type.as_str(),
            event_ids.as_str(),
            request.title.as_str(),
            request.question.as_str(),
        ) {
            Ok(()) => (),
            Err(e) => {
                proof {
                    assert(db_canonical(self.conn));
                    assert(db_state(self.conn) =~= db_state(old(self).conn));
                }
                return Err(e);
            },
        }
        proof {
            assert(db_canonical(self.conn));
            lemma_apply_update_ids(
                db_state(old(self).conn).habits,
                request.id as int,
                habit_type_text(request.habit_type),
                Some(encode_string_list(request.event_ids@)),
                request.title@,
                request.question@,
            );
        }
        let row = match query_habit_row_by_id(&self.conn, request.id) {
            Ok(row) => row,
            Err(e) => {
                proof {
                    let habits0 = db_state(old(self).conn).habits;
                    let habits1 = db_state(self.conn).habits;
                    if e == StorageError::NotFound {
                        assert forall|i: int|
                            0 <= i < habits0.len() implies (#[trigger] habits0[i]).id
                            != request.id as int by {
                            assert(habits1[i].id == habits0[i].id);
                        }
                        assert(db_state(self.conn) =~= db_state(old(self).conn));
                    }
                }
                return Err(e);
            },
        };
        proof {
            let habits0 = db_state(old(self).conn).habits;
            let habits1 = db_state(self.conn).habits;
            let i = choose|i: int| 0 <= i < habits1.len() && habits1[i] == row@;
            assert(habits0[i].id == habits1[i].id);
            assert(habits1[i] == HabitRowModel {
                id: habits0[i].id,
                habit_type: habit_type_text(request.habit_type),
                event_ids: Some(encode_string_list(request.event_ids@)),
                title: request.title@,
                question: request.question@,
            });
            lemma_habit_type_round_trip(request.habit_type);
            lemma_string_list_round_trip(request.event_ids@);
        }
        match Habit::from_row(&row) {
            Ok(h) => Ok(h),
            Err(e) => Err(e),
        }
    }

    /// Insert a batch of completion records in one transaction — all rows
    /// commit or none do — then re-read exactly the batch, in ascending
    /// identifier order, which is the order the items were listed in. Every
    /// record of the batch carries the same insertion time. An item the
    /// store rejects surfaces its own `ConstraintViolation`, with nothing
    /// from the batch persisted; `Transaction` is reserved for a failure to
    /// begin or commit.
    pub fn insert_habit_entries(&mut self, request: InsertHabitEntriesRequest) -> (r: Result<
        Vec<HabitEntry>,
        StorageError,
    >)
        requires
            old(self).wf(),
        ensures
            final(self).wf(),
            final(self).contents().habits == old(self).contents().habits,
            final(self).contents().events == old(self).contents().events,
            r matches Ok(v) ==> {
                &&& v@.len() == request.data@.len()
                &&& forall|i: int|
                    0 <= i < v@.len() ==> (#[trigger] v@[i]).habit_id == request.data@[i].habit_id
                        && v@[i].completed == request.data@[i].completed
                &&& forall|i: int|
                    0 <= i < v@.len() ==> (#[trigger] v@[i]).id as int == next_entry_id(
                        old(self).contents().entries,
                    ) + i
                &&& forall|i: int, j: int| 0 <= i < j < v@.len() ==> v@[i].id < v@[j].id
                &&& forall|i: int, j: int|
                    0 <= i < v@.len() && 0 <= j < v@.len() ==> v@[i].date == v@[j].date
                &&& final(self).contents().entries == old(self).contents().entries + entry_views(
                    v@,
                )
            },
            r matches Err(e) ==> (e == StorageError::ConstraintViolation ==> final(self).contents()
                == old(self).contents()),
            r is Err ==> final(self).contents().entries == old(self).contents().entries || (
            exists|d: int|
                entries_appended(
                    old(self).contents().entries,
                    final(self).contents().entries,
                    request.data@,
                    d,
                )),
    {
        let date = now_millis();
        match begin_txn(&mut self.conn) {
            Ok(()) => (),
            Err(e) => {
                return Err(e);
            },
        }
        let mut i: usize = 0;
        while i < request.data.len()
            invariant
                old(self).wf(),
                i <= request.data@.len(),
                db_in_txn(self.conn),
                db_canonical(self.conn),
                db_committed(self.conn) == db_state(old(self).conn),
                db_state(self.conn).habits == db_state(old(self).conn).habits,
                db_state(self.conn).events == db_state(old(self).conn).events,
                entries_appended(
                    db_state(old(self).conn).entries,
                    db_state(self.conn).entries,
                    request.data@.take(i as int),
                    date as int,
                ),
                entries_sorted(db_state(self.conn).entries),
            decreases request.data@.len() - i,
        {
            let item = request.data[i];
            let ghost entries_before = db_state(self.conn).entries;
            match insert_entry_row(&mut self.conn, item.completed, item.habit_id, date) {
                Ok(_) => (),
                Err(e) => {
                    rollback_txn(&mut self.conn);
                    proof {
                        assert(db_canonical(self.conn));
                        assert(db_state(self.conn) =~= db_state(old(self).conn));
                    }
                    return Err(e);
                },
            }
            proof {
                let ghost base = db_state(old(self).conn).entries;
                let row = db_state(self.conn).entries.last();
                lemma_next_entry_id_fresh(entries_before);
                lemma_entries_sorted_push(entries_before, row);
                if i == 0 {
                    assert(entries_before =~= base);
                } else {
                    assert(entries_before.last() == entries_before[base.len() + (i - 1)]);
                }
                assert(row.id == next_entry_id(base) + i);
                assert(request.data@.take(i + 1) =~= request.data@.take(i as int).push(
                    request.data@[i as int],
                ));
            }
            i = i + 1;
        }
        proof {
            assert(request.data@.take(request.data@.len() as int) =~= request.data@);
        }
        match commit_txn(&mut self.conn) {
            Ok(()) => (),
            Err(e) => {
                proof {
                    assert(db_canonical(self.conn));
                    assert(db_state(self.conn) =~= db_state(old(self).conn));
                }
                return Err(e);
            },
        }
        proof {
            assert(db_canonical(self.conn));
        }
        let rows = match query_last_entry_rows(&self.conn, request.data.len()) {
            Ok(rows) => rows,
            Err(e) => {
                return Err(e);
            },
        };
        let out = entries_from_rows(&rows);
        proof {
            let entries0 = db_state(old(self).conn).entries;
            let entries1 = db_state(self.conn).entries;
            assert(entry_row_views(rows@) == entries1.skip(entries0.len() as int));
            assert forall|k: int| 0 <= k < out@.len() implies (#[trigger] out@[k])@ == entries1[
                entries0.len() + k
            ] by {
                assert(out@[k]@ == entry_row_views(rows@)[k]);
            }
            assert(entry_views(out@) =~= entries1.skip(entries0.len() as int));
            assert(entries1 =~= entries0 + entry_views(out@));
        }
        Ok(out)
    }

    /// Every cached calendar event; the store fixes no order for them, so
    /// only the collection of records is promised.
    pub fn get_apple_calendar_events(&self) -> (r: Result<Vec<AppleCalendarEvent>, StorageError>)
        ensures
            r matches Ok(v) ==> event_views(v@).to_multiset()
                == self.contents().events.to_multiset(),
    {
        let rows = match query_event_rows(&self.conn) {
            Ok(rows) => rows,
            Err(e) => {
                return Err(e);
            },
        };
        let out = events_from_rows(&rows);
        proof {
            assert(event_views(out@) =~= event_row_views(rows@));
        }
        Ok(out)
    }

    /// Replace-all synchronization: delete every cached event and insert
    /// the given ones, in one transaction, then re-read the cache. Success
    /// tells that the given identifiers were distinct — a duplicate breaks
    /// the primary key, and the whole replacement rolls back.
    pub fn reset_apple_calendar_events(&mut self, request: Vec<AppleCalendarEvent>) -> (r: Result<
        Vec<AppleCalendarEvent>,
        StorageError,
    >)
        requires
            old(self).wf(),
        ensures
            final(self).wf(),
            final(self).contents().habits == old(self).contents().habits,
            final(self).contents().entries == old(self).contents().entries,
            r matches Ok(v) ==> {
                &&& final(self).contents().events == event_views(request@)
                &&& event_views(v@).to_multiset() == event_views(request@).to_multiset()
                &&& event_ids_distinct(event_views(request@))
            },
            r matches Err(e) ==> (e == StorageError::ConstraintViolation ==> final(self).contents()
                == old(self).contents()),
            r is Err ==> final(self).contents().events == old(self).contents().events
                || final(self).contents().events == event_views(request@),
    {
        match begin_txn(&mut self.conn) {
            Ok(()) => (),
            Err(e) => {
                return Err(e);
            },
        }
        match delete_all_events(&mut self.conn) {
            Ok(()) => (),
            Err(e) => {
                rollback_txn(&mut self.conn);
                proof {
                    assert(db_canonical(self.conn));
                    assert(db_state(self.conn) =~= db_state(old(self).conn));
                }
                return Err(e);
            },
        }
        let mut i: usize = 0;
        while i < request.len()
            invariant
                old(self).wf(),
                i <= request@.len(),
                db_in_txn(self.conn),
                db_canonical(self.conn),
                db_committed(self.conn) == db_state(old(self).conn),
                db_state(self.conn).habits == db_state(old(self).conn).habits,
                db_state(self.conn).entries == db_state(old(self).conn).entries,
                db_state(self.conn).events == event_views(request@.take(i as int)),
                event_ids_distinct(db_state(self.conn).events),
            decreases request@.len() - i,
        {
            let ghost events_before = db_state(self.conn).events;
            match insert_event_row(
                &mut self.conn,
                request[i].id.as_str(),
                request[i].name.as_str(),
                request[i].start_date,
                request[i].recurrence.as_str(),
            ) {
                Ok(()) => (),
                Err(e) => {
                    rollback_txn(&mut self.conn);
                    proof {
                        assert(db_canonical(self.conn));
                        assert(db_state(self.conn) =~= db_state(old(self).conn));
                    }
                    return Err(e);
                },
            }
            proof {
                let row = db_state(self.conn).events.last();
                lemma_event_distinct_push(events_before, row);
                assert(row =~= request@[i as int]@);
                assert(request@.take(i + 1) =~= request@.take(i as int).push(request@[i as int]));
                assert(db_state(self.conn).events =~= event_views(request@.take(i + 1)));
            }
            i = i + 1;
        }
        proof {
            assert(request@.take(request@.len() as int) =~= request@);
        }
        match commit_txn(&mut self.conn) {
            Ok(()) => (),
            Err(e) => {
                proof {
                    assert(db_canonical(self.conn));
                    assert(db_state(self.conn) =~= db_state(old(self).conn));
                }
                return Err(e);
            },
        }
        proof {
            assert(db_canonical(self.conn));
        }
        let rows = match query_event_rows(&self.conn) {
            Ok(rows) => rows,
            Err(e) => {
                return Err(e);
            },
        };
        let out = events_from_rows(&rows);
        proof {
            assert(event_views(out@) =~= event_row_views(rows@));
        }
        Ok(out)
    }
}

/// The shape of a committed batch: the old rows followed by one new row per
/// item, in order, every new row carrying the same insertion time `date`
/// and the identifiers the store hands out in sequence.
pub open spec fn entries_appended(
    old_rows: Seq<EntryRowModel>,
    new_rows: Seq<EntryRowModel>,
    items: Seq<InsertHabitEntryItem>,
    date: int,
) -> bool {
    &&& new_rows.len() == old_rows.len() + items.len()
    &&& forall|k: int| 0 <= k < old_rows.len() ==> (#[trigger] new_rows[k]) == old_rows[k]
    &&& forall|k: int|
        0 <= k < items.len() ==> {
            let row = #[trigger] new_rows[old_rows.len() + k];
            &&& row.id == next_entry_id(old_rows) + k
            &&& row.habit_id == items[k].habit_id as int
            &&& row.completed == items[k].completed
            &&& row.date == date
        }
}

/// Whether the named table's stored schema text is exactly `expected`:
/// the construction-time check behind [`crate::db::db_schema_ok`].
fn table_text_is(conn: &rusqlite::Connection, name: &str, expected: String) -> (r: Result<
    bool,
    StorageError,
>)
    ensures
        r matches Ok(b) ==> b == (table_schema_text(*conn, name@) == Some(expected@)),
        r matches Err(e) ==> e == StorageError::Connection,
{
    let text = match table_create_text(conn, name) {
        Ok(t) => t,
        Err(e) => {
            return Err(e);
        },
    };
    match text {
        Some(s) => Ok(s == expected),
        None => Ok(false),
    }
}

/// The habit rows a full-row update request leaves behind.
pub open spec fn updated_habit_rows(
    rows: Seq<HabitRowModel>,
    request: UpdateHabitRequest,
) -> Seq<HabitRowModel> {
    apply_update(
        rows,
        request.id as int,
        habit_type_text(request.habit_type),
        Some(encode_string_list(request.event_ids@)),
        request.title@,
        request.question@,
    )
}

/// The raw row a creation request persists once the store has assigned it
/// identifier `id`: the type tag and the identifier list stand encoded.
pub open spec fn created_habit_row(request: CreateHabitRequest, id: int) -> HabitRowModel {
    HabitRowModel {
        id: id,
        habit_type: habit_type_text(request.habit_type),
        event_ids: Some(encode_string_list(request.event_ids@)),
        title: request.title@,
        question: request.question@,
    }
}

} // verus!
