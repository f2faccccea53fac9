//! The trusted boundary to the embedded store.
//!
//! Everything in this module that carries `external_body` wraps one SQL
//! statement (or the few statements of schema creation) run through
//! rusqlite, and states over the model of [`crate::model`] what SQLite
//! documents about that statement.
//!
//! The model reads a connection's database as three row sequences, habit
//! and entry rows ordered by their `id` column (ties, which a canonical
//! store cannot hold, by rowid) and event rows in rowid order. What a
//! statement does to those rows depends on the schema, so every claim
//! about a write's effect is conditioned on [`db_canonical`], which has
//! two halves. [`db_schema_ok`] says the stored `CREATE` text of the
//! three tables — which SQLite keeps verbatim in its schema table —
//! equals this library's statements, so `id` is the rowid and the
//! documented assignment rule applies. [`db_schema_clean`] says the
//! schema holds nothing else besides indexes: in particular no triggers,
//! which would otherwise run their own statements inside a wrapped write,
//! and no views or foreign tables. (An index never changes what a
//! statement leaves visible in these tables; at most it makes a write
//! fail, which every failure clause allows.) The service checks both
//! halves at construction, through [`table_create_text`] and
//! [`count_foreign_schema_objects`], before anything relies on them: a
//! file holding anything beyond this library's three tables and ordinary
//! indexes is rejected there.
//!
//! Transactions are modeled by three observables: the visible contents
//! [`db_state`], the durable contents [`db_committed`], and whether an
//! explicit transaction is open [`db_in_txn`]. Outside a transaction the
//! two contents agree and every statement commits as it runs. A failed
//! statement leaves the visible contents alone — or, on the environmental
//! errors that make SQLite abort a whole transaction, rolls back to the
//! durable contents, which the failure clauses below allow. The
//! transactions this boundary runs hold data statements only, never schema
//! ones, which is why a rollback leaves the stored schema texts untouched.
//!
//! One instance owns its store: the surrounding design (one service, one
//! handle, a single logical writer) is assumed here, as no contract over
//! one connection can speak for writes arriving through another handle on
//! the same file.
//!
//! Timestamps are stored as integer milliseconds since the Unix epoch,
//! timezone-normalized to UTC, which keeps sub-second precision and binds
//! and reads back exactly.

use crate::errors::StorageError;
use crate::model::{
    apply_update, has_event_id, has_habit_id, habit_row_stored, next_entry_id, next_habit_id,
    DbContents, EntryRowModel, EventRowModel, HabitRowModel, empty_contents, habits_sorted,
    entries_sorted, event_ids_distinct,
};
use crate::app_config::in_memory_path;
use crate::rows::{entry_row_views, event_row_views, habit_row_views, EntryRow, EventRow, HabitRow};
use vstd::prelude::*;

verus! {

/// Declares rusqlite's `Connection` so it can stand in fields and
/// signatures; its state is visible only through the observables below.
#[verifier::external_type_specification]
#[verifier::external_body]
pub struct ExConnection(rusqlite::Connection);

/// The contents a connection's database shows right now.
pub uninterp spec fn db_state(c: rusqlite::Connection) -> DbContents;

/// The contents that are durable: what a rollback would restore.
pub uninterp spec fn db_committed(c: rusqlite::Connection) -> DbContents;

/// Whether an explicit transaction is open on the connection.
pub uninterp spec fn db_in_txn(c: rusqlite::Connection) -> bool;

/// The `CREATE` statement text SQLite keeps for the named table, or `None`
/// when the database holds no such table.
pub uninterp spec fn table_schema_text(c: rusqlite::Connection, table: Seq<char>) -> Option<
    Seq<char>,
>;

/// Whether the database's schema holds nothing beyond this library's three
/// tables and index objects: no triggers — which would run statements of
/// their own inside a write — and no views or foreign tables.
pub uninterp spec fn db_schema_clean(c: rusqlite::Connection) -> bool;

/// The stored text of this library's `habit` table: the executed statement
/// with the `IF NOT EXISTS` clause dropped, as SQLite keeps it.
pub open spec fn habit_schema_sql() -> Seq<char> {
    "CREATE TABLE habit (id INTEGER PRIMARY KEY, habitType TEXT CHECK(habitType IN('daily', 'appleCalendar')) NOT NULL DEFAULT 'daily', eventIds TEXT NULL, title TEXT NOT NULL, question TEXT NOT NULL)"@
}

/// The stored text of this library's `habitEntry` table.
pub open spec fn entry_schema_sql() -> Seq<char> {
    "CREATE TABLE habitEntry (id INTEGER PRIMARY KEY, completed BOOLEAN NOT NULL CHECK(completed IN (0, 1)), date INTEGER NOT NULL, habitId INTEGER, FOREIGN KEY(habitId) REFERENCES habit(id))"@
}

/// The stored text of this library's `appleCalendarEvent` table.
pub open spec fn event_schema_sql() -> Seq<char> {
    "CREATE TABLE appleCalendarEvent (id TEXT PRIMARY KEY, name TEXT NOT NULL, startDate INTEGER NOT NULL, recurrence TEXT NOT NULL)"@
}

/// The canonical `habit` statement as a value, for the construction check.
pub(crate) fn habit_schema_string() -> (r: String)
    ensures
        r@ == habit_schema_sql(),
{
    "CREATE TABLE habit (id INTEGER PRIMARY KEY, habitType TEXT CHECK(habitType IN('daily', 'appleCalendar')) NOT NULL DEFAULT 'daily', eventIds TEXT NULL, title TEXT NOT NULL, question TEXT NOT NULL)".to_owned()
}

/// The canonical `habitEntry` statement as a value.
pub(crate) fn entry_schema_string() -> (r: String)
    ensures
        r@ == entry_schema_sql(),
{
    "CREATE TABLE habitEntry (id INTEGER PRIMARY KEY, completed BOOLEAN NOT NULL CHECK(completed IN (0, 1)), date INTEGER NOT NULL, habitId INTEGER, FOREIGN KEY(habitId) REFERENCES habit(id))".to_owned()
}

/// The canonical `appleCalendarEvent` statement as a value.
pub(crate) fn event_schema_string() -> (r: String)
    ensures
        r@ == event_schema_sql(),
{
    "CREATE TABLE appleCalendarEvent (id TEXT PRIMARY KEY, name TEXT NOT NULL, startDate INTEGER NOT NULL, recurrence TEXT NOT NULL)".to_owned()
}

/// Whether the three tables carry exactly this library's schema, so that
/// `id` is the rowid of the habit and entry tables and the event table's
/// key is declared primary.
pub open spec fn db_schema_ok(c: rusqlite::Connection) -> bool {
    &&& table_schema_text(c, "habit"@) == Some(habit_schema_sql())
    &&& table_schema_text(c, "habitEntry"@) == Some(entry_schema_sql())
    &&& table_schema_text(c, "appleCalendarEvent"@) == Some(event_schema_sql())
}

/// Both halves of the construction-time schema check: the three tables
/// carry exactly this library's statements, and nothing else but indexes
/// stands in the schema. Every claim about a write's effect assumes this.
pub open spec fn db_canonical(c: rusqlite::Connection) -> bool {
    db_schema_ok(c) && db_schema_clean(c)
}

/// No table's stored schema text differs between the two states, and the
/// schema is clean in one exactly when it is in the other.
pub open spec fn same_schema(c1: rusqlite::Connection, c2: rusqlite::Connection) -> bool {
    &&& forall|t: Seq<char>| #[trigger] table_schema_text(c1, t) == table_schema_text(c2, t)
    &&& db_schema_clean(c1) == db_schema_clean(c2)
}

/// Relies on rusqlite's `Connection::open`: opens or creates the store at
/// `path`; the path `":memory:"` names a fresh in-memory database, which
/// is empty and holds no tables. A new connection is in autocommit mode
/// with nothing pending. Nothing is assumed of what a file already
/// contained.
#[verifier::external_body]
pub(crate) fn open_connection(path: &str) -> (r: Result<rusqlite::Connection, StorageError>)
    ensures
        r matches Ok(c) ==> {
            &&& !db_in_txn(c)
            &&& db_committed(c) == db_state(c)
            &&& (path@ == in_memory_path() ==> {
                &&& db_state(c) == empty_contents()
                &&& table_schema_text(c, "habit"@) is None
                &&& table_schema_text(c, "habitEntry"@) is None
                &&& table_schema_text(c, "appleCalendarEvent"@) is None
                &&& db_schema_clean(c)
            })
        },
        r matches Err(e) ==> e == StorageError::Connection,
{
    match rusqlite::Connection::open(path) {
        Ok(c) => Ok(c),
        Err(_) => Err(StorageError::Connection),
    }
}

/// Relies on rusqlite's `Connection::transaction` and `execute` running
/// `CREATE TABLE IF NOT EXISTS` for the three tables in one transaction:
/// existing rows and existing tables are never touched; a table that was
/// absent exists afterwards with this library's schema text (SQLite stores
/// the statement with `IF NOT EXISTS` dropped); what it creates — tables
/// and their automatic indexes — keeps a clean schema clean, and it drops
/// nothing, so a foreign object stays. The last clause is the
/// model's reading made explicit: when the stored schemas are canonical,
/// `id` is the primary key, so the by-key model is strictly ascending and
/// event keys are unique.
#[verifier::external_body]
pub(crate) fn create_schema(c: &mut rusqlite::Connection) -> (r: Result<(), StorageError>)
    requires
        !db_in_txn(*old(c)),
    ensures
        db_state(*final(c)) == db_state(*old(c)),
        db_committed(*final(c)) == db_committed(*old(c)),
        !db_in_txn(*final(c)),
        r is Ok ==> {
            &&& table_schema_text(*final(c), "habit"@) == (match table_schema_text(
                *old(c),
                "habit"@,
            ) {
                None => Some(habit_schema_sql()),
                Some(s) => Some(s),
            })
            &&& table_schema_text(*final(c), "habitEntry"@) == (match table_schema_text(
                *old(c),
                "habitEntry"@,
            ) {
                None => Some(entry_schema_sql()),
                Some(s) => Some(s),
            })
            &&& table_schema_text(*final(c), "appleCalendarEvent"@) == (match table_schema_text(
                *old(c),
                "appleCalendarEvent"@,
            ) {
                None => Some(event_schema_sql()),
                Some(s) => Some(s),
            })
            &&& db_schema_clean(*final(c)) == db_schema_clean(*old(c))
            &&& (db_schema_ok(*final(c)) ==> habits_sorted(db_state(*final(c)).habits)
                && entries_sorted(db_state(*final(c)).entries) && event_ids_distinct(
                db_state(*final(c)).events,
            ))
        },
        r is Err ==> same_schema(*final(c), *old(c)),
        r matches Err(e) ==> e == StorageError::Schema,
{
    let tx = match c.transaction() { Ok(t) => t, Err(_) => return Err(StorageError::Schema) };
    if tx.execute("CREATE TABLE IF NOT EXISTS habit (id INTEGER PRIMARY KEY, habitType TEXT CHECK(habitType IN('daily', 'appleCalendar')) NOT NULL DEFAULT 'daily', eventIds TEXT NULL, title TEXT NOT NULL, question TEXT NOT NULL)", ()).is_err() { return Err(StorageError::Schema); }
    if tx.execute("CREATE TABLE IF NOT EXISTS habitEntry (id INTEGER PRIMARY KEY, completed BOOLEAN NOT NULL CHECK(completed IN (0, 1)), date INTEGER NOT NULL, habitId INTEGER, FOREIGN KEY(habitId) REFERENCES habit(id))", ()).is_err() { return Err(StorageError::Schema); }
    if tx.execute("CREATE TABLE IF NOT EXISTS appleCalendarEvent (id TEXT PRIMARY KEY, name TEXT NOT NULL, startDate INTEGER NOT NULL, recurrence TEXT NOT NULL)", ()).is_err() { return Err(StorageError::Schema); }
    match tx.commit() { Ok(()) => Ok(()), Err(_) => Err(StorageError::Schema) }
}

/// Relies on rusqlite's `Connection::query_row` over `SELECT sql FROM
/// sqlite_master`: the stored `CREATE` statement text of the named table,
/// or `None` when no such table exists. This is what the service compares,
/// in verified code, against the canonical statements.
#[verifier::external_body]
pub(crate) fn table_create_text(c: &rusqlite::Connection, name: &str) -> (r: Result<Option<String>, StorageError>)
    ensures
        r matches Ok(t) ==> table_schema_text(*c, name@) == (match t {
            Some(s) => Some(s@),
            None => None::<Seq<char>>,
        }),
        r matches Err(e) ==> e == StorageError::Connection,
{
    let res = c.query_row(
        "SELECT sql FROM sqlite_master WHERE type = 'table' AND name = ?1",
        (name,),
        |row| row.get(0),
    );
    match res {
        Ok(t) => Ok(t),
        Err(rusqlite::Error::QueryReturnedNoRows) => Ok(None),
        Err(_) => Err(StorageError::Connection),
    }
}

/// Relies on rusqlite's `Connection::query_row` counting the
/// `sqlite_master` rows that are neither this library's three tables nor
/// index objects: zero exactly when the schema is clean — free of
/// triggers, views and foreign tables.
#[verifier::external_body]
pub(crate) fn count_foreign_schema_objects(c: &rusqlite::Connection) -> (r: Result<i64, StorageError>)
    ensures
        r matches Ok(n) ==> ((n == 0) == db_schema_clean(*c)),
        r matches Err(e) ==> e == StorageError::Connection,
{
    let res = c.query_row(
        "SELECT count(*) FROM sqlite_master WHERE NOT ((type = 'table' AND name IN ('habit', 'habitEntry', 'appleCalendarEvent')) OR type = 'index')",
        (),
        |row| row.get(0),
    );
    match res {
        Ok(n) => Ok(n),
        Err(_) => Err(StorageError::Connection),
    }
}

/// Relies on rusqlite's `Connection::execute` running one `INSERT INTO
/// habit`, and `last_insert_rowid`: under the canonical, trigger-free
/// schema — where `id` is the rowid and nothing else runs — the row is
/// appended with the identifier one larger
/// than the largest in use, 1 in an empty table, as SQLite documents (the
/// rule changes only once the largest possible rowid is in use, which this
/// store never reaches). A failed statement changes nothing, or — on an
/// environmental error inside a transaction — rolls the transaction back
/// to the durable contents.
#[verifier::external_body]
pub(crate) fn insert_habit_row(
    c: &mut rusqlite::Connection,
    habit_type: &str,
    event_ids: &str,
    title: &str,
    question: &str,
) -> (r: Result<i64, StorageError>)
    ensures
        same_schema(*final(c), *old(c)),
        db_committed(*final(c)) == if db_in_txn(*old(c)) {
            db_committed(*old(c))
        } else {
            db_state(*final(c))
        },
        r matches Ok(id) ==> {
            &&& db_in_txn(*final(c)) == db_in_txn(*old(c))
            &&& (db_canonical(*old(c)) ==> {
                &&& db_state(*final(c)).entries == db_state(*old(c)).entries
                &&& db_state(*final(c)).events == db_state(*old(c)).events
                &&& id as int == next_habit_id(db_state(*old(c)).habits)
                &&& db_state(*final(c)).habits == db_state(*old(c)).habits.push(
                    HabitRowModel {
                        id: id as int,
                        habit_type: habit_type@,
                        event_ids: Some(event_ids@),
                        title: title@,
                        question: question@,
                    },
                )
            })
        },
        r is Err ==> (db_state(*final(c)) == db_state(*old(c)) && db_in_txn(*final(c)) == db_in_txn(
            *old(c),
        )) || (db_state(*final(c)) == db_committed(*old(c)) && !db_in_txn(*final(c))),
        r matches Err(e) ==> e == StorageError::ConstraintViolation,
{
    let res = c.execute(
        "INSERT INTO habit (habitType, eventIds, title, question) VALUES (?1, ?2, ?3, ?4)",
        (habit_type, event_ids, title, question),
    );
    match res {
        Ok(_) => Ok(c.last_insert_rowid()),
        Err(_) => Err(StorageError::ConstraintViolation),
    }
}

/// Relies on rusqlite's `Connection::query_row` over `SELECT ... WHERE id`:
/// a returned row is a stored row carrying that identifier, and
/// `Err(QueryReturnedNoRows)` — surfaced as `NotFound` — comes exactly when
/// the table holds no such row.
#[verifier::external_body]
pub(crate) fn query_habit_row_by_id(c: &rusqlite::Connection, id: i64) -> (r: Result<HabitRow, StorageError>)
    ensures
        r matches Ok(row) ==> habit_row_stored(db_state(*c).habits, row@) && row@.id == id as int,
        r matches Err(e) && e == StorageError::NotFound ==> !has_habit_id(
            db_state(*c).habits,
            id as int,
        ),
        r is Ok ==> has_habit_id(db_state(*c).habits, id as int),
        r matches Err(e) ==> (e == StorageError::NotFound || e == StorageError::Schema),
{
    let res = c.query_row(
        "SELECT id, habitType, eventIds, title, question FROM habit WHERE id = ?1",
        (id,),
        |row| Ok(HabitRow { id: row.get(0)?, habit_type: row.get(1)?, event_ids: row.get(2)?, title: row.get(3)?, question: row.get(4)? }),
    );
    match res {
        Ok(h) => Ok(h),
        Err(rusqlite::Error::QueryReturnedNoRows) => Err(StorageError::NotFound),
        Err(_) => Err(StorageError::Schema),
    }
}

/// Relies on rusqlite's `prepare`/`query_map` over `SELECT ... ORDER BY id
/// ASC`: every stored habit row, in ascending identifier order — exactly
/// the model sequence under the canonical schema, whose primary key rules
/// ties out.
#[verifier::external_body]
pub(crate) fn query_habit_rows(c: &rusqlite::Connection) -> (r: Result<Vec<HabitRow>, StorageError>)
    ensures
        r matches Ok(v) ==> (db_schema_ok(*c) ==> habit_row_views(v@) == db_state(*c).habits),
        r matches Err(e) ==> (e == StorageError::Connection || e == StorageError::Schema),
{
    let mapper = |row: &rusqlite::Row| -> rusqlite::Result<HabitRow> { Ok(HabitRow { id: row.get(0)?, habit_type: row.get(1)?, event_ids: row.get(2)?, title: row.get(3)?, question: row.get(4)? }) };
    let mut stmt = match c.prepare("SELECT id, habitType, eventIds, title, question FROM habit ORDER BY id ASC") { Ok(s) => s, Err(_) => return Err(StorageError::Connection) };
    let iter = match stmt.query_map((), mapper) { Ok(it) => it, Err(_) => return Err(StorageError::Connection) };
    match iter.collect::<rusqlite::Result<Vec<HabitRow>>>() { Ok(v) => Ok(v), Err(_) => Err(StorageError::Schema) }
}

/// Relies on rusqlite's `Connection::execute` running one `UPDATE habit ...
/// WHERE id`: under the canonical, trigger-free schema each matching row
/// takes the new fields in place, keeping its position, and no other table
/// moves. A failed statement changes nothing, or — on an environmental
/// error inside a transaction — rolls back to the durable contents.
#[verifier::external_body]
pub(crate) fn update_habit_row(
    c: &mut rusqlite::Connection,
    id: i64,
    habit_type: &str,
    event_ids: &str,
    title: &str,
    question: &str,
) -> (r: Result<(), StorageError>)
    ensures
        same_schema(*final(c), *old(c)),
        db_committed(*final(c)) == if db_in_txn(*old(c)) {
            db_committed(*old(c))
        } else {
            db_state(*final(c))
        },
        r is Ok ==> {
            &&& db_in_txn(*final(c)) == db_in_txn(*old(c))
            &&& (db_canonical(*old(c)) ==> {
                &&& db_state(*final(c)).entries == db_state(*old(c)).entries
                &&& db_state(*final(c)).events == db_state(*old(c)).events
                &&& db_state(*final(c)).habits == apply_update(
                    db_state(*old(c)).habits,
                    id as int,
                    habit_type@,
                    Some(event_ids@),
                    title@,
                    question@,
                )
            })
        },
        r is Err ==> (db_state(*final(c)) == db_state(*old(c)) && db_in_txn(*final(c)) == db_in_txn(
            *old(c),
        )) || (db_state(*final(c)) == db_committed(*old(c)) && !db_in_txn(*final(c))),
        r matches Err(e) ==> e == StorageError::ConstraintViolation,
{
    let res = c.execute(
        "UPDATE habit SET habitType = ?1, eventIds = ?2, title = ?3, question = ?4 WHERE id = ?5",
        (habit_type, event_ids, title, question, id),
    );
    match res {
        Ok(_) => Ok(()),
        Err(_) => Err(StorageError::ConstraintViolation),
    }
}

/// Relies on rusqlite's `Connection::execute` running one `INSERT INTO
/// habitEntry`, and `last_insert_rowid`: under the canonical, trigger-free
/// schema the row is appended with the identifier one larger than the largest in use,
/// 1 in an empty table, as SQLite documents. A failed statement changes
/// nothing, or — on an environmental error inside a transaction — rolls
/// back to the durable contents.
#[verifier::external_body]
pub(crate) fn insert_entry_row(
    c: &mut rusqlite::Connection,
    completed: bool,
    habit_id: i64,
    date: i64,
) -> (r: Result<i64, StorageError>)
    ensures
        same_schema(*final(c), *old(c)),
        db_committed(*final(c)) == if db_in_txn(*old(c)) {
            db_committed(*old(c))
        } else {
            db_state(*final(c))
        },
        r matches Ok(id) ==> {
            &&& db_in_txn(*final(c)) == db_in_txn(*old(c))
            &&& (db_canonical(*old(c)) ==> {
                &&& db_state(*final(c)).habits == db_state(*old(c)).habits
                &&& db_state(*final(c)).events == db_state(*old(c)).events
                &&& id as int == next_entry_id(db_state(*old(c)).entries)
                &&& db_state(*final(c)).entries == db_state(*old(c)).entries.push(
                    EntryRowModel {
                        id: id as int,
                        completed: completed,
                        date: date as int,
                        habit_id: habit_id as int,
                    },
                )
            })
        },
        r is Err ==> (db_state(*final(c)) == db_state(*old(c)) && db_in_txn(*final(c)) == db_in_txn(
            *old(c),
        )) || (db_state(*final(c)) == db_committed(*old(c)) && !db_in_txn(*final(c))),
        r matches Err(e) ==> e == StorageError::ConstraintViolation,
{
    let res = c.execute(
        "INSERT INTO habitEntry (completed, habitId, date) VALUES (?1, ?2, ?3)",
        (completed, habit_id, date),
    );
    match res {
        Ok(_) => Ok(c.last_insert_rowid()),
        Err(_) => Err(StorageError::ConstraintViolation),
    }
}

/// Relies on rusqlite's `prepare`/`query_map` over `SELECT ... ORDER BY id
/// ASC`: every stored entry row, in ascending identifier order — exactly
/// the model sequence under the canonical schema.
#[verifier::external_body]
pub(crate) fn query_entry_rows(c: &rusqlite::Connection) -> (r: Result<Vec<EntryRow>, StorageError>)
    ensures
        r matches Ok(v) ==> (db_schema_ok(*c) ==> entry_row_views(v@) == db_state(*c).entries),
        r matches Err(e) ==> (e == StorageError::Connection || e == StorageError::Schema),
{
    let mapper = |row: &rusqlite::Row| -> rusqlite::Result<EntryRow> { Ok(EntryRow { id: row.get(0)?, completed: row.get(1)?, date: row.get(2)?, habit_id: row.get(3)? }) };
    let mut stmt = match c.prepare("SELECT id, completed, date, habitId FROM habitEntry ORDER BY id ASC") { Ok(s) => s, Err(_) => return Err(StorageError::Connection) };
    let iter = match stmt.query_map((), mapper) { Ok(it) => it, Err(_) => return Err(StorageError::Connection) };
    match iter.collect::<rusqlite::Result<Vec<EntryRow>>>() { Ok(v) => Ok(v), Err(_) => Err(StorageError::Schema) }
}

/// Relies on rusqlite's `prepare`/`query_map` over the nested `ORDER BY id
/// DESC LIMIT` / `ORDER BY id ASC` query: the `n` stored entry rows with
/// the largest identifiers, ascending — the model sequence's tail under
/// the canonical schema.
#[verifier::external_body]
pub(crate) fn query_last_entry_rows(c: &rusqlite::Connection, n: usize) -> (r: Result<Vec<EntryRow>, StorageError>)
    ensures
        r matches Ok(v) ==> (db_schema_ok(*c) ==> entry_row_views(v@) == db_state(*c).entries.skip(
            if n as int <= db_state(*c).entries.len() {
                db_state(*c).entries.len() - n as int
            } else {
                0
            },
        )),
        r matches Err(e) ==> (e == StorageError::Connection || e == StorageError::Schema),
{
    let mapper = |row: &rusqlite::Row| -> rusqlite::Result<EntryRow> { Ok(EntryRow { id: row.get(0)?, completed: row.get(1)?, date: row.get(2)?, habit_id: row.get(3)? }) };
    let mut stmt = match c.prepare("SELECT id, completed, date, habitId FROM (SELECT id, completed, date, habitId FROM habitEntry ORDER BY id DESC LIMIT ?1) ORDER BY id ASC") { Ok(s) => s, Err(_) => return Err(StorageError::Connection) };
    let iter = match stmt.query_map((n as i64,), mapper) { Ok(it) => it, Err(_) => return Err(StorageError::Connection) };
    match iter.collect::<rusqlite::Result<Vec<EntryRow>>>() { Ok(v) => Ok(v), Err(_) => Err(StorageError::Schema) }
}

/// Relies on rusqlite's `execute_batch` running `BEGIN`: on success the
/// connection leaves autocommit mode; what is durable stays as it was, and
/// nothing is pending yet.
#[verifier::external_body]
pub(crate) fn begin_txn(c: &mut rusqlite::Connection) -> (r: Result<(), StorageError>)
    requires
        !db_in_txn(*old(c)),
    ensures
        db_state(*final(c)) == db_state(*old(c)),
        same_schema(*final(c), *old(c)),
        r is Ok ==> db_in_txn(*final(c)) && db_committed(*final(c)) == db_state(*old(c)),
        r is Err ==> !db_in_txn(*final(c)) && db_committed(*final(c)) == db_committed(*old(c)),
        r matches Err(e) ==> e == StorageError::Transaction,
{
    match c.execute_batch("BEGIN") {
        Ok(()) => Ok(()),
        Err(_) => Err(StorageError::Transaction),
    }
}

/// Relies on rusqlite's `execute_batch` running `COMMIT`: on success the
/// pending changes become durable; on failure the transaction is rolled
/// back (a best-effort `ROLLBACK` follows a failed `COMMIT`), restoring the
/// durable contents.
#[verifier::external_body]
pub(crate) fn commit_txn(c: &mut rusqlite::Connection) -> (r: Result<(), StorageError>)
    requires
        db_in_txn(*old(c)),
    ensures
        !db_in_txn(*final(c)),
        same_schema(*final(c), *old(c)),
        r is Ok ==> db_state(*final(c)) == db_state(*old(c)) && db_committed(*final(c)) == db_state(
            *old(c),
        ),
        r is Err ==> db_state(*final(c)) == db_committed(*old(c)) && db_committed(*final(c))
            == db_committed(*old(c)),
        r matches Err(e) ==> e == StorageError::Transaction,
{
    match c.execute_batch("COMMIT") {
        Ok(()) => Ok(()),
        Err(_) => {
            let _ = c.execute_batch("ROLLBACK");
            Err(StorageError::Transaction)
        },
    }
}

/// Relies on rusqlite's `execute_batch` running `ROLLBACK`: pending
/// changes are discarded and the durable contents show again. When no
/// transaction is open — the failed statement may already have forced
/// SQLite to roll back — the statement fails without effect, and the
/// precondition says the visible contents already equal the durable ones.
#[verifier::external_body]
pub(crate) fn rollback_txn(c: &mut rusqlite::Connection)
    requires
        db_in_txn(*old(c)) || db_state(*old(c)) == db_committed(*old(c)),
    ensures
        !db_in_txn(*final(c)),
        db_state(*final(c)) == db_committed(*old(c)),
        db_committed(*final(c)) == db_committed(*old(c)),
        same_schema(*final(c), *old(c)),
{
    let _ = c.execute_batch("ROLLBACK");
}

/// Relies on rusqlite's `Connection::execute` running `DELETE FROM
/// appleCalendarEvent`: under the canonical, trigger-free schema every
/// event row is removed and nothing else moves. A failed statement
/// changes nothing, or — on an environmental error inside a transaction —
/// rolls back to the durable contents.
#[verifier::external_body]
pub(crate) fn delete_all_events(c: &mut rusqlite::Connection) -> (r: Result<(), StorageError>)
    ensures
        same_schema(*final(c), *old(c)),
        db_committed(*final(c)) == if db_in_txn(*old(c)) {
            db_committed(*old(c))
        } else {
            db_state(*final(c))
        },
        r is Ok ==> {
            &&& db_in_txn(*final(c)) == db_in_txn(*old(c))
            &&& (db_canonical(*old(c)) ==> {
                &&& db_state(*final(c)).habits == db_state(*old(c)).habits
                &&& db_state(*final(c)).entries == db_state(*old(c)).entries
                &&& db_state(*final(c)).events == Seq::<EventRowModel>::empty()
            })
        },
        r is Err ==> (db_state(*final(c)) == db_state(*old(c)) && db_in_txn(*final(c)) == db_in_txn(
            *old(c),
        )) || (db_state(*final(c)) == db_committed(*old(c)) && !db_in_txn(*final(c))),
        r matches Err(e) ==> e == StorageError::ConstraintViolation,
{
    match c.execute("DELETE FROM appleCalendarEvent", ()) {
        Ok(_) => Ok(()),
        Err(_) => Err(StorageError::ConstraintViolation),
    }
}

/// Relies on rusqlite's `Connection::execute` running one `INSERT INTO
/// appleCalendarEvent`: under the canonical, trigger-free schema the row
/// is appended and nothing else moves; the identifier is the declared
/// primary key, so a duplicate makes the statement fail and success tells
/// the identifier was new. A failed statement changes nothing, or — on an environmental error
/// inside a transaction — rolls back to the durable contents.
#[verifier::external_body]
pub(crate) fn insert_event_row(
    c: &mut rusqlite::Connection,
    id: &str,
    name: &str,
    start_date: i64,
    recurrence: &str,
) -> (r: Result<(), StorageError>)
    ensures
        same_schema(*final(c), *old(c)),
        db_committed(*final(c)) == if db_in_txn(*old(c)) {
            db_committed(*old(c))
        } else {
            db_state(*final(c))
        },
        r is Ok ==> {
            &&& db_in_txn(*final(c)) == db_in_txn(*old(c))
            &&& (db_canonical(*old(c)) ==> {
                &&& db_state(*final(c)).habits == db_state(*old(c)).habits
                &&& db_state(*final(c)).entries == db_state(*old(c)).entries
                &&& db_state(*final(c)).events == db_state(*old(c)).events.push(
                    EventRowModel {
                        id: id@,
                        name: name@,
                        start_date: start_date as int,
                        recurrence: recurrence@,
                    },
                )
                &&& !has_event_id(db_state(*old(c)).events, id@)
            })
        },
        r is Err ==> (db_state(*final(c)) == db_state(*old(c)) && db_in_txn(*final(c)) == db_in_txn(
            *old(c),
        )) || (db_state(*final(c)) == db_committed(*old(c)) && !db_in_txn(*final(c))),
        r matches Err(e) ==> e == StorageError::ConstraintViolation,
{
    let res = c.execute(
        "INSERT INTO appleCalendarEvent (id, name, startDate, recurrence) VALUES (?1, ?2, ?3, ?4)",
        (id, name, start_date, recurrence),
    );
    match res {
        Ok(_) => Ok(()),
        Err(_) => Err(StorageError::ConstraintViolation),
    }
}

/// Relies on rusqlite's `prepare`/`query_map` over `SELECT` without an
/// ordering clause: every stored event row exactly once, in an order SQLite
/// leaves open — so only the multiset of rows is stated.
#[verifier::external_body]
pub(crate) fn query_event_rows(c: &rusqlite::Connection) -> (r: Result<Vec<EventRow>, StorageError>)
    ensures
        r matches Ok(v) ==> event_row_views(v@).to_multiset() == db_state(
            *c,
        ).events.to_multiset(),
        r matches Err(e) ==> (e == StorageError::Connection || e == StorageError::Schema),
{
    let mapper = |row: &rusqlite::Row| -> rusqlite::Result<EventRow> { Ok(EventRow { id: row.get(0)?, name: row.get(1)?, start_date: row.get(2)?, recurrence: row.get(3)? }) };
    let mut stmt = match c.prepare("SELECT id, name, startDate, recurrence FROM appleCalendarEvent") { Ok(s) => s, Err(_) => return Err(StorageError::Connection) };
    let iter = match stmt.query_map((), mapper) { Ok(it) => it, Err(_) => return Err(StorageError::Connection) };
    match iter.collect::<rusqlite::Result<Vec<EventRow>>>() { Ok(v) => Ok(v), Err(_) => Err(StorageError::Schema) }
}

/// Relies on chrono's `Utc::now`: the current instant, in milliseconds
/// since the Unix epoch. Nothing is assumed about the value.
#[verifier::external_body]
pub(crate) fn now_millis() -> i64 {
    chrono::Utc::now().timestamp_millis()
}

} // verus!
