use habit_tracker::api::{AppleCalendarEvent, HabitTrackerService};
use habit_tracker::{
    get_test_app_config, AppConfig, CreateHabitRequest, EventIds, Habit, HabitType,
    InsertHabitEntriesRequest, InsertHabitEntryItem, StorageError, UpdateHabitRequest,
};

fn test_service() -> HabitTrackerService {
    HabitTrackerService::build(get_test_app_config().unwrap()).unwrap()
}

/// Creating the first habit in an empty store assigns identifier 1 and a
/// later listing returns exactly that record.
#[test]
fn create_daily_habit_scenario() {
    let mut service = test_service();
    let habit = service
        .create_habit(CreateHabitRequest {
            habit_type: HabitType::Daily,
            event_ids: EventIds { values: vec![] },
            title: "Drink water".to_owned(),
            question: "Did you drink water?".to_owned(),
        })
        .unwrap();
    let expected = Habit {
        id: 1,
        habit_type: HabitType::Daily,
        event_ids: EventIds { values: vec![] },
        title: "Drink water".to_owned(),
        question: "Did you drink water?".to_owned(),
    };
    assert_eq!(habit, expected);
    assert_eq!(service.get_habits().unwrap(), vec![expected]);
}

/// A two-item batch comes back in call order with ascending identifiers and
/// an insertion time within a few seconds of the call.
#[test]
fn insert_entries_scenario() {
    let mut service = test_service();
    service
        .create_habit(CreateHabitRequest {
            habit_type: HabitType::Daily,
            event_ids: EventIds { values: vec![] },
            title: "Drink water".to_owned(),
            question: "Did you drink water?".to_owned(),
        })
        .unwrap();
    let before = chrono::Utc::now().timestamp_millis();
    let entries = service
        .insert_habit_entries(InsertHabitEntriesRequest {
            data: vec![
                InsertHabitEntryItem {
                    habit_id: 1,
                    completed: true,
                },
                InsertHabitEntryItem {
                    habit_id: 1,
                    completed: false,
                },
            ],
        })
        .unwrap();
    let after = chrono::Utc::now().timestamp_millis();

    assert_eq!(entries.len(), 2);
    assert!(entries[0].id < entries[1].id);
    assert!(entries[0].completed);
    assert!(!entries[1].completed);
    assert_eq!(entries[0].habit_id, 1);
    assert_eq!(entries[1].habit_id, 1);
    for entry in &entries {
        assert!(before - 5_000 <= entry.date && entry.date <= after + 5_000);
    }
}

/// Per-position identifiers are strictly increasing across batches too.
#[test]
fn entry_ids_strictly_increase() {
    let mut service = test_service();
    service
        .create_habit(CreateHabitRequest {
            habit_type: HabitType::Daily,
            event_ids: EventIds { values: vec![] },
            title: "t".to_owned(),
            question: "q".to_owned(),
        })
        .unwrap();
    let first = service
        .insert_habit_entries(InsertHabitEntriesRequest {
            data: vec![
                InsertHabitEntryItem {
                    habit_id: 1,
                    completed: true,
                },
                InsertHabitEntryItem {
                    habit_id: 1,
                    completed: true,
                },
            ],
        })
        .unwrap();
    let second = service
        .insert_habit_entries(InsertHabitEntriesRequest {
            data: vec![InsertHabitEntryItem {
                habit_id: 1,
                completed: false,
            }],
        })
        .unwrap();
    assert_eq!(
        first.iter().map(|e| e.id).collect::<Vec<_>>(),
        vec![1, 2]
    );
    assert_eq!(second[0].id, 3);
}

/// Updating an identifier that matches zero rows fails with `NotFound` and
/// never fabricates a record.
#[test]
fn update_missing_habit_scenario() {
    let mut service = test_service();
    let result = service.update_habit(UpdateHabitRequest {
        id: 999,
        habit_type: HabitType::Daily,
        event_ids: EventIds { values: vec![] },
        title: "t".to_owned(),
        question: "q".to_owned(),
    });
    assert_eq!(result.unwrap_err(), StorageError::NotFound);
    assert!(service.get_habits().unwrap().is_empty());
}

/// Applying the same update twice leaves the same state as applying it once.
#[test]
fn update_is_idempotent() {
    let mut service = test_service();
    service
        .create_habit(CreateHabitRequest {
            habit_type: HabitType::Daily,
            event_ids: EventIds { values: vec![] },
            title: "before".to_owned(),
            question: "before?".to_owned(),
        })
        .unwrap();
    let request = || UpdateHabitRequest {
        id: 1,
        habit_type: HabitType::AppleCalendar,
        event_ids: EventIds {
            values: vec!["e1".to_owned()],
        },
        title: "after".to_owned(),
        question: "after?".to_owned(),
    };
    let once = service.update_habit(request()).unwrap();
    let listed_once = service.get_habits().unwrap();
    let twice = service.update_habit(request()).unwrap();
    let listed_twice = service.get_habits().unwrap();
    assert_eq!(once, twice);
    assert_eq!(listed_once, listed_twice);
}

/// A replacement batch with a duplicate identifier violates the primary key
/// and leaves the cache untouched: no partial replacement is ever visible.
#[test]
fn duplicate_event_ids_roll_back() {
    let mut service = test_service();
    let keeper = AppleCalendarEvent {
        id: "keep".to_owned(),
        name: "kept event".to_owned(),
        start_date: 0,
        recurrence: "weekly".to_owned(),
    };
    service
        .reset_apple_calendar_events(vec![keeper.clone()])
        .unwrap();
    let duplicate = AppleCalendarEvent {
        id: "dup".to_owned(),
        name: "twice".to_owned(),
        start_date: 1,
        recurrence: "daily".to_owned(),
    };
    let result = service.reset_apple_calendar_events(vec![duplicate.clone(), duplicate]);
    assert_eq!(result.unwrap_err(), StorageError::ConstraintViolation);
    assert_eq!(service.get_apple_calendar_events().unwrap(), vec![keeper]);
}

/// A file whose tables were not created by this library is rejected at
/// construction: nothing can be promised of a foreign schema.
#[test]
fn foreign_schema_is_rejected() {
    let path = "/tmp/habit_tracker_foreign_schema_test.db";
    let conn = rusqlite::Connection::open(path).unwrap();
    conn.execute(
        "CREATE TABLE IF NOT EXISTS habit (id INT, habitType TEXT, eventIds TEXT, title TEXT, question TEXT)",
        (),
    )
    .unwrap();
    drop(conn);
    let result = HabitTrackerService::build(AppConfig {
        db_path: path.to_owned(),
    });
    assert_eq!(result.unwrap_err(), StorageError::Schema);
}

/// A file whose tables are the canonical ones but which carries a trigger
/// is rejected at construction: a trigger would run statements of its own
/// inside every write.
#[test]
fn trigger_in_store_is_rejected() {
    let path = format!(
        "/tmp/habit_tracker_trigger_test_{}.db",
        chrono::Utc::now().timestamp_nanos_opt().unwrap()
    );
    // lay the canonical tables out with the library itself
    let service = HabitTrackerService::build(AppConfig {
        db_path: path.clone(),
    })
    .unwrap();
    drop(service);
    // then add a trigger behind its back
    let conn = rusqlite::Connection::open(&path).unwrap();
    conn.execute(
        "CREATE TRIGGER shadow_entry AFTER INSERT ON habit BEGIN INSERT INTO habitEntry (completed, date, habitId) VALUES (0, 0, 1); END",
        (),
    )
    .unwrap();
    drop(conn);
    let result = HabitTrackerService::build(AppConfig { db_path: path });
    assert_eq!(result.unwrap_err(), StorageError::Schema);
}

/// A store this library created passes the construction check when it is
/// opened again, with its records intact.
#[test]
fn reopening_own_store_succeeds() {
    let path = format!(
        "/tmp/habit_tracker_reopen_test_{}.db",
        chrono::Utc::now().timestamp_nanos_opt().unwrap()
    );
    let mut service = HabitTrackerService::build(AppConfig {
        db_path: path.clone(),
    })
    .unwrap();
    let habit = service
        .create_habit(CreateHabitRequest {
            habit_type: HabitType::Daily,
            event_ids: EventIds { values: vec![] },
            title: "persisted".to_owned(),
            question: "persisted?".to_owned(),
        })
        .unwrap();
    drop(service);
    let reopened = HabitTrackerService::build(AppConfig { db_path: path }).unwrap();
    assert_eq!(reopened.get_habits().unwrap(), vec![habit]);
}

/// An unreachable backing path is a construction failure.
#[test]
fn unopenable_store_is_a_connection_error() {
    let result = HabitTrackerService::build(AppConfig {
        db_path: "/nonexistent-directory-for-habit-store/habits.db".to_owned(),
    });
    assert_eq!(result.unwrap_err(), StorageError::Connection);
}

/// An empty batch is a successful no-op.
#[test]
fn empty_entry_batch() {
    let mut service = test_service();
    let entries = service
        .insert_habit_entries(InsertHabitEntriesRequest { data: vec![] })
        .unwrap();
    assert!(entries.is_empty());
    assert!(service.get_habit_entries().unwrap().is_empty());
}
