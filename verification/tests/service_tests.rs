use habit_tracker::api::{AppleCalendarEvent, HabitTrackerService};
use habit_tracker::{
    get_test_app_config, CreateHabitRequest, EventIds, Habit, HabitType,
    InsertHabitEntriesRequest, InsertHabitEntryItem, StorageError, UpdateHabitRequest,
};

fn test_service() -> HabitTrackerService {
    HabitTrackerService::build(get_test_app_config().unwrap()).unwrap()
}

fn create_fixture_habit(service: &mut HabitTrackerService) -> Habit {
    let fixture = Habit {
        id: 1,
        habit_type: HabitType::AppleCalendar,
        event_ids: EventIds {
            values: vec!["event_id".to_owned()],
        },
        title: "some title".to_owned(),
        question: "some question".to_owned(),
    };
    let created = service
        .create_habit(CreateHabitRequest {
            habit_type: HabitType::AppleCalendar,
            event_ids: EventIds {
                values: vec!["event_id".to_owned()],
            },
            title: "some title".to_owned(),
            question: "some question".to_owned(),
        })
        .unwrap();
    assert_eq!(created, fixture);
    fixture
}

#[test]
fn test_habit_from_row() {
    let mut service = test_service();
    let fixture = create_fixture_habit(&mut service);
    let queried_habit = service.get_habits().unwrap().into_iter().next().unwrap();
    assert_eq!(queried_habit, fixture);
}

#[test]
fn api_test_habit_from_row() {
    let mut service = test_service();
    let fixture = create_fixture_habit(&mut service);
    let habits = service.get_habits().unwrap();
    assert_eq!(habits.len(), 1);
    assert_eq!(habits[0], fixture);
}

#[test]
fn test_habit_entry_from_row() {
    let mut service = test_service();
    // create habit to ensure a habit_id for the entry
    create_fixture_habit(&mut service);
    let inserted = service
        .insert_habit_entries(InsertHabitEntriesRequest {
            data: vec![InsertHabitEntryItem {
                habit_id: 1,
                completed: true,
            }],
        })
        .unwrap();

    let queried_habit_entry = service
        .get_habit_entries()
        .unwrap()
        .into_iter()
        .next()
        .unwrap();

    assert_eq!(queried_habit_entry, inserted[0]);
    assert_eq!(queried_habit_entry.id, 1);
    assert_eq!(queried_habit_entry.habit_id, 1);
    assert!(queried_habit_entry.completed);
}

#[test]
fn api_test_habit_entry_from_row() {
    let mut service = test_service();
    create_fixture_habit(&mut service);
    let inserted = service
        .insert_habit_entries(InsertHabitEntriesRequest {
            data: vec![InsertHabitEntryItem {
                habit_id: 1,
                completed: true,
            }],
        })
        .unwrap();
    let entries = service.get_habit_entries().unwrap();
    assert_eq!(entries, inserted);
}

#[test]
fn test_apple_calendar_event_from_row() {
    let mut service = test_service();
    let fixture = AppleCalendarEvent {
        id: "appleCalendarEventId".to_owned(),
        name: "calendarEventName".to_owned(),
        start_date: 1_700_000_000_000,
        recurrence: "recurrence".to_owned(),
    };
    service
        .reset_apple_calendar_events(vec![fixture.clone()])
        .unwrap();
    let queried_apple_calendar_event = service
        .get_apple_calendar_events()
        .unwrap()
        .into_iter()
        .next()
        .unwrap();
    assert_eq!(queried_apple_calendar_event, fixture);
}

#[test]
fn test_habit_methods() {
    let mut service = test_service();
    let created = service
        .create_habit(CreateHabitRequest {
            habit_type: HabitType::Daily,
            event_ids: EventIds {
                values: vec!["eventId".to_owned()],
            },
            title: "some title".to_owned(),
            question: "some question".to_owned(),
        })
        .unwrap();
    let other = service
        .create_habit(CreateHabitRequest {
            habit_type: HabitType::AppleCalendar,
            event_ids: EventIds { values: vec![] },
            title: "some other title".to_owned(),
            question: "some other question".to_owned(),
        })
        .unwrap();
    assert_eq!(
        service.get_habits().unwrap(),
        vec![created.clone(), other.clone()]
    );

    let updated = service
        .update_habit(UpdateHabitRequest {
            id: created.id,
            habit_type: HabitType::AppleCalendar,
            event_ids: EventIds {
                values: vec!["updatedEventId".to_owned()],
            },
            title: "updated title".to_owned(),
            question: "updated question".to_owned(),
        })
        .unwrap();
    let expected = Habit {
        id: 1,
        habit_type: HabitType::AppleCalendar,
        event_ids: EventIds {
            values: vec!["updatedEventId".to_owned()],
        },
        title: "updated title".to_owned(),
        question: "updated question".to_owned(),
    };
    assert_eq!(updated, expected);
    // the other habit is untouched by the update
    assert_eq!(service.get_habits().unwrap(), vec![expected, other]);
}

#[test]
fn test_habit_entry_methods() {
    let mut service = test_service();
    let habit = create_fixture_habit(&mut service);
    let other = service
        .create_habit(CreateHabitRequest {
            habit_type: HabitType::Daily,
            event_ids: EventIds { values: vec![] },
            title: "some other title".to_owned(),
            question: "some other question".to_owned(),
        })
        .unwrap();
    assert_eq!(habit.id, 1);
    assert_eq!(other.id, 2);

    let before = chrono::Utc::now().timestamp_millis();
    let inserted = service
        .insert_habit_entries(InsertHabitEntriesRequest {
            data: vec![
                InsertHabitEntryItem {
                    habit_id: other.id,
                    completed: true,
                },
                InsertHabitEntryItem {
                    habit_id: habit.id,
                    completed: false,
                },
            ],
        })
        .unwrap();
    let after = chrono::Utc::now().timestamp_millis();

    assert_eq!(inserted.len(), 2);
    assert_eq!(
        (inserted[0].id, inserted[0].habit_id, inserted[0].completed),
        (1, other.id, true)
    );
    assert_eq!(
        (inserted[1].id, inserted[1].habit_id, inserted[1].completed),
        (2, habit.id, false)
    );
    for entry in &inserted {
        assert!(before - 5_000 <= entry.date && entry.date <= after + 5_000);
    }
    assert_eq!(service.get_habit_entries().unwrap(), inserted);
}

#[test]
fn test_apple_calendar_event_methods() {
    let mut service = test_service();
    let initial = vec![
        AppleCalendarEvent {
            id: "appleCalendarEventId1".to_owned(),
            name: "appleCalendarEventName1".to_owned(),
            start_date: 1_700_000_000_000,
            recurrence: "recurrence".to_owned(),
        },
        AppleCalendarEvent {
            id: "appleCalendarEventId2".to_owned(),
            name: "appleCalendarEventName2".to_owned(),
            start_date: 1_700_000_100_000,
            recurrence: "recurrence".to_owned(),
        },
        AppleCalendarEvent {
            id: "appleCalendarEventId3".to_owned(),
            name: "appleCalendarEventName3".to_owned(),
            start_date: 1_700_000_200_000,
            recurrence: "recurrence".to_owned(),
        },
    ];
    let mut stored = service.reset_apple_calendar_events(initial.clone()).unwrap();
    stored.sort_by(|a, b| a.id.cmp(&b.id));
    assert_eq!(stored, initial);
    let mut listed = service.get_apple_calendar_events().unwrap();
    listed.sort_by(|a, b| a.id.cmp(&b.id));
    assert_eq!(listed, initial);

    let replacement = vec![AppleCalendarEvent {
        id: "updatedAppleCalendarEventId1".to_owned(),
        name: "updatedAppleCalendarEventName1".to_owned(),
        start_date: 1_700_000_300_000,
        recurrence: "updatedRecurrence".to_owned(),
    }];
    let stored = service
        .reset_apple_calendar_events(replacement.clone())
        .unwrap();
    assert_eq!(stored, replacement);
    let listed = service.get_apple_calendar_events().unwrap();
    assert_eq!(listed, replacement);
    assert_eq!(listed.len(), 1);
}
