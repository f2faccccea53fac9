use habit_tracker::codec::{decode_habit_type, encode_habit_type};
use habit_tracker::json::{decode_event_ids, encode_event_ids};
use habit_tracker::{HabitType, StorageError};

#[test]
fn test_habit_types() {
    // decoding the stored tags
    assert_eq!(decode_habit_type("daily").unwrap(), HabitType::Daily);
    assert_eq!(
        decode_habit_type("appleCalendar").unwrap(),
        HabitType::AppleCalendar
    );
    assert_eq!(
        decode_habit_type("incorrect_type").unwrap_err(),
        StorageError::InvalidEnumValue,
    );
    // encoding to the stored tags
    assert_eq!(encode_habit_type(&HabitType::Daily), "daily");
    assert_eq!(encode_habit_type(&HabitType::AppleCalendar), "appleCalendar");
}

#[test]
fn api_test_habit_types() {
    assert_eq!(decode_habit_type("daily").unwrap(), HabitType::Daily);
    assert_eq!(
        decode_habit_type("appleCalendar").unwrap(),
        HabitType::AppleCalendar
    );
    assert_eq!(
        decode_habit_type("incorrect_type").unwrap_err(),
        StorageError::InvalidEnumValue,
    );
    assert_eq!(encode_habit_type(&HabitType::Daily), "daily");
    assert_eq!(encode_habit_type(&HabitType::AppleCalendar), "appleCalendar");
}

#[test]
fn test_event_ids() {
    // decoding a stored column value
    assert_eq!(
        decode_event_ids("[\"1\", \"2\", \"3\"]").unwrap(),
        vec!["1".to_owned(), "2".to_owned(), "3".to_owned()]
    );
    assert_eq!(
        decode_event_ids("invalid json").unwrap_err(),
        StorageError::InvalidEncoding
    );
    // encoding for storage
    let event_ids = vec!["1".to_owned(), "2".to_owned()];
    assert_eq!(encode_event_ids(&event_ids), "[\"1\",\"2\"]");
}

#[test]
fn habit_type_round_trips() {
    for t in [HabitType::Daily, HabitType::AppleCalendar] {
        let text = encode_habit_type(&t);
        assert_eq!(decode_habit_type(text.as_str()).unwrap(), t);
    }
}

#[test]
fn event_ids_round_trip_empty() {
    let empty: Vec<String> = Vec::new();
    let text = encode_event_ids(&empty);
    assert_eq!(text, "[]");
    assert_eq!(decode_event_ids(text.as_str()).unwrap(), empty);
}

#[test]
fn event_ids_round_trip_escapes() {
    let values = vec![
        "plain".to_owned(),
        "with \"quotes\"".to_owned(),
        "back\\slash".to_owned(),
        "line\nbreak and tab\t".to_owned(),
        "control \u{0001} char".to_owned(),
        "unicode \u{00e9}\u{4e16}\u{1f600}".to_owned(),
        String::new(),
    ];
    let text = encode_event_ids(&values);
    assert_eq!(decode_event_ids(text.as_str()).unwrap(), values);
}

#[test]
fn event_ids_decode_accepts_whitespace_and_escapes() {
    assert_eq!(
        decode_event_ids(" [ \"a\" ,\t\"b\" ] ").unwrap(),
        vec!["a".to_owned(), "b".to_owned()]
    );
    assert_eq!(
        decode_event_ids("[\"a\\/b\\u0041\\n\"]").unwrap(),
        vec!["a/bA\n".to_owned()]
    );
}

#[test]
fn event_ids_decode_accepts_surrogate_pairs() {
    assert_eq!(
        decode_event_ids("[\"\\uD83D\\uDE00\"]").unwrap(),
        vec!["\u{1F600}".to_owned()]
    );
    assert_eq!(
        decode_event_ids("[\"a\\ud83d\\ude00b\"]").unwrap(),
        vec!["a\u{1F600}b".to_owned()]
    );
}

#[test]
fn event_ids_decode_rejects_malformed() {
    for bad in [
        "",
        "[",
        "]",
        "[\"a\"",
        "[\"a\",]",
        "[\"a\" \"b\"]",
        "[\"unterminated]",
        "[\"bad\\escape\"]",
        "[\"bad\\u12\"]",
        "[\"surrogate\\uD800\"]",
        "[\"pairless\\uD800x\"]",
        "[\"lowfirst\\uDC00\\uD800\"]",
        "[\"a\"]trailing",
        "[1]",
        "{\"a\":1}",
    ] {
        assert_eq!(
            decode_event_ids(bad).unwrap_err(),
            StorageError::InvalidEncoding,
            "input {bad:?} should be rejected"
        );
    }
}
