use rstype::database::{
    load_text_from_database, neighbour_text_id, neighbour_text_id_from, random_difficulty,
    text_id_for_difficulty, text_id_in_range, text_id_with_random_difficulty, DatabaseError,
};
use rstype::AppError;

#[test]
fn test_fetching_text_from_db_with_different_difficulties() {
    for difficulty_level in 2..=5u32 {
        for _ in 0..50 {
            let id = text_id_for_difficulty(difficulty_level).unwrap();
            let upper_limit = difficulty_level * 1200;
            let lower_limit = upper_limit - 1200 + 1;
            assert!((lower_limit..=upper_limit).contains(&id));
        }
    }
}

#[test]
fn test_fetching_text_from_db_based_on_difficulty() {
    let difficulty = 1;
    for _ in 0..50 {
        let id = text_id_for_difficulty(difficulty).unwrap();
        assert!((1..=1200).contains(&id));
    }
}

#[test]
fn test_fetching_text_from_db() {
    let value = "Hello, world!";
    let serial_id = 1;
    let result = load_text_from_database(serial_id, Ok(value.to_string())).unwrap();
    assert_eq!(result.0, value);
    assert_eq!(result.1, "1");
}

#[test]
fn loaded_text_carries_its_id() {
    let result = load_text_from_database(6000, Ok("last".to_string())).unwrap();
    assert_eq!(result.0, "last");
    assert_eq!(result.1, "6000");
    let result = load_text_from_database(1234, Ok("some".to_string())).unwrap();
    assert_eq!(result.1, "1234");
}

#[test]
fn id_out_of_range_is_refused() {
    assert!(matches!(
        load_text_from_database(0, Ok("text".to_string())),
        Err(DatabaseError::OutOfRangeError(0))
    ));
    assert!(matches!(
        load_text_from_database(6001, Ok("text".to_string())),
        Err(DatabaseError::OutOfRangeError(6001))
    ));
    assert!(!text_id_in_range(0));
    assert!(text_id_in_range(1));
    assert!(text_id_in_range(6000));
    assert!(!text_id_in_range(6001));
}

#[test]
fn failure_of_the_database_is_handed_on() {
    match load_text_from_database(5, Err("no such table".to_string())) {
        Err(DatabaseError::SqliteError(e)) => assert_eq!(e, "no such table"),
        _ => panic!("expected the error of the database"),
    }
}

#[test]
fn difficulty_out_of_range_is_refused() {
    assert!(matches!(
        text_id_for_difficulty(0),
        Err(DatabaseError::DifficultyOutOfRangeError(0))
    ));
    assert!(matches!(
        text_id_for_difficulty(6),
        Err(DatabaseError::DifficultyOutOfRangeError(6))
    ));
}

#[test]
fn random_choices_are_in_range() {
    for _ in 0..200 {
        let difficulty = random_difficulty();
        assert!((1..=5).contains(&difficulty));
        let id = text_id_with_random_difficulty();
        assert!((1..=6000).contains(&id));
    }
}

#[test]
fn neighbours_of_a_text() {
    assert_eq!(neighbour_text_id("10", 1).unwrap(), 11);
    assert_eq!(neighbour_text_id("10", -1).unwrap(), 9);
    assert_eq!(neighbour_text_id_from(5999, 1).unwrap(), 6000);
    assert!(matches!(
        neighbour_text_id("6000", 1),
        Err(AppError::AppDatabaseError(DatabaseError::OutOfRangeError(6001)))
    ));
    assert!(matches!(
        neighbour_text_id("1", -1),
        Err(AppError::AppDatabaseError(DatabaseError::OutOfRangeError(0)))
    ));
    assert!(matches!(
        neighbour_text_id_from(-5, 1),
        Err(DatabaseError::OutOfRangeError(0))
    ));
    assert!(matches!(
        neighbour_text_id_from(i32::MAX, 1),
        Err(DatabaseError::OutOfRangeError(2147483648))
    ));
}

#[test]
fn id_that_is_no_number_cannot_be_parsed() {
    match neighbour_text_id("tests/test.txt", 1) {
        Err(AppError::ParsingError(text)) => assert_eq!(text, "tests/test.txt"),
        _ => panic!("expected a parsing error"),
    }
}

#[test]
fn database_errors_have_messages() {
    assert_eq!(
        DatabaseError::OutOfRangeError(7000).message(),
        "ID out of range: 7000, select in range [1,6000]"
    );
    assert_eq!(
        DatabaseError::DifficultyOutOfRangeError(9).message(),
        "Difficulty out of range: 9, select in range [1,5]"
    );
    assert_eq!(
        DatabaseError::SqliteError("locked".to_string()).message(),
        "Sqlite error: locked"
    );
}

#[test]
fn drawn_ids_vary() {
    let mut seen = std::collections::BTreeSet::new();
    for _ in 0..200 {
        seen.insert(text_id_for_difficulty(1).unwrap());
    }
    assert!(seen.len() > 1);
    let mut levels = std::collections::BTreeSet::new();
    for _ in 0..200 {
        levels.insert(random_difficulty());
    }
    assert!(levels.len() > 1);
}
