use rstype::calculations::Ratio;
use rstype::history::{
    format_history_row, get_history_records, history_file_name, history_header, history_lines,
    history_record, HistoryError, NumberOfRecords,
};
use rstype::{AppError, FileError};

fn record(fields: &[&str]) -> Vec<String> {
    fields.iter().map(|f| f.to_string()).collect()
}

#[test]
fn last_records_are_selected() {
    let records = vec![1, 2, 3, 4, 5];
    assert_eq!(get_history_records(records.clone(), NumberOfRecords::Last(2)), vec![4, 5]);
    assert_eq!(get_history_records(records.clone(), NumberOfRecords::Last(5)), records);
    assert_eq!(get_history_records(records.clone(), NumberOfRecords::Last(9)), records);
    assert_eq!(get_history_records(records.clone(), NumberOfRecords::Last(0)), Vec::<i32>::new());
    assert_eq!(get_history_records(records.clone(), NumberOfRecords::All), records);
    assert_eq!(get_history_records(Vec::<i32>::new(), NumberOfRecords::Last(3)), Vec::<i32>::new());
}

#[test]
fn number_of_records_from_a_number() {
    assert_eq!(NumberOfRecords::from(4), NumberOfRecords::Last(4));
}

#[test]
fn record_of_a_run_has_five_fields() {
    let speed = Ratio { numerator: 3 * 60_000_000, denominator: 2_500_000 };
    let accuracy = Ratio { numerator: 1100, denominator: 15 };
    let fields = history_record(
        "42",
        speed,
        accuracy,
        "2024-01-31".to_string(),
        "12:30:05".to_string(),
    );
    assert_eq!(fields, record(&["42", "72.00", "2024-01-31", "12:30:05", "73.33"]));
}

#[test]
fn header_names_the_columns() {
    assert_eq!(history_header(), record(&["ID", "WPM", "DATE", "TIME", "ACCURACY"]));
    assert_eq!(history_file_name(), ".rstype_history.csv");
}

#[test]
fn row_is_joined_by_tabs_and_ends_in_percent() {
    let fields = record(&["42", "72.00", "2024-01-31", "12:30:05", "73.33"]);
    assert_eq!(format_history_row(&fields), "42\t72.00\t2024-01-31\t12:30:05\t73.33%");
    assert_eq!(format_history_row(&record(&["a"])), "a%");
    assert_eq!(format_history_row(&record(&[])), "%");
}

#[test]
fn lines_of_the_history() {
    let records = vec![
        record(&["1", "50.00", "2024-01-01", "10:00:00", "100.00"]),
        record(&["2", "61.25", "2024-01-02", "11:00:00", "98.10"]),
    ];
    assert_eq!(
        history_lines(&records),
        record(&[
            "Last 2 records:",
            "ID\tWPM\tDATE\t\tTIME\t\tACCURACY",
            "1\t50.00\t2024-01-01\t10:00:00\t100.00%",
            "2\t61.25\t2024-01-02\t11:00:00\t98.10%",
        ])
    );
    assert_eq!(
        history_lines(&Vec::new()),
        record(&["0 records found", "Last 0 records:", "ID\tWPM\tDATE\t\tTIME\t\tACCURACY"])
    );
}

#[test]
fn history_errors_have_messages() {
    assert_eq!(HistoryError::FileDoesNotExist.message(), "The history file does not exist");
    assert_eq!(HistoryError::FileIsEmpty.message(), "The history file is empty");
    assert_eq!(
        HistoryError::IoError("denied".to_string()).message(),
        "An IO error occurred: denied"
    );
    assert_eq!(
        HistoryError::HomeDirError(".rstype_history.csv".to_string()).message(),
        "Unable to get home directory: .rstype_history.csv"
    );
    assert_eq!(
        HistoryError::CsvError("bad row".to_string()).message(),
        "An error occurred while reading or writing CSV: bad row"
    );
}

#[test]
fn app_errors_have_messages() {
    assert_eq!(AppError::NoCharFoundError(' ').message(), "No character found in text:  ");
    assert_eq!(AppError::InvalidWidthError(-3).message(), "Window width is not positive: -3");
    assert_eq!(AppError::InvalidWidthError(0).message(), "Window width is not positive: 0");
    assert_eq!(
        AppError::WindowTooSmallError.message(),
        "Window too small to print given text"
    );
    assert_eq!(
        AppError::TimeError(1500).message(),
        "Time error: clock went backward by 1500 microseconds"
    );
    assert_eq!(
        AppError::AppHistoryError(HistoryError::FileIsEmpty).message(),
        "History error: The history file is empty"
    );
    assert_eq!(AppError::ParsingError("abc".to_string()).message(), "Parsing error: abc");
    assert_eq!(
        AppError::TwitterError { url: "u".to_string(), error_description: "d".to_string() }
            .message(),
        "Can't tweet result: u\nd"
    );
}

#[test]
fn file_errors_have_messages() {
    assert_eq!(
        FileError::FileDoesNotExist("a.txt".to_string()).message(),
        "The file does not exist: a.txt"
    );
    assert_eq!(
        FileError::IoError("a.txt".to_string(), "denied".to_string()).message(),
        "An IO error occurred for file: a.txt, denied"
    );
    assert_eq!(
        FileError::FileReadingError("a.txt".to_string(), "not utf-8".to_string()).message(),
        "Error reading file: a.txt, not utf-8"
    );
}
