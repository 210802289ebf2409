use vstd::prelude::*;
use vstd::string::StringExecFns;

use crate::calculations::Ratio;
use crate::text::{decimal, push_decimal, two_decimals, two_decimals_string};

verus! {

/// What reading or writing the history can fail with.
#[derive(Debug)]
pub enum HistoryError {
    /// The records could not be read or written as CSV; this is what was
    /// reported.
    CsvError(String),
    /// The file could not be opened; this is what the system reported.
    IoError(String),
    /// The home directory is not known; this names the history file.
    HomeDirError(String),
    FileDoesNotExist,
    FileIsEmpty,
}

impl HistoryError {
    /// The message for this error.
    pub open spec fn message_text(self) -> Seq<char> {
        match self {
            HistoryError::IoError(e) => "An IO error occurred: "@ + e@,
            HistoryError::HomeDirError(s) => "Unable to get home directory: "@ + s@,
            HistoryError::CsvError(e) => "An error occurred while reading or writing CSV: "@ + e@,
            HistoryError::FileDoesNotExist => "The history file does not exist"@,
            HistoryError::FileIsEmpty => "The history file is empty"@,
        }
    }

    /// Describe the error in words.
    pub fn message(&self) -> (message: String)
        ensures
            message@ == self.message_text(),
    {
        match self {
            HistoryError::IoError(e) => {
                let mut message = String::from_str("An IO error occurred: ");
                message.append(e.as_str());
                message
            },
            HistoryError::HomeDirError(s) => {
                let mut message = String::from_str("Unable to get home directory: ");
                message.append(s.as_str());
                message
            },
            HistoryError::CsvError(e) => {
                let mut message = String::from_str(
                    "An error occurred while reading or writing CSV: ",
                );
                message.append(e.as_str());
                message
            },
            HistoryError::FileDoesNotExist => String::from_str("The history file does not exist"),
            HistoryError::FileIsEmpty => String::from_str("The history file is empty"),
        }
    }
}

/// How many records of the history are asked for.
#[derive(Clone, Copy, Debug, PartialEq, Eq, Structural)]
pub enum NumberOfRecords {
    All,
    Last(usize),
}

impl From<usize> for NumberOfRecords {
    fn from(value: usize) -> (number: NumberOfRecords) {
        NumberOfRecords::Last(value)
    }
}

impl vstd::std_specs::convert::FromSpecImpl<usize> for NumberOfRecords {
    open spec fn obeys_from_spec() -> bool {
        true
    }

    open spec fn from_spec(value: usize) -> NumberOfRecords {
        NumberOfRecords::Last(value)
    }
}

/// The name of the history file, which lies in the home directory.
pub fn history_file_name() -> (name: String)
    ensures
        name@ == ".rstype_history.csv"@,
{
    String::from_str(".rstype_history.csv")
}

/// The position of the first of the records asked for among `total`
/// records: all of them, or the last so many, as far as there are.
pub open spec fn first_record_shown(total: int, number_of_records: NumberOfRecords) -> int {
    match number_of_records {
        NumberOfRecords::All => 0,
        NumberOfRecords::Last(n) => if n >= total {
            0
        } else {
            total - n
        },
    }
}

/// Get records from the history: of all the records, in the order in
/// which they were written, the last `number_of_records`, or all of them.
pub fn get_history_records<T>(records: Vec<T>, number_of_records: NumberOfRecords) -> (shown: Vec<
    T,
>)
    ensures
        shown@ == records@.subrange(
            first_record_shown(records@.len() as int, number_of_records),
            records@.len() as int,
        ),
{
    let total_records = records.len();
    let number_of_records = match number_of_records {
        NumberOfRecords::All => total_records,
        NumberOfRecords::Last(n) => if n >= total_records {
            total_records
        } else {
            n
        },
    };
    let start_count = if number_of_records < total_records {
        total_records - number_of_records
    } else {
        0
    };
    let mut records = records;
    records.split_off(start_count)
}

/// The names of the columns of the history.
pub fn history_header() -> (header: Vec<String>)
    ensures
        header@.len() == 5,
        header@[0]@ == "ID"@,
        header@[1]@ == "WPM"@,
        header@[2]@ == "DATE"@,
        header@[3]@ == "TIME"@,
        header@[4]@ == "ACCURACY"@,
{
    let mut header: Vec<String> = Vec::new();
    header.push(String::from_str("ID"));
    header.push(String::from_str("WPM"));
    header.push(String::from_str("DATE"));
    header.push(String::from_str("TIME"));
    header.push(String::from_str("ACCURACY"));
    header
}

/// The record of a run for the history: the id of the text, the speed
/// with two decimals, the date, the time of day, and the accuracy with two
/// decimals.
pub fn history_record(
    text_id: &str,
    current_speed_wpm: Ratio,
    accuracy: Ratio,
    date: String,
    time: String,
) -> (record: Vec<String>)
    requires
        current_speed_wpm.wf(),
        accuracy.wf(),
    ensures
        record@.len() == 5,
        record@[0]@ == text_id@,
        record@[1]@ == two_decimals(current_speed_wpm),
        record@[2] == date,
        record@[3] == time,
        record@[4]@ == two_decimals(accuracy),
{
    let mut record: Vec<String> = Vec::new();
    record.push(String::from_str(text_id));
    record.push(two_decimals_string(current_speed_wpm));
    record.push(date);
    record.push(time);
    record.push(two_decimals_string(accuracy));
    record
}

/// The fields of a record joined by tabs, from field `from` on.
pub open spec fn joined_by_tabs(fields: Seq<String>, from: int) -> Seq<char>
    decreases fields.len() - from,
{
    if from >= fields.len() {
        Seq::empty()
    } else if from == fields.len() - 1 {
        fields[from]@
    } else {
        fields[from]@ + seq!['\t'] + joined_by_tabs(fields, from + 1)
    }
}

/// The line that shows a record of the history: its fields joined by
/// tabs, and a percent sign after the last, which is the accuracy.
pub open spec fn history_row(fields: Seq<String>) -> Seq<char> {
    joined_by_tabs(fields, 0) + seq!['%']
}

/// Write a record of the history as a line to show.
pub fn format_history_row(fields: &Vec<String>) -> (row: String)
    ensures
        row@ == history_row(fields@),
{
    let mut row = String::new();
    let mut i: usize = fields.len();
    while i > 0
        invariant
            i <= fields.len(),
            row@ == joined_by_tabs(fields@, i as int),
        decreases i,
    {
        i -= 1;
        let mut line = String::from_str(fields[i].as_str());
        if i + 1 < fields.len() {
            line.push('\t');
            line.append(row.as_str());
        }
        assert(line@ =~= joined_by_tabs(fields@, i as int));
        row = line;
    }
    row.push('%');
    row
}

/// The line above the records shown: how many they are.
pub open spec fn history_title(count: nat) -> Seq<char> {
    "Last "@ + decimal(count) + " records:"@
}

/// The lines that show records of the history: a note if there is none,
/// how many there are, the names of the columns, and a line for each record.
pub fn history_lines(records: &Vec<Vec<String>>) -> (lines: Vec<String>)
    ensures
        ({
            let notes: int = if records@.len() == 0 {
                1
            } else {
                0
            };
            &&& lines@.len() == notes + 2 + records@.len()
            &&& (records@.len() == 0 ==> lines@[0]@ == "0 records found"@)
            &&& lines@[notes]@ == history_title(records@.len())
            &&& lines@[notes + 1]@ == "ID\tWPM\tDATE\t\tTIME\t\tACCURACY"@
            &&& forall|i: int|
                0 <= i < records@.len() ==> (#[trigger] lines@[notes + 2 + i])@ == history_row(
                    records@[i]@,
                )
        }),
{
    let mut lines: Vec<String> = Vec::new();
    if records.len() == 0 {
        lines.push(String::from_str("0 records found"));
    }
    let ghost notes: int = lines@.len() as int;
    let mut title = String::from_str("Last ");
    push_decimal(&mut title, records.len() as u128);
    title.append(" records:");
    lines.push(title);
    lines.push(String::from_str("ID\tWPM\tDATE\t\tTIME\t\tACCURACY"));
    let mut i: usize = 0;
    while i < records.len()
        invariant
            i <= records.len(),
            notes == (if records@.len() == 0 {
                1int
            } else {
                0int
            }),
            lines@.len() == notes + 2 + i,
            records@.len() == 0 ==> lines@[0]@ == "0 records found"@,
            lines@[notes]@ == history_title(records@.len()),
            lines@[notes + 1]@ == "ID\tWPM\tDATE\t\tTIME\t\tACCURACY"@,
            forall|k: int|
                0 <= k < i ==> (#[trigger] lines@[notes + 2 + k])@ == history_row(records@[k]@),
        decreases records.len() - i,
    {
        lines.push(format_history_row(&records[i]));
        i += 1;
    }
    lines
}

} // verus!
