use vstd::prelude::*;
use vstd::string::StringExecFns;

use crate::text::{decimal, decimal_string, push_decimal};
use crate::{AppError, PreparedText};
use rand::Rng;

verus! {

/// The number of texts in the corpus; their ids run from 1 to this.
pub const ROW_COUNT: u32 = 6000;

/// The highest level of difficulty; the levels run from 1 to this.
pub const MAX_LEVEL: u32 = 5;

/// The number of texts of each level of difficulty.
pub const TEXTS_PER_LEVEL: u32 = 1200;

/// What loading a text from the corpus can fail with.
#[derive(Debug)]
pub enum DatabaseError {
    /// The database failed; this is what it reported.
    SqliteError(String),
    /// No text has this id.
    OutOfRangeError(u32),
    /// No level of difficulty has this number.
    DifficultyOutOfRangeError(u32),
}

impl DatabaseError {
    /// The message for this error.
    pub open spec fn message_text(self) -> Seq<char> {
        match self {
            DatabaseError::SqliteError(e) => "Sqlite error: "@ + e@,
            DatabaseError::OutOfRangeError(n) => "ID out of range: "@ + decimal(n as nat)
                + ", select in range [1,6000]"@,
            DatabaseError::DifficultyOutOfRangeError(n) => "Difficulty out of range: "@ + decimal(
                n as nat,
            ) + ", select in range [1,5]"@,
        }
    }

    /// Describe the error in words.
    pub fn message(&self) -> (message: String)
        ensures
            message@ == self.message_text(),
    {
        match self {
            DatabaseError::SqliteError(e) => {
                let mut message = String::from_str("Sqlite error: ");
                message.append(e.as_str());
                message
            },
            DatabaseError::OutOfRangeError(n) => {
                let mut message = String::from_str("ID out of range: ");
                push_decimal(&mut message, *n as u128);
                message.append(", select in range [1,6000]");
                message
            },
            DatabaseError::DifficultyOutOfRangeError(n) => {
                let mut message = String::from_str("Difficulty out of range: ");
                push_decimal(&mut message, *n as u128);
                message.append(", select in range [1,5]");
                message
            },
        }
    }
}

/// A text with this id is in the corpus.
pub open spec fn id_in_range(text_id: u32) -> bool {
    1 <= text_id <= ROW_COUNT
}

/// Whether a text with this id is in the corpus.
pub fn text_id_in_range(text_id: u32) -> (in_range: bool)
    ensures
        in_range == id_in_range(text_id),
{
    1 <= text_id && text_id <= ROW_COUNT
}

/// Load the text with the given id: turn the row that the database gave
/// for the id, or what it failed with, into the text with its id. An id
/// that is out of range is an error whatever the row is.
pub fn load_text_from_database(text_id: u32, row: Result<String, String>) -> (loaded: Result<
    PreparedText,
    DatabaseError,
>)
    ensures
        !id_in_range(text_id) ==> loaded == Err::<PreparedText, DatabaseError>(
            DatabaseError::OutOfRangeError(text_id),
        ),
        id_in_range(text_id) ==> match row {
            Ok(text) => loaded is Ok && loaded->Ok_0.0 == text && loaded->Ok_0.1@ == decimal(
                text_id as nat,
            ),
            Err(e) => loaded == Err::<PreparedText, DatabaseError>(DatabaseError::SqliteError(e)),
        },
{
    if text_id_in_range(text_id) {
        match row {
            Ok(text) => Ok((text, decimal_string(text_id as u128))),
            Err(e) => Err(DatabaseError::SqliteError(e)),
        }
    } else {
        Err(DatabaseError::OutOfRangeError(text_id))
    }
}

/// Calls `Rng::gen_range` on the generator of `rand::thread_rng` with the
/// range from `low` up to but without `high`, which must not be empty. The
/// number that comes back lies in that range; which one it is, is chance.
#[verifier::external_body]
fn random_in_range(low: u32, high: u32) -> (drawn: u32)
    requires
        low < high,
    ensures
        low <= drawn < high,
{
    rand::thread_rng().gen_range(low..high)
}

/// The ids of the texts of a level of difficulty: the first and the last.
pub open spec fn ids_of_level(difficulty: u32) -> (int, int) {
    ((difficulty - 1) * TEXTS_PER_LEVEL + 1, difficulty * TEXTS_PER_LEVEL as int)
}

/// Whether a text id answers a request for a level of difficulty: a level
/// that exists is answered by an id among those of the level, any other by
/// the error that names it.
pub open spec fn answers_level(difficulty: u32, answer: Result<u32, DatabaseError>) -> bool {
    if 1 <= difficulty <= MAX_LEVEL {
        answer is Ok && ids_of_level(difficulty).0 <= answer->Ok_0 <= ids_of_level(difficulty).1
    } else {
        answer == Err::<u32, DatabaseError>(DatabaseError::DifficultyOutOfRangeError(difficulty))
    }
}

/// Draw the id of a text of a level of difficulty that exists.
fn draw_text_id(difficulty: u32) -> (drawn: u32)
    requires
        1 <= difficulty <= MAX_LEVEL,
    ensures
        ids_of_level(difficulty).0 <= drawn <= ids_of_level(difficulty).1,
        id_in_range(drawn),
{
    let upper_limit: u32 = difficulty * TEXTS_PER_LEVEL;
    let lower_limit: u32 = upper_limit - TEXTS_PER_LEVEL + 1;
    random_in_range(lower_limit, upper_limit + 1)
}

/// Choose the id of a text of the given level of difficulty by chance.
pub fn text_id_for_difficulty(difficulty: u32) -> (chosen: Result<u32, DatabaseError>)
    ensures
        answers_level(difficulty, chosen),
        chosen is Ok ==> id_in_range(chosen->Ok_0),
{
    if 1 <= difficulty && difficulty <= MAX_LEVEL {
        Ok(draw_text_id(difficulty))
    } else {
        Err(DatabaseError::DifficultyOutOfRangeError(difficulty))
    }
}

/// Choose a level of difficulty by chance.
pub fn random_difficulty() -> (difficulty: u32)
    ensures
        1 <= difficulty <= MAX_LEVEL,
{
    random_in_range(1, MAX_LEVEL + 1)
}

/// Choose the id of a text of a level of difficulty that is itself chosen
/// by chance.
pub fn text_id_with_random_difficulty() -> (chosen: u32)
    ensures
        id_in_range(chosen),
{
    draw_text_id(random_difficulty())
}

/// The result of `str::parse::<i32>`: the number that a text stands for,
/// and `None` for a text that the function does not take for an `i32`.
pub uninterp spec fn parsed_i32(text: Seq<char>) -> Option<i32>;

/// Calls `str::parse::<i32>`, which reads a text as a number; what it
/// answers depends on the text alone. An error of the function is `None`.
#[verifier::external_body]
fn parse_i32(text: &str) -> (parsed: Option<i32>)
    ensures
        parsed == parsed_i32(text@),
{
    text.parse::<i32>().ok()
}

/// The id that lies `direction` away from `text_id`, if a text has it; if
/// none has, the error names the id, or 0 for one below 0.
pub open spec fn neighbour_id(text_id: i32, direction: i32) -> Result<u32, DatabaseError> {
    let target = text_id + direction;
    if 1 <= target <= ROW_COUNT {
        Ok(target as u32)
    } else if target < 0 {
        Err(DatabaseError::OutOfRangeError(0))
    } else {
        Err(DatabaseError::OutOfRangeError(target as u32))
    }
}

/// The id of the text that lies `direction` away from the text with id
/// `text_id` in the corpus.
pub fn neighbour_text_id_from(text_id: i32, direction: i32) -> (neighbour: Result<
    u32,
    DatabaseError,
>)
    ensures
        neighbour == neighbour_id(text_id, direction),
{
    let target: i64 = text_id as i64 + direction as i64;
    if 1 <= target && target <= ROW_COUNT as i64 {
        Ok(target as u32)
    } else if target < 0 {
        Err(DatabaseError::OutOfRangeError(0))
    } else {
        Err(DatabaseError::OutOfRangeError(target as u32))
    }
}

/// The id of the text that lies `direction` away from the current text,
/// whose id is given as it is shown. Fails where that id is no number, and
/// where no text has the id asked for.
pub fn neighbour_text_id(text_id: &str, direction: i32) -> (neighbour: Result<u32, AppError>)
    ensures
        match parsed_i32(text_id@) {
            None => neighbour matches Err(AppError::ParsingError(text)) && text@ == text_id@,
            Some(number) => match neighbour_id(number, direction) {
                Ok(id) => neighbour == Ok::<u32, AppError>(id),
                Err(e) => neighbour == Err::<u32, AppError>(AppError::AppDatabaseError(e)),
            },
        },
{
    match parse_i32(text_id) {
        None => Err(AppError::ParsingError(String::from_str(text_id))),
        Some(number) => match neighbour_text_id_from(number, direction) {
            Ok(id) => Ok(id),
            Err(e) => Err(AppError::AppDatabaseError(e)),
        },
    }
}

} // verus!
