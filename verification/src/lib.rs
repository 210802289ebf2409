use vstd::prelude::*;
use vstd::string::StringExecFns;

use crate::database::DatabaseError;
use crate::history::HistoryError;
use crate::text::{decimal, push_decimal};

pub mod acceptance_proofs;
pub mod app;
pub mod calculations;
pub mod database;
pub mod history;
pub mod keycheck;
pub mod layout_proofs;
pub mod replay;
pub mod replay_proofs;
pub mod session;
pub mod session_proofs;
pub mod text;
pub mod timer;
pub mod tokens;

verus! {

/// A sample text together with the identifier of its source.
pub type PreparedText = (String, String);

/// What a typing session can fail with.
#[derive(Debug)]
pub enum AppError {
    /// The text cannot be laid out: a line holds none of this character
    /// before its last cell, so there is no place to break it.
    NoCharFoundError(char),
    /// The window width is not a positive number of cells.
    InvalidWidthError(i32),
    /// The window has too few lines for the text.
    WindowTooSmallError,
    /// The clock went backward between two readings, by this many
    /// microseconds.
    TimeError(u64),
    AppDatabaseError(DatabaseError),
    /// This text id is no number.
    ParsingError(String),
    AppHistoryError(HistoryError),
    /// The result could not be shared.
    TwitterError { url: String, error_description: String },
}

pub type AppResult<T> = Result<T, AppError>;

impl AppError {
    /// The message for this error.
    pub open spec fn message_text(self) -> Seq<char> {
        match self {
            AppError::NoCharFoundError(c) => "No character found in text: "@ + seq![c],
            AppError::InvalidWidthError(width) => "Window width is not positive: "@ + (if width
                < 0 {
                seq!['-'] + decimal((-width) as nat)
            } else {
                decimal(width as nat)
            }),
            AppError::WindowTooSmallError => "Window too small to print given text"@,
            AppError::TimeError(micros) => "Time error: clock went backward by "@ + decimal(
                micros as nat,
            ) + " microseconds"@,
            AppError::AppDatabaseError(e) => "Database error: "@ + e.message_text(),
            AppError::ParsingError(text) => "Parsing error: "@ + text@,
            AppError::AppHistoryError(e) => "History error: "@ + e.message_text(),
            AppError::TwitterError { url, error_description } => "Can't tweet result: "@ + url@
                + seq!['\n'] + error_description@,
        }
    }

    /// Describe the error in words.
    pub fn message(&self) -> (message: String)
        ensures
            message@ == self.message_text(),
    {
        match self {
            AppError::NoCharFoundError(c) => {
                let mut message = String::from_str("No character found in text: ");
                message.push(*c);
                assert(message@ =~= self.message_text());
                message
            },
            AppError::InvalidWidthError(width) => {
                let mut message = String::from_str("Window width is not positive: ");
                if *width < 0 {
                    message.push('-');
                    push_decimal(&mut message, (-(*width as i64)) as u128);
                } else {
                    push_decimal(&mut message, *width as u128);
                }
                assert(message@ =~= self.message_text());
                message
            },
            AppError::WindowTooSmallError => String::from_str(
                "Window too small to print given text",
            ),
            AppError::TimeError(micros) => {
                let mut message = String::from_str("Time error: clock went backward by ");
                push_decimal(&mut message, *micros as u128);
                message.append(" microseconds");
                message
            },
            AppError::AppDatabaseError(e) => {
                let mut message = String::from_str("Database error: ");
                message.append(e.message().as_str());
                message
            },
            AppError::ParsingError(text) => {
                let mut message = String::from_str("Parsing error: ");
                message.append(text.as_str());
                message
            },
            AppError::AppHistoryError(e) => {
                let mut message = String::from_str("History error: ");
                message.append(e.message().as_str());
                message
            },
            AppError::TwitterError { url, error_description } => {
                let mut message = String::from_str("Can't tweet result: ");
                message.append(url.as_str());
                message.push('\n');
                message.append(error_description.as_str());
                assert(message@ =~= self.message_text());
                message
            },
        }
    }
}

/// What loading a text from a file can fail with; each variant names the
/// file.
#[derive(Debug)]
pub enum FileError {
    /// The file could not be looked for; the second field is what the
    /// system reported.
    IoError(String, String),
    FileDoesNotExist(String),
    /// The file could not be read; the second field is what the system
    /// reported.
    FileReadingError(String, String),
}

impl FileError {
    /// The message for this error.
    pub open spec fn message_text(self) -> Seq<char> {
        match self {
            FileError::IoError(path, e) => "An IO error occurred for file: "@ + path@ + ", "@
                + e@,
            FileError::FileDoesNotExist(path) => "The file does not exist: "@ + path@,
            FileError::FileReadingError(path, e) => "Error reading file: "@ + path@ + ", "@ + e@,
        }
    }

    /// Describe the error in words.
    pub fn message(&self) -> (message: String)
        ensures
            message@ == self.message_text(),
    {
        match self {
            FileError::IoError(path, e) => {
                let mut message = String::from_str("An IO error occurred for file: ");
                message.append(path.as_str());
                message.append(", ");
                message.append(e.as_str());
                message
            },
            FileError::FileDoesNotExist(path) => {
                let mut message = String::from_str("The file does not exist: ");
                message.append(path.as_str());
                message
            },
            FileError::FileReadingError(path, e) => {
                let mut message = String::from_str("Error reading file: ");
                message.append(path.as_str());
                message.append(", ");
                message.append(e.as_str());
                message
            },
        }
    }
}

} // verus!
