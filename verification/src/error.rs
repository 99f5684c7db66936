//! The ways an operation of the game can fail.

use vstd::prelude::*;
use vstd::string::StringExecFns;

verus! {

/// Why an operation failed.
#[derive(Debug, Clone)]
pub enum WordError {
    /// A word list could not be read.
    IoError,
    /// Saved state could not be decoded.
    JsonError,
    /// A word was refused; the text says why.
    InValidWord(String),
    /// A number was expected and something else was found.
    ParseIntError,
    /// A failure described by its text.
    CustomError(String),
    /// The terminal front end failed.
    EyreError,
    /// Anything else.
    UnknownError,
}

impl WordError {
    /// Whether this is [`WordError::InValidWord`] with the given text.
    pub open spec fn is_invalid_word(self, reason: Seq<char>) -> bool {
        match self {
            WordError::InValidWord(text) => text@ == reason,
            _ => false,
        }
    }

    /// Whether this is [`WordError::CustomError`] with the given text.
    pub open spec fn is_custom(self, reason: Seq<char>) -> bool {
        match self {
            WordError::CustomError(text) => text@ == reason,
            _ => false,
        }
    }

    /// The text that [`WordError::message`] returns.
    pub open spec fn message_text(self) -> Seq<char> {
        match self {
            WordError::IoError => "io error"@,
            WordError::JsonError => "json error"@,
            WordError::InValidWord(word) => "your word `"@ + word@
                + "` is not in the acceptable word list"@,
            WordError::ParseIntError => "parse int error"@,
            WordError::CustomError(reason) => "custom error for: "@ + reason@,
            WordError::EyreError => "eyre error"@,
            WordError::UnknownError => "unknown error"@,
        }
    }

    /// A line of text that describes the failure.
    pub fn message(&self) -> (s: String)
        ensures
            s@ == self.message_text(),
    {
        match self {
            WordError::IoError => String::from_str("io error"),
            WordError::JsonError => String::from_str("json error"),
            WordError::InValidWord(word) => {
                let mut s = String::from_str("your word `");
                s.append(word.as_str());
                s.append("` is not in the acceptable word list");
                s
            },
            WordError::ParseIntError => String::from_str("parse int error"),
            WordError::CustomError(reason) => {
                let mut s = String::from_str("custom error for: ");
                s.append(reason.as_str());
                s
            },
            WordError::EyreError => String::from_str("eyre error"),
            WordError::UnknownError => String::from_str("unknown error"),
        }
    }
}

} // verus!
