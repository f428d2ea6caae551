//! The errors of reaching the input.

use vstd::prelude::*;
use vstd::string::StringExecFns;

verus! {

/// Why the input could not be read at all.
#[derive(Debug)]
pub enum InputAccessError {
    MissingInputFilename,
    FileNotFound(String),
    UnableToCreateReader(String),
}

/// Why the input was refused.
#[derive(Debug)]
pub enum InvalidInput {
    MissingInputFilename,
    FileNotFound(String),
    FormatError(String),
}

impl InputAccessError {
    /// The text of the message that goes with the error.
    pub open spec fn message_text(&self) -> Seq<char> {
        match *self {
            InputAccessError::MissingInputFilename =>
                "argument with the CSV input filename was not found"@,
            InputAccessError::FileNotFound(name) => "file `"@ + name@ + "` was not found"@,
            InputAccessError::UnableToCreateReader(why) => "failed to create deserializer: "@
                + why@,
        }
    }

    /// The message that goes with the error.
    pub fn message(&self) -> (r: String)
        ensures
            r@ == self.message_text(),
    {
        match self {
            InputAccessError::MissingInputFilename => String::from_str(
                "argument with the CSV input filename was not found",
            ),
            InputAccessError::FileNotFound(name) => {
                let mut text = String::from_str("file `");
                text.append(name.as_str());
                text.append("` was not found");
                text
            },
            InputAccessError::UnableToCreateReader(why) => {
                let mut text = String::from_str("failed to create deserializer: ");
                text.append(why.as_str());
                text
            },
        }
    }
}

impl InvalidInput {
    /// The message that goes with the error.
    pub fn message(&self) -> (r: &'static str)
        ensures
            r@ == "Invalid input"@,
    {
        "Invalid input"
    }
}

} // verus!
