//! The ways in which the program refuses to go on.
use crate::text::{decimal, decimal_string};
use vstd::prelude::*;

verus! {

#[derive(Debug, PartialEq, Eq)]
pub enum Error {
    /// The count of `--verbose` names no log level.
    InvalidLogLevel(u8),
    /// A pattern is no glob; with the text of the glob compiler's error.
    Glob(String),
    /// Globs that are fine one by one do not make a set; with the compiler's text.
    GlobSet(String),
    /// The command cannot be split into words.
    UnparsableCommand(String),
    /// Something that was asked of the system failed; with the text of its error.
    Outside(String),
    /// There are no more events to wait for.
    HangUp,
}

impl Error {
    /// The message shown to the user.
    pub open spec fn text(self) -> Seq<char> {
        match self {
            Error::InvalidLogLevel(verbose) => "invalid log level "@ + decimal(verbose as nat)
                + " number of verbose"@,
            Error::Glob(text) => text@,
            Error::GlobSet(text) => text@,
            Error::UnparsableCommand(command) => "Unable to parse the command: "@ + command@,
            Error::Outside(text) => text@,
            Error::HangUp => "events hang up"@,
        }
    }

    /// Writes the message shown to the user.
    pub fn message(&self) -> (text: String)
        ensures
            text@ == self.text(),
    {
        match self {
            Error::InvalidLogLevel(verbose) => {
                let mut text = "invalid log level ".to_owned();
                text.append(decimal_string(*verbose as u64).as_str());
                text.append(" number of verbose");
                text
            },
            Error::Glob(text) => text.clone(),
            Error::GlobSet(text) => text.clone(),
            Error::UnparsableCommand(command) => {
                let mut text = "Unable to parse the command: ".to_owned();
                text.append(command.as_str());
                text
            },
            Error::Outside(text) => text.clone(),
            Error::HangUp => "events hang up".to_owned(),
        }
    }
}

/// What each error says to the user.
pub proof fn law_messages(verbose: u8, text: String)
    ensures
        Error::InvalidLogLevel(verbose).text() == "invalid log level "@ + decimal(verbose as nat)
            + " number of verbose"@,
        Error::Glob(text).text() == text@,
        Error::GlobSet(text).text() == text@,
        Error::Outside(text).text() == text@,
        Error::UnparsableCommand(text).text() == "Unable to parse the command: "@ + text@,
        Error::HangUp.text() == "events hang up"@,
{
}

} // verus!
