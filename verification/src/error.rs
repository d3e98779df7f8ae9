//! What can go wrong.

use vstd::prelude::*;
use vstd::string::*;

verus! {

/// An error of the engine. A rule that the parser cannot map is not one: it becomes an
/// `Unsupported` node.
#[derive(Debug, Clone, PartialEq, Eq)]
pub enum SrgError {
    /// A decklist failed an integrity or resolution check.
    Deck(String),
    /// A recorded log diverged from what the engine reproduced.
    Conformance(String),
    /// Reading or writing a file failed.
    Io { path: String, source: String },
    /// A JSON text could not be read or written.
    Json(String),
}

/// The outcome of an operation that can fail with an [`SrgError`].
pub type Result<T> = core::result::Result<T, SrgError>;

impl SrgError {
    /// The error as a text for people.
    pub open spec fn text(self) -> Seq<char> {
        match self {
            SrgError::Deck(m) => "deck error: "@ + m@,
            SrgError::Conformance(m) => "conformance mismatch: "@ + m@,
            SrgError::Io { path, source } => "I/O error for '"@ + path@ + "': "@ + source@,
            SrgError::Json(m) => "JSON error: "@ + m@,
        }
    }

    /// The error as a text for people.
    pub fn message(&self) -> (r: String)
        ensures
            r@ == self.text(),
    {
        match self {
            SrgError::Deck(m) => "deck error: ".to_owned().concat(m.as_str()),
            SrgError::Conformance(m) => "conformance mismatch: ".to_owned().concat(m.as_str()),
            SrgError::Io { path, source } => {
                let mut r = "I/O error for '".to_owned();
                r.append(path.as_str());
                r.append("': ");
                r.append(source.as_str());
                r
            },
            SrgError::Json(m) => "JSON error: ".to_owned().concat(m.as_str()),
        }
    }
}

/// An error says of which kind it is, and then the whole of what it holds.
pub proof fn law_error_says_everything(m: String, path: String)
    ensures
        SrgError::Deck(m).text() == "deck error: "@ + m@,
        SrgError::Conformance(m).text() == "conformance mismatch: "@ + m@,
        SrgError::Json(m).text() == "JSON error: "@ + m@,
        (SrgError::Io { path, source: m }).text() == "I/O error for '"@ + path@ + "': "@ + m@,
{
}

} // verus!
