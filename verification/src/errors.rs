//! Error types: failure to deliver a message to a sink, and failure to
//! build a sink at construction time.

use vstd::prelude::*;
use vstd::string::StringExecFns;

verus! {

/// A sink failed to accept a message.
#[derive(Debug, PartialEq, Eq)]
pub enum LogError {
    /// The underlying stream rejected the write; carries its
    /// description.
    Io(String),
    /// A bounded in-memory sink had no room left.
    SinkFull,
}

impl LogError {
    /// The text this error prints as.
    pub open spec fn spec_text(&self) -> Seq<char> {
        match self {
            LogError::Io(s) => s@,
            LogError::SinkFull => "sink buffer full"@,
        }
    }

    /// Render the error as text.
    pub fn message(&self) -> (r: String)
        ensures
            r@ == self.spec_text(),
    {
        match self {
            LogError::Io(s) => s.clone(),
            LogError::SinkFull => String::from_str("sink buffer full"),
        }
    }
}

/// A sink could not be built from its configuration.
#[derive(Debug, PartialEq, Eq)]
pub struct ConstructionError {
    pub message: String,
}

} // verus!
