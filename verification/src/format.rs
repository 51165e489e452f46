//! Formatting: a capability turning a record (message, level, origin)
//! into the final text, called exactly once per passed record.

use vstd::prelude::*;
use vstd::string::StringExecFns;
use crate::level::Level;
use crate::level::spec_level_name;

verus! {

/// A pure record formatter. Implementations promise that the produced
/// text is exactly `spec_format` of the record, so the dispatcher can
/// state what every sink receives.
pub trait Formatter: Sized {
    /// The text this formatter produces for a record.
    spec fn spec_format(&self, msg: Seq<char>, level: Level, origin: Seq<char>) -> Seq<char>;

    /// Produce the final text for a record.
    fn format(&self, msg: &str, level: &Level, origin: &str) -> (r: String)
        ensures
            r@ == self.spec_format(msg@, *level, origin@),
    ;
}

/// Formats a record as its message, unchanged.
#[derive(Clone, Copy, Debug)]
pub struct PlainFormatter;

impl Formatter for PlainFormatter {
    open spec fn spec_format(&self, msg: Seq<char>, level: Level, origin: Seq<char>) -> Seq<char> {
        msg
    }

    fn format(&self, msg: &str, _level: &Level, _origin: &str) -> (r: String) {
        msg.to_owned()
    }
}

/// Formats a record as `[LEVEL] message`.
#[derive(Clone, Copy, Debug)]
pub struct LevelTagFormatter;

impl Formatter for LevelTagFormatter {
    open spec fn spec_format(&self, msg: Seq<char>, level: Level, origin: Seq<char>) -> Seq<char> {
        "["@ + spec_level_name(level) + "] "@ + msg
    }

    fn format(&self, msg: &str, level: &Level, _origin: &str) -> (r: String) {
        let mut s = String::from_str("[");
        s.append(level.name());
        s.append("] ");
        s.append(msg);
        s
    }
}

} // verus!
