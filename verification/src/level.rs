//! Log severity levels, ordered from most severe (`Error`) to most
//! verbose (`Trace`).

use vstd::prelude::*;

verus! {

/// A log severity level. `Error` is the most severe, `Trace` the most
/// verbose; the order is total and fixed.
#[derive(Clone, Copy, PartialEq, Eq, Structural, Debug)]
pub enum Level {
    Error,
    Warn,
    Info,
    Debug,
    Trace,
}

impl Level {
    /// Position of the level in the order: `Error` is 0 and `Trace` is 4.
    /// Smaller rank means more severe.
    pub open spec fn rank(self) -> int {
        match self {
            Level::Error => 0,
            Level::Warn => 1,
            Level::Info => 2,
            Level::Debug => 3,
            Level::Trace => 4,
        }
    }

    /// Executable rank, for comparisons.
    pub fn rank_u8(&self) -> (r: u8)
        ensures
            r as int == self.rank(),
    {
        match self {
            Level::Error => 0,
            Level::Warn => 1,
            Level::Info => 2,
            Level::Debug => 3,
            Level::Trace => 4,
        }
    }

    /// True when `self` is at least as severe as `other`.
    pub fn at_least_as_severe(&self, other: &Level) -> (r: bool)
        ensures
            r == at_least_as_severe(*self, *other),
    {
        self.rank_u8() <= other.rank_u8()
    }

    /// Upper-case name of the level, matching the conventional
    /// rendering of log levels.
    pub fn name(&self) -> (r: &'static str)
        ensures
            r@ == spec_level_name(*self),
    {
        match self {
            Level::Error => "ERROR",
            Level::Warn => "WARN",
            Level::Info => "INFO",
            Level::Debug => "DEBUG",
            Level::Trace => "TRACE",
        }
    }
}

/// `a` is at least as severe as `b`: `a` stands no later than `b` in the
/// order `Error, Warn, Info, Debug, Trace`.
pub open spec fn at_least_as_severe(a: Level, b: Level) -> bool {
    a.rank() <= b.rank()
}

/// The name each level prints as.
pub open spec fn spec_level_name(level: Level) -> Seq<char> {
    match level {
        Level::Error => "ERROR"@,
        Level::Warn => "WARN"@,
        Level::Info => "INFO"@,
        Level::Debug => "DEBUG"@,
        Level::Trace => "TRACE"@,
    }
}

} // verus!
