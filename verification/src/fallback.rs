//! The last-resort diagnostic: when a sink fails to deliver, the
//! record and the delivery error are rendered into one line of text
//! for the fallback channel.

use vstd::prelude::*;
use vstd::string::StringExecFns;
use crate::errors::LogError;
use crate::level::Level;
use crate::level::spec_level_name;

verus! {

/// The diagnostic text for a record whose delivery failed: it embeds
/// the severity, the origin, the original message, and the error.
pub open spec fn spec_fallback_message(
    msg: Seq<char>,
    level: Level,
    origin: Seq<char>,
    err: Seq<char>,
) -> Seq<char> {
    "Error logging {level: "@ + spec_level_name(level) + ", location: "@ + origin
        + ", arguments: "@ + msg + "}: "@ + err
}

/// Build the diagnostic describing a record whose delivery failed.
pub fn fallback_message(msg: &str, level: &Level, origin: &str, err: &LogError) -> (r: String)
    ensures
        r@ == spec_fallback_message(msg@, *level, origin@, err.spec_text()),
{
    let mut s = String::from_str("Error logging {level: ");
    s.append(level.name());
    s.append(", location: ");
    s.append(origin);
    s.append(", arguments: ");
    s.append(msg);
    s.append("}: ");
    let e = err.message();
    s.append(e.as_str());
    s
}

} // verus!
