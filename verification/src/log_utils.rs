//! The wording of log lines. The library decides what is worth a warning
//! and how the line reads; writing it to a log is the caller's part.

use vstd::prelude::*;
use vstd::string::StringExecFns;
use crate::text::joined;

verus! {

/// A warning line: the tag in square brackets, a space, the message.
pub open spec fn spec_warn(tag: Seq<char>, msg: Seq<char>) -> Seq<char> {
    "["@ + tag + "] "@ + msg
}

/// The line to log for a warning from the part of the program named by
/// `tag`.
pub fn warn(tag: &str, msg: &str) -> (line: String)
    ensures
        line@ == spec_warn(tag@, msg@),
{
    let mut line = joined("[", tag);
    line.append("] ");
    line.append(msg);
    line
}

} // verus!
