//! Messages for malformed `#[event(...)]` attributes on event types.

use vstd::prelude::*;
use vstd::string::StringExecFns;

verus! {

/// The text of the message for an attribute that is not written as
/// `expected_format`.
pub open spec fn wrong_format_text(expected_format: Seq<char>) -> Seq<char> {
    "Wrong attribute format; expected #[event("@ + expected_format + ")]"@
}

/// Returns the message for an attribute that is not written as
/// `expected_format`.
pub fn wrong_format(expected_format: &str) -> (message: String)
    ensures
        message@ == wrong_format_text(expected_format@),
{
    let head = "Wrong attribute format; expected #[event(".to_owned();
    head.concat(expected_format).concat(")]")
}

} // verus!
