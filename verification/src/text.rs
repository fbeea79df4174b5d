//! Putting messages together.

use vstd::prelude::*;
use vstd::string::StringExecFns;

verus! {

/// `head` followed by `tail`.
pub(crate) fn joined(head: &str, tail: &str) -> (text: String)
    ensures
        text@ == head@ + tail@,
{
    let mut text = head.to_string();
    text.append(tail);
    text
}

/// `head`, `middle` and `tail` one after the other.
pub(crate) fn joined3(head: &str, middle: &str, tail: &str) -> (text: String)
    ensures
        text@ == head@ + middle@ + tail@,
{
    let mut text = head.to_string();
    text.append(middle);
    text.append(tail);
    text
}

} // verus!
