//! Messages put together from parts.

use core::fmt::Display;
use vstd::prelude::*;
use vstd::string::to_string_from_display_ensures;

verus! {

/// Whether `text` is what `value` looks like when it is displayed.
pub open spec fn displayed_as<T: Display>(value: T, text: Seq<char>) -> bool {
    exists|shown: String|
        #[trigger] to_string_from_display_ensures(&value, shown) && shown@ == text
}

/// `head` and `tail`, one behind the other.
pub(crate) fn join(head: &str, tail: &str) -> (text: String)
    ensures
        text@ == head@ + tail@,
{
    let mut text: String = head.to_owned();
    text.append(tail);
    text
}

/// What `value` looks like when it is displayed.
pub(crate) fn display<T: Display>(value: &T) -> (text: String)
    ensures
        displayed_as(*value, text@),
{
    let text: String = value.to_string();
    assert(to_string_from_display_ensures(value, text));
    text
}

} // verus!
