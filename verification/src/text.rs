//! Strings as the sequences of characters that contracts speak of.

use vstd::prelude::*;

verus! {

/// The texts of a sequence of strings, in order.
pub open spec fn names(strings: Seq<String>) -> Seq<Seq<char>> {
    strings.map_values(|s: String| s@)
}

/// The text of an optional string.
pub open spec fn text_of(value: Option<String>) -> Option<Seq<char>> {
    match value {
        Some(s) => Some(s@),
        None => None,
    }
}

} // verus!
