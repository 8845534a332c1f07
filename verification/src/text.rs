//! Small operations on text that the rest of the library shares.

use vstd::prelude::*;
use vstd::string::*;

verus! {

/// The text of an optional string.
pub open spec fn text_of(value: Option<String>) -> Option<Seq<char>> {
    match value {
        Some(text) => Some(text@),
        None => None,
    }
}

/// Whether two texts are the same.
pub fn same_text(left: &str, right: &str) -> (same: bool)
    ensures
        same == (left@ == right@),
{
    let left_len: usize = left.unicode_len();
    if left_len != right.unicode_len() {
        return false;
    }
    let mut at: usize = 0;
    while at < left_len
        invariant
            left_len == left@.len(),
            left_len == right@.len(),
            at <= left_len,
            forall|i: int| 0 <= i < at ==> left@[i] == right@[i],
        decreases left_len - at,
    {
        if left.get_char(at) != right.get_char(at) {
            return false;
        }
        at = at + 1;
    }
    assert(left@ =~= right@);
    true
}

/// Whether `text` holds the character `wanted`.
pub fn has_char(text: &str, wanted: char) -> (found: bool)
    ensures
        found == text@.contains(wanted),
{
    let total: usize = text.unicode_len();
    let mut at: usize = 0;
    while at < total
        invariant
            total == text@.len(),
            at <= total,
            forall|i: int| 0 <= i < at ==> text@[i] != wanted,
        decreases total - at,
    {
        if text.get_char(at) == wanted {
            return true;
        }
        at = at + 1;
    }
    false
}

} // verus!
