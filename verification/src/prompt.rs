//! Cleaning up what a user typed at a prompt.

use vstd::prelude::*;
use vstd::string::*;

verus! {

/// Whether `c` ends a line.
pub open spec fn is_line_end(c: char) -> bool {
    c == '\r' || c == '\n'
}

/// `text` with every carriage return and line feed taken out.
pub open spec fn without_line_ends(text: Seq<char>) -> Seq<char>
    decreases text.len(),
{
    if text.len() == 0 {
        Seq::<char>::empty()
    } else if is_line_end(text.last()) {
        without_line_ends(text.drop_last())
    } else {
        without_line_ends(text.drop_last()).push(text.last())
    }
}

/// The answer that a line of input holds: the line without the carriage
/// returns and line feeds in it.
pub fn strip_line_ends(input: &str) -> (answer: String)
    ensures
        answer@ == without_line_ends(input@),
{
    let total: usize = input.unicode_len();
    let mut answer = String::new();
    let mut start: usize = 0;
    let mut at: usize = 0;
    while at < total
        invariant
            total == input@.len(),
            start <= at <= total,
            answer@ + input@.subrange(start as int, at as int) == without_line_ends(
                input@.take(at as int),
            ),
        decreases total - at,
    {
        let c = input.get_char(at);
        proof {
            assert(input@.take(at + 1).drop_last() == input@.take(at as int));
        }
        if c == '\r' || c == '\n' {
            answer.append(input.substring_char(start, at));
            start = at + 1;
        }
        at = at + 1;
    }
    answer.append(input.substring_char(start, total));
    proof {
        assert(input@.take(total as int) == input@);
    }
    answer
}

} // verus!
