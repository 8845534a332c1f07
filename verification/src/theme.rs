//! The colours in which the lovepack tools show keys, values and errors on a
//! terminal.

use vstd::prelude::*;

verus! {

/// A colour of the terminal.
#[derive(Clone, Copy, Debug, PartialEq, Eq, Structural)]
pub enum Paint {
    /// For errors.
    Red,
    /// For values that were just written.
    Green,
    /// For keys.
    Yellow,
    /// For values that are held.
    Blue,
    /// For remarks.
    Cyan,
}

/// The escape sequence that switches the terminal to a colour.
pub open spec fn paint_start(paint: Paint) -> Seq<char> {
    match paint {
        Paint::Red => "\x1B[31m"@,
        Paint::Green => "\x1B[32m"@,
        Paint::Yellow => "\x1B[33m"@,
        Paint::Blue => "\x1B[34m"@,
        Paint::Cyan => "\x1B[36m"@,
    }
}

/// `text` as a terminal shows it in a colour: the escape sequence of the
/// colour, the text, and the escape sequence that resets the terminal.
pub open spec fn painted(paint: Paint, text: Seq<char>) -> Seq<char> {
    paint_start(paint) + text + "\x1B[0m"@
}

/// Paints `text`, with `ansi_term::Colour::paint`.  Shown as a string, the
/// painted text is the text between the escape sequence of the colour and
/// the escape sequence that resets the terminal.
#[verifier::external_body]
fn paint(colour: Paint, text: &str) -> (shown: String)
    ensures
        shown@ == painted(colour, text@),
{
    let colour = match colour {
        Paint::Red => ansi_term::Colour::Red,
        Paint::Green => ansi_term::Colour::Green,
        Paint::Yellow => ansi_term::Colour::Yellow,
        Paint::Blue => ansi_term::Colour::Blue,
        Paint::Cyan => ansi_term::Colour::Cyan,
    };
    colour.paint(text).to_string()
}

/// A key, as it is shown.
pub fn key(text: &str) -> (shown: String)
    ensures
        shown@ == painted(Paint::Yellow, text@),
{
    paint(Paint::Yellow, text)
}

/// A value that is held, as it is shown.
pub fn key_value(text: &str) -> (shown: String)
    ensures
        shown@ == painted(Paint::Blue, text@),
{
    paint(Paint::Blue, text)
}

/// A value that was just written, as it is shown.
pub fn key_value_set(text: &str) -> (shown: String)
    ensures
        shown@ == painted(Paint::Green, text@),
{
    paint(Paint::Green, text)
}

/// What an error is about, as it is shown.
pub fn error(text: &str) -> (shown: String)
    ensures
        shown@ == painted(Paint::Red, text@),
{
    paint(Paint::Red, text)
}

/// What an error says, as it is shown.
pub fn error_message(text: &str) -> (shown: String)
    ensures
        shown@ == painted(Paint::Red, text@),
{
    paint(Paint::Red, text)
}

/// A remark, as it is shown.
pub fn comment(text: &str) -> (shown: String)
    ensures
        shown@ == painted(Paint::Cyan, text@),
{
    paint(Paint::Cyan, text)
}

} // verus!
