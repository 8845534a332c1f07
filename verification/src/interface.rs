//! What a command asks for, and the lines that report what was done.

use vstd::prelude::*;
use vstd::string::*;
use crate::location::Location;
use crate::path::texts;
use crate::text::text_of;
use crate::theme::{painted, Paint};
use crate::theme;

verus! {

/// What a command asks for.
#[derive(Debug, PartialEq, Eq)]
pub enum Action {
    /// Nothing: no key was given.
    Nothing,
    /// To show the value under a key.
    Show(String),
    /// To write a value under a key.
    Write(String, String),
}

/// What the arguments of a command ask for: a key alone asks for its
/// value, a key with a value asks for a write, and without a key nothing is
/// asked for.
pub fn action_for(key: Option<&str>, value: Option<&str>) -> (action: Action)
    ensures
        match (key, value) {
            (None, _) => action == Action::Nothing,
            (Some(key), None) => action matches Action::Show(shown) && shown@ == key@,
            (Some(key), Some(value)) => action matches Action::Write(name, text) && name@ == key@
                && text@ == value@,
        },
{
    match key {
        None => Action::Nothing,
        Some(key) => match value {
            None => Action::Show(key.to_owned()),
            Some(value) => Action::Write(key.to_owned(), value.to_owned()),
        },
    }
}

/// The line that reports a read.
pub open spec fn value_line(key: Seq<char>, value: Option<Seq<char>>, location: Location) -> Seq<
    char,
> {
    match value {
        Some(text) => painted(Paint::Yellow, key) + ": "@ + painted(Paint::Blue, text) + " "@
            + location.word(),
        None => painted(Paint::Red, key) + " is not defined"@,
    }
}

/// The line that reports a write.
pub open spec fn set_line(
    key: Seq<char>,
    value: Seq<char>,
    previous: Option<Seq<char>>,
    location: Location,
) -> Seq<char> {
    location.set_words() + " "@ + painted(Paint::Yellow, key) + " to "@ + painted(
        Paint::Green,
        value,
    ) + " "@ + match previous {
        Some(text) => "overwriting "@ + painted(Paint::Blue, text),
        None => Seq::<char>::empty(),
    }
}

/// A line of a listing.
pub open spec fn listing_line(key: Seq<char>, value: Option<Seq<char>>) -> Seq<char> {
    match value {
        Some(text) => painted(Paint::Yellow, key) + ": "@ + painted(Paint::Blue, text),
        None => painted(Paint::Yellow, key),
    }
}

/// The lines of a listing, one for each name.
pub open spec fn listing_lines(entries: Seq<(String, Option<String>)>) -> Seq<Seq<char>> {
    entries.map_values(
        |entry: (String, Option<String>)| listing_line(entry.0@, text_of(entry.1)),
    )
}

/// The list of the settings that are held: the global ones, then the local
/// ones.  Where there are local ones, each part has its heading before it;
/// where there are none, the global lines stand alone.
pub open spec fn current_listing(
    global: Seq<(String, Option<String>)>,
    local: Seq<(String, Option<String>)>,
) -> Seq<Seq<char>> {
    if local.len() > 0 {
        seq!["Global Settings"@] + listing_lines(global) + seq!["Local Settings"@]
            + listing_lines(local)
    } else {
        listing_lines(global)
    }
}

/// The question for a setting.
pub open spec fn question_line(
    key: Seq<char>,
    held: Option<Seq<char>>,
    desc: Option<Seq<char>>,
) -> Seq<char> {
    painted(Paint::Yellow, key) + match held {
        Some(text) => "("@ + painted(Paint::Blue, text) + ")"@,
        None => Seq::<char>::empty(),
    } + match desc {
        Some(text) => " - "@ + painted(Paint::Cyan, text),
        None => Seq::<char>::empty(),
    }
}

/// The text of an optional string slice.
pub open spec fn slice_text(value: Option<&str>) -> Option<Seq<char>> {
    match value {
        Some(text) => Some(text@),
        None => None,
    }
}

/// The line that reports what `key` reads as at `location`: the key, its
/// value and the location, or that the key is not defined.
pub fn display_value(key: &str, value: Option<&str>, location: Location) -> (line: String)
    ensures
        line@ == value_line(key@, slice_text(value), location),
{
    match value {
        Some(text) => theme::key(key).concat(": ").concat(theme::key_value(text).as_str()).concat(
            " ",
        ).concat(location.to_string().as_str()),
        None => theme::error(key).concat(" is not defined"),
    }
}

/// The line that reports that `value` was written under `key` at
/// `location`, over `previous` where the key had a value before.
pub fn set_value(key: &str, value: &str, previous: Option<&str>, location: Location) -> (line:
    String)
    ensures
        line@ == set_line(key@, value@, slice_text(previous), location),
{
    let opening = location.set_phrase().concat(" ").concat(theme::key(key).as_str()).concat(
        " to ",
    ).concat(theme::key_value_set(value).as_str()).concat(" ");
    match previous {
        Some(text) => opening.concat("overwriting ").concat(theme::key_value(text).as_str()),
        None => opening,
    }
}

/// The line that reports that `key` could not be written.
pub fn set_error(key: &str, message: &str) -> (line: String)
    ensures
        line@ == "Error setting '"@ + painted(Paint::Yellow, key@) + "': "@ + painted(
            Paint::Red,
            message@,
        ),
{
    "Error setting '".to_owned().concat(theme::key(key).as_str()).concat("': ").concat(
        theme::error(message).as_str(),
    )
}

/// A line of the list of the settings that are held: the key and its
/// value, or the key alone where it has none.
pub fn list_current(key: &str, value: Option<&str>) -> (line: String)
    ensures
        line@ == listing_line(key@, slice_text(value)),
{
    match value {
        Some(text) => theme::key(key).concat(": ").concat(theme::key_value(text).as_str()),
        None => theme::key(key),
    }
}

/// Appends the lines of a listing to `lines`.
fn push_lines(lines: &mut Vec<String>, entries: &Vec<(String, Option<String>)>)
    ensures
        texts(final(lines)@) == texts(old(lines)@) + listing_lines(entries@),
{
    let ghost start = texts(lines@);
    let mut at: usize = 0;
    while at < entries.len()
        invariant
            at <= entries.len(),
            texts(lines@) == start + listing_lines(entries@.take(at as int)),
        decreases entries.len() - at,
    {
        let line = match &entries[at].1 {
            Some(text) => list_current(entries[at].0.as_str(), Some(text.as_str())),
            None => list_current(entries[at].0.as_str(), None),
        };
        let ghost before = texts(lines@);
        lines.push(line);
        proof {
            assert(texts(lines@) =~= before.push(line@));
        }
        at = at + 1;
    }
}

/// The list of the settings that are held, line by line: the lines of
/// `global`, then those of `local`, each part under its heading where
/// `local` has any lines, and the lines of `global` alone where it has none.
pub fn current_lines(
    global: &Vec<(String, Option<String>)>,
    local: &Vec<(String, Option<String>)>,
) -> (lines: Vec<String>)
    ensures
        texts(lines@) == current_listing(global@, local@),
{
    let mut lines: Vec<String> = Vec::new();
    let headed = local.len() > 0;
    if headed {
        lines.push("Global Settings".to_owned());
    }
    proof {
        assert(texts(lines@) =~= if headed {
            seq!["Global Settings"@]
        } else {
            Seq::<Seq<char>>::empty()
        });
    }
    push_lines(&mut lines, global);
    if headed {
        lines.push("Local Settings".to_owned());
        push_lines(&mut lines, local);
    }
    lines
}

/// A line of the list of the settings that a tool knows of: the key and
/// what the setting is for.
pub fn list_possible(key: &str, desc: &str) -> (line: String)
    ensures
        line@ == painted(Paint::Yellow, key@) + " - "@ + painted(Paint::Cyan, desc@),
{
    theme::key(key).concat(" - ").concat(theme::comment(desc).as_str())
}

/// The question that asks for the value under `key`: the key, the value
/// that is held in brackets, and what the setting is for where `desc` gives
/// it.
pub fn question(key: &str, held: Option<&str>, desc: Option<&str>) -> (line: String)
    ensures
        line@ == question_line(key@, slice_text(held), slice_text(desc)),
{
    let asked = match held {
        Some(text) => theme::key(key).concat("(").concat(theme::key_value(text).as_str()).concat(
            ")",
        ),
        None => theme::key(key),
    };
    match desc {
        Some(text) => asked.concat(" - ").concat(theme::comment(text).as_str()),
        None => asked,
    }
}

} // verus!
