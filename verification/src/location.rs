//! Which of the two trees an operation is meant for.

use vstd::prelude::*;
use vstd::string::*;
use crate::text::same_text;

verus! {

/// Where a value is read from or written to.
#[derive(Clone, Copy, Debug, PartialEq, Eq, Structural)]
pub enum Location {
    /// Wherever the value is found, the local tree first.
    Best,
    /// The tree of the current project.
    Local,
    /// The tree of the user.
    Global,
}

impl Location {
    /// The location as a word inside a sentence: empty for `Best`.
    pub open spec fn word(self) -> Seq<char> {
        match self {
            Location::Best => ""@,
            Location::Local => "locally"@,
            Location::Global => "globally"@,
        }
    }

    /// The location as the first word of a sentence: empty for `Best`.
    pub open spec fn capital_word(self) -> Seq<char> {
        match self {
            Location::Best => ""@,
            Location::Local => "Locally"@,
            Location::Global => "Globally"@,
        }
    }

    /// The words that open the report of a write: `Set` at the best
    /// location, else the location and ` set`.
    pub open spec fn set_words(self) -> Seq<char> {
        match self {
            Location::Best => "Set"@,
            _ => self.capital_word() + " set"@,
        }
    }

    /// The location that a stored choice stands for: `Best` where nothing
    /// was chosen, `Global` for the word `global`, and `Local` for any
    /// other word.
    pub open spec fn chosen(choice: Option<&str>) -> Location {
        match choice {
            None => Location::Best,
            Some(word) => if word@ == "global"@ {
                Location::Global
            } else {
                Location::Local
            },
        }
    }

    /// The location that a stored choice stands for: `Best` where nothing
    /// was chosen, `Global` for the word `global`, and `Local` for any
    /// other word.
    pub fn get_location(choice: Option<&str>) -> (location: Location)
        ensures
            location == Location::chosen(choice),
    {
        match choice {
            None => Location::Best,
            Some(word) => {
                if same_text(word, "global") {
                    Location::Global
                } else {
                    Location::Local
                }
            },
        }
    }

    /// The location that a command is meant for.  The switch for the global
    /// tree comes first, then the one for the local tree; without either,
    /// the stored choice decides, as `get_location` reads it.
    pub fn from_flags(local: bool, global: bool, choice: Option<&str>) -> (location: Location)
        ensures
            location == if global {
                Location::Global
            } else if local {
                Location::Local
            } else {
                Location::chosen(choice)
            },
    {
        if global {
            Location::Global
        } else if local {
            Location::Local
        } else {
            Location::get_location(choice)
        }
    }

    /// The words that open the report of a write: `Set` at the best
    /// location, else the location and ` set`.
    pub fn set_phrase(&self) -> (words: String)
        ensures
            words@ == self.set_words(),
    {
        match self {
            Location::Best => "Set".to_owned(),
            _ => self.to_string_cap().concat(" set"),
        }
    }

    /// The location as the first word of a sentence: empty for `Best`.
    pub fn to_string_cap(&self) -> (word: String)
        ensures
            word@ == self.capital_word(),
    {
        match self {
            Location::Best => "".to_owned(),
            Location::Local => "Locally".to_owned(),
            Location::Global => "Globally".to_owned(),
        }
    }

    /// The location as a word inside a sentence: empty for `Best`.
    pub fn to_string(&self) -> (word: String)
        ensures
            word@ == self.word(),
    {
        match self {
            Location::Best => "".to_owned(),
            Location::Local => "locally".to_owned(),
            Location::Global => "globally".to_owned(),
        }
    }
}

} // verus!
