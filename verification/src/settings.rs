//! One settings tree, read and written by dotted keys.

use vstd::prelude::*;
use vstd::string::*;
use crate::assoc::{find, lemma_assoc_domain, names_of};
use crate::document::{is_outcome, is_text_outcome, read_outcome, write_outcome};
use crate::error::SettingsError;
use crate::model::{assign, law_read_own_write, lookup, Node, Table};
use crate::path::{segments_of, texts, valid_path, PathAddress};
use crate::settings_file::Configuration;
use crate::text::text_of;
use crate::subsetting::{
    as_model, lemma_found_child, lemma_put_child, lemma_table_is_assoc, node_model, table_model,
    Subsetting,
};

verus! {

/// What a key leads to in a tree: a text value, or a section.
#[derive(Debug, PartialEq, Eq)]
pub enum Found {
    /// The key names a value; this is its text.
    Value(String),
    /// The key names a section, which has no text of its own.
    Section,
}

impl Found {
    /// This result describes `node`.
    pub open spec fn shows(self, node: Node) -> bool {
        match self {
            Found::Value(text) => node == Node::Leaf(text@),
            Found::Section => node is Branch,
        }
    }
}

/// The node that the dotted key `key` leads to in `table`: nothing for a
/// key with an empty segment.
pub open spec fn resolve(table: Table, key: Seq<char>) -> Option<Node> {
    if valid_path(segments_of(key)) {
        lookup(table, segments_of(key))
    } else {
        None
    }
}

/// The text that stands for a node where a string is asked for: the value
/// itself, or the words `is complex` for a section.
pub open spec fn shown(node: Node) -> Seq<char> {
    match node {
        Node::Leaf(text) => text,
        Node::Branch(_) => "is complex"@,
    }
}

/// The text that a read gives for what it found.
pub open spec fn shown_text(found: Option<Node>) -> Option<Seq<char>> {
    match found {
        Some(node) => Some(shown(node)),
        None => None,
    }
}

/// The text of what a read found, where it found a value.
pub open spec fn value_text(found: Option<Node>) -> Option<Seq<char>> {
    match found {
        Some(Node::Leaf(text)) => Some(text),
        _ => None,
    }
}

/// The names of the lines of a listing.
pub open spec fn listed_names(lines: Seq<(String, Option<String>)>) -> Seq<Seq<char>> {
    lines.map_values(|line: (String, Option<String>)| line.0@)
}

/// A key that can be written to: no segment is empty, and there are at
/// least two of them, one for a section and one for the value in it.
pub open spec fn writable(key: Seq<char>) -> bool {
    valid_path(segments_of(key)) && segments_of(key).len() >= 2
}

/// Round trip, by key: after a value was written under a key, the key reads
/// as that value.
pub proof fn law_set_then_get(table: Table, key: Seq<char>, value: Seq<char>)
    requires
        writable(key),
    ensures
        resolve(assign(table, segments_of(key), value), key) == Some(Node::Leaf(value)),
        shown(resolve(assign(table, segments_of(key), value), key)->0) == value,
{
    law_read_own_write(table, segments_of(key), value);
}

/// No key reads as anything in an empty tree.
pub proof fn law_empty_tree_has_no_values(key: Seq<char>)
    ensures
        resolve(Map::empty(), key) is None,
{
}

/// What loading a tree from its storage comes to.  `buffer` is the stored
/// text, `None` where the storage could not be read.  No text is an
/// `IOError`, an empty text is a `ParseError`, and any other text is read as
/// a settings document.
pub open spec fn load_outcome(buffer: Option<&str>) -> Result<Table, SettingsError> {
    match buffer {
        None => Err(SettingsError::IOError),
        Some(text) => if text@.len() == 0 {
            Err(SettingsError::ParseError)
        } else {
            read_outcome(text@)
        },
    }
}

/// The tree that a lenient load leaves to work with: what was loaded, or an
/// empty tree where loading failed.
pub open spec fn loaded_or_empty(buffer: Option<&str>) -> Table {
    match load_outcome(buffer) {
        Ok(tree) => tree,
        Err(_) => Map::empty(),
    }
}

/// A load that fails leaves an empty tree to work with: it has no names, and
/// no key reads as anything in it.
pub proof fn law_failed_load_is_empty(buffer: Option<&str>, key: Seq<char>)
    requires
        load_outcome(buffer) is Err,
    ensures
        loaded_or_empty(buffer) == Map::<Seq<char>, Node>::empty(),
        loaded_or_empty(buffer).dom().len() == 0,
        resolve(loaded_or_empty(buffer), key) is None,
{
}

/// Walks `path` down from `entries`.
fn walk<'a>(entries: &'a Vec<(String, Subsetting)>, path: &Vec<String>) -> (found: Option<
    &'a Subsetting,
>)
    requires
        path.len() >= 1,
    ensures
        match found {
            Some(node) => lookup(table_model(entries@), texts(path@)) == Some(node_model(*node)),
            None => lookup(table_model(entries@), texts(path@)) is None,
        },
{
    let mut current = entries;
    let mut depth: usize = 0;
    proof {
        assert(texts(path@).skip(0) == texts(path@));
    }
    loop
        invariant
            depth < path.len(),
            lookup(table_model(entries@), texts(path@)) == lookup(
                table_model(current@),
                texts(path@).skip(depth as int),
            ),
        decreases path.len() - depth,
    {
        let found = find(current, &path[depth]);
        proof {
            let rest = texts(path@).skip(depth as int);
            assert(rest.skip(1) == texts(path@).skip(depth + 1));
            lemma_found_child(current@, path@[depth as int]@);
        }
        match found {
            None => {
                return None;
            },
            Some(at) => {
                let node = &current[at].1;
                if depth + 1 == path.len() {
                    return Some(node);
                }
                match node {
                    Subsetting::Complex(children) => {
                        current = children;
                        depth = depth + 1;
                    },
                    Subsetting::Single(_) => {
                        return None;
                    },
                }
            },
        }
    }
}

/// Writes `value` at the part of `path` that starts at `depth`, under
/// `entries`.
fn store(entries: &mut Vec<(String, Subsetting)>, path: &Vec<String>, depth: usize, value: String)
    requires
        depth < path.len(),
    ensures
        table_model(final(entries)@) == assign(
            table_model(old(entries)@),
            texts(path@).skip(depth as int),
            value@,
        ),
    decreases path.len() - depth,
{
    let name = path[depth].clone();
    let found = find(entries, &path[depth]);
    let ghost before = entries@;
    let ghost rest = texts(path@).skip(depth as int);
    proof {
        assert(rest.skip(1) == texts(path@).skip(depth + 1));
        lemma_found_child(before, name@);
    }
    let mut children: Vec<(String, Subsetting)> = Vec::new();
    match found {
        Some(at) => {
            let (_, node) = entries.remove(at);
            match node {
                Subsetting::Complex(below) => {
                    children = below;
                },
                Subsetting::Single(_) => {},
            }
        },
        None => {},
    }
    let node = if depth + 1 == path.len() {
        Subsetting::Single(value)
    } else {
        store(&mut children, path, depth + 1, value);
        Subsetting::Complex(children)
    };
    let ghost entry = (name, node);
    entries.push((name, node));
    proof {
        lemma_put_child(before, entries@, entry);
    }
}

/// A settings tree: named values and sections, to any depth.
#[derive(Debug)]
pub struct Settings {
    parts: Vec<(String, Subsetting)>,
}

impl View for Settings {
    type V = Table;

    closed spec fn view(&self) -> Table {
        table_model(self.parts@)
    }
}

impl Settings {
    /// An empty tree.
    pub fn new() -> (tree: Settings)
        ensures
            tree@ == Map::<Seq<char>, Node>::empty(),
    {
        Settings { parts: Vec::new() }
    }

    /// The tree with the given top-level entries.
    pub fn from_parts(parts: Vec<(String, Subsetting)>) -> (tree: Settings)
        ensures
            tree@ == table_model(parts@),
    {
        Settings { parts }
    }

    /// The top-level entries of the tree.
    pub fn parts(&self) -> (parts: &Vec<(String, Subsetting)>)
        ensures
            table_model(parts@) == self@,
    {
        &self.parts
    }

    /// What `key` leads to: nothing where a segment of the key is empty or
    /// missing from the tree, or where the key runs on below a value.
    pub fn lookup(&self, key: &str) -> (found: Option<Found>)
        ensures
            match resolve(self@, key@) {
                Some(node) => found is Some && found->0.shows(node),
                None => found is None,
            },
    {
        match PathAddress::parse(key) {
            Err(_) => None,
            Ok(path) => self.lookup_path(&path),
        }
    }

    /// What the parsed key `path` leads to.
    pub fn lookup_path(&self, path: &PathAddress) -> (found: Option<Found>)
        ensures
            match lookup(self@, path@) {
                Some(node) => found is Some && found->0.shows(node),
                None => found is None,
            },
    {
        match walk(&self.parts, path.segments()) {
            None => None,
            Some(Subsetting::Single(text)) => Some(Found::Value(text.clone())),
            Some(Subsetting::Complex(_)) => Some(Found::Section),
        }
    }

    /// The text under `key`: the value, or the words `is complex` where the
    /// key names a section.
    pub fn get_value(&self, key: &str) -> (value: Option<String>)
        ensures
            match resolve(self@, key@) {
                Some(node) => value is Some && value->0@ == shown(node),
                None => value is None,
            },
    {
        match self.lookup(key) {
            None => None,
            Some(Found::Value(text)) => Some(text),
            Some(Found::Section) => Some("is complex".to_owned()),
        }
    }

    /// The text under `key` as `get_value` gives it, or `or_value` where
    /// there is none.
    pub fn get_value_or(&self, key: &str, or_value: &str) -> (value: String)
        ensures
            value@ == match resolve(self@, key@) {
                Some(node) => shown(node),
                None => or_value@,
            },
    {
        match self.get_value(key) {
            None => or_value.to_owned(),
            Some(value) => value,
        }
    }

    /// Writes `value` under `key`.  The key needs a section and a name in
    /// it, so at least two segments, none of them empty; any other key is
    /// refused and the tree stays as it is.
    pub fn set_value(&mut self, key: &str, value: &str) -> (done: Result<(), SettingsError>)
        ensures
            writable(key@) ==> done is Ok && final(self)@ == assign(
                old(self)@,
                segments_of(key@),
                value@,
            ),
            !writable(key@) ==> done == Err::<(), SettingsError>(SettingsError::InvalidPath)
                && final(self)@ == old(self)@,
    {
        match PathAddress::parse(key) {
            Err(error) => Err(error),
            Ok(path) => self.set_path(&path, value),
        }
    }

    /// Writes `value` at the parsed key `path`, which needs at least two
    /// segments.
    pub fn set_path(&mut self, path: &PathAddress, value: &str) -> (done: Result<
        (),
        SettingsError,
    >)
        ensures
            path@.len() >= 2 ==> done is Ok && final(self)@ == assign(old(self)@, path@, value@),
            path@.len() < 2 ==> done == Err::<(), SettingsError>(SettingsError::InvalidPath)
                && final(self)@ == old(self)@,
    {
        if path.len() < 2 {
            return Err(SettingsError::InvalidPath);
        }
        let segments = path.segments();
        proof {
            assert(texts(segments@).skip(0) == texts(segments@));
        }
        store(&mut self.parts, segments, 0, value.to_owned());
        Ok(())
    }

    /// Loads a tree from what was read from its storage: `buffer` is the
    /// stored text, `None` where the storage could not be read.
    pub fn load_from(buffer: Option<&str>) -> (loaded: Result<Settings, SettingsError>)
        ensures
            is_outcome(loaded, load_outcome(buffer)),
    {
        match buffer {
            None => Err(SettingsError::IOError),
            Some(text) => {
                if text.unicode_len() == 0 {
                    Err(SettingsError::ParseError)
                } else {
                    (Configuration {}).from_str(text)
                }
            },
        }
    }

    /// As `load_from`, with an empty tree in place of any failure.
    pub fn load_from_or_empty(buffer: Option<&str>) -> (tree: Settings)
        ensures
            tree@ == loaded_or_empty(buffer),
    {
        match Settings::load_from(buffer) {
            Ok(loaded) => loaded,
            Err(_) => Settings::new(),
        }
    }

    /// The whole tree as the text to store.
    pub fn save(&self) -> (text: Result<String, SettingsError>)
        ensures
            is_text_outcome(text, write_outcome(self@)),
    {
        (Configuration {}).to_string(self)
    }

    /// The top of the tree as a list: each name once, with the text that it
    /// reads as when it is used as a key.
    pub fn listing(&self) -> (lines: Vec<(String, Option<String>)>)
        ensures
            listed_names(lines@).no_duplicates(),
            listed_names(lines@).to_set() == self@.dom(),
            lines.len() == self@.dom().len(),
            forall|i: int|
                0 <= i < lines.len() ==> text_of((#[trigger] lines@[i]).1) == shown_text(
                    resolve(self@, lines@[i].0@),
                ),
    {
        let names = self.keys();
        let mut lines: Vec<(String, Option<String>)> = Vec::new();
        let mut at: usize = 0;
        while at < names.len()
            invariant
                at <= names.len(),
                lines.len() == at,
                forall|i: int| 0 <= i < at ==> (#[trigger] lines@[i]).0@ == names@[i]@,
                forall|i: int|
                    0 <= i < at ==> text_of((#[trigger] lines@[i]).1) == shown_text(
                        resolve(self@, lines@[i].0@),
                    ),
            decreases names.len() - at,
        {
            let value = self.get_value(names[at].as_str());
            lines.push((names[at].clone(), value));
            at = at + 1;
        }
        proof {
            assert(listed_names(lines@) =~= texts(names@));
        }
        lines
    }

    /// The names at the top of the tree, each once.
    pub fn keys(&self) -> (names: Vec<String>)
        ensures
            texts(names@).no_duplicates(),
            texts(names@).to_set() == self@.dom(),
            names.len() == self@.dom().len(),
    {
        let names = names_of(&self.parts);
        proof {
            let listed = texts(names@);
            lemma_table_is_assoc(self.parts@);
            assert forall|i: int, j: int| 0 <= i < listed.len() && 0 <= j < listed.len() && i
                != j implies listed[i] != listed[j] by {}
            assert forall|name: Seq<char>| listed.to_set().contains(name) == self@.dom().contains(
                name,
            ) by {
                lemma_assoc_domain(self.parts@, as_model(), name);
                if listed.to_set().contains(name) {
                    let i = choose|i: int| 0 <= i < listed.len() && listed[i] == name;
                    assert(names@[i]@ == name);
                }
                if self@.dom().contains(name) {
                    let j = choose|j: int|
                        0 <= j < self.parts@.len() && (#[trigger] self.parts@[j]).0@ == name;
                    let i = choose|i: int|
                        0 <= i < names@.len() && (#[trigger] names@[i])@ == self.parts@[j].0@;
                    assert(listed[i] == name);
                }
            }
            listed.unique_seq_to_set();
        }
        names
    }
}

} // verus!
