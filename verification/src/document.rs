//! Settings trees as TOML documents.
//!
//! Reading and writing TOML is the work of the `toml` crate.  What this
//! module adds is the step between a TOML value and a settings tree: a tree
//! holds text and sections only, so a document with anything else in it (a
//! number, a date, an array) is no settings document.

use vstd::prelude::*;
use crate::assoc::{
    assoc_view, distinct_names, lemma_assoc_last, lemma_last_index_by_names,
    lemma_last_index_of_distinct, lemma_put_view, lemma_with_entry_distinct, put,
};
use crate::error::SettingsError;
use crate::model::{Node, Table};
use crate::settings::Settings;
use crate::settings_file::Configuration;
use crate::subsetting::{lemma_found_child, node_model, table_model, Subsetting};

verus! {

/// A value of the `toml` crate.  Nothing of its inside is known here but
/// what `toml_contents` says.
#[verifier::external_type_specification]
#[verifier::external_body]
pub struct ExTomlValue(toml::Value);

/// Why the `toml` crate could not read a text.
#[verifier::external_type_specification]
#[verifier::external_body]
pub struct ExTomlReadError(toml::de::Error);

/// Why the `toml` crate could not write a value.
#[verifier::external_type_specification]
#[verifier::external_body]
pub struct ExTomlWriteError(toml::ser::Error);

/// What a TOML value holds, as far as a settings tree can hold it.
pub enum Toml {
    /// A string.
    Text(Seq<char>),
    /// A table: named values, one per name.
    Table(Map<Seq<char>, Toml>),
    /// Anything else: a number, a boolean, a date, an array.
    Other,
}

/// What the TOML value `value` holds.
pub uninterp spec fn toml_contents(value: toml::Value) -> Toml;

/// What the `toml` crate reads out of `text`: the contents of the document,
/// or nothing where the text is not TOML.
pub uninterp spec fn toml_parsed(text: Seq<char>) -> Option<Toml>;

/// The text that the `toml` crate writes for a value of strings and tables
/// with the contents `contents`, or nothing where it refuses to write it.
pub uninterp spec fn toml_written(contents: Toml) -> Option<Seq<char>>;

/// `toml_contents` of a borrowed value, to read a list of entries with.
pub open spec fn borrowed_contents<'a>() -> spec_fn(&'a toml::Value) -> Toml {
    |value: &'a toml::Value| toml_contents(*value)
}

/// `toml_contents` of a value, to read a list of entries with.
pub open spec fn owned_contents() -> spec_fn(toml::Value) -> Toml {
    |value: toml::Value| toml_contents(value)
}

/// The settings node that TOML contents stand for: a string is a value, a
/// table of nodes is a section, and nothing else is a node.
pub open spec fn node_in(contents: Toml) -> Option<Node>
    decreases contents,
{
    match contents {
        Toml::Text(text) => Some(Node::Leaf(text)),
        Toml::Table(children) => if forall|name: Seq<char>|
            children.contains_key(name) ==> node_in(#[trigger] children[name]) is Some {
            Some(
                Node::Branch(
                    Map::new(
                        |name: Seq<char>| children.contains_key(name),
                        |name: Seq<char>|
                            if children.contains_key(name) {
                                node_in(children[name])->0
                            } else {
                                Node::Leaf(Seq::empty())
                            },
                    ),
                ),
            )
        } else {
            None
        },
        Toml::Other => None,
    }
}

/// The settings tree that TOML contents stand for: the contents must be a
/// table that stands for a section.
pub open spec fn tree_in(contents: Toml) -> Option<Table> {
    match node_in(contents) {
        Some(Node::Branch(children)) => Some(children),
        _ => None,
    }
}

/// The TOML contents that stand for a settings node.
pub open spec fn toml_of(node: Node) -> Toml
    decreases node,
{
    match node {
        Node::Leaf(text) => Toml::Text(text),
        Node::Branch(children) => Toml::Table(
            Map::new(
                |name: Seq<char>| children.contains_key(name),
                |name: Seq<char>|
                    if children.contains_key(name) {
                        toml_of(children[name])
                    } else {
                        Toml::Other
                    },
            ),
        ),
    }
}

/// Reads `text` as a TOML document, with `toml::from_str`.  The outcome
/// depends on the text alone: it is what `toml_parsed` names.
#[verifier::external_body]
fn decode(text: &str) -> (decoded: Result<toml::Value, toml::de::Error>)
    ensures
        match decoded {
            Ok(value) => toml_parsed(text@) == Some(toml_contents(value)),
            Err(_) => toml_parsed(text@) is None,
        },
{
    toml::from_str::<toml::Value>(text)
}

/// Writes `value` as a TOML document, with `toml::to_string`.  For a value
/// of strings and tables the outcome depends on its contents alone: it is
/// what `toml_written` names.
#[verifier::external_body]
fn encode(value: &toml::Value) -> (encoded: Result<String, toml::ser::Error>)
    requires
        node_in(toml_contents(*value)) is Some,
    ensures
        match encoded {
            Ok(text) => toml_written(toml_contents(*value)) == Some(text@),
            Err(_) => toml_written(toml_contents(*value)) is None,
        },
{
    toml::to_string(value)
}

/// The string in `value`, as `toml::Value::as_str` gives it: a copy of the
/// string where the value is one, nothing where it is anything else.
#[verifier::external_body]
fn text_in(value: &toml::Value) -> (text: Option<String>)
    ensures
        match toml_contents(*value) {
            Toml::Text(held) => text is Some && text->0@ == held,
            _ => text is None,
        },
{
    value.as_str().map(|held| held.to_owned())
}

/// The entries of the table in `value`, as `toml::Value::as_table` gives
/// them: each name once, with the value under it; nothing where the value
/// is no table.
#[verifier::external_body]
fn entries_in<'a>(value: &'a toml::Value) -> (entries: Option<Vec<(String, &'a toml::Value)>>)
    ensures
        match toml_contents(*value) {
            Toml::Table(children) => {
                &&& entries is Some
                &&& distinct_names(entries->0@)
                &&& assoc_view(entries->0@, borrowed_contents()) == children
            },
            _ => entries is None,
        },
{
    value.as_table().map(|table| table.iter().map(|(name, child)| (name.clone(), child)).collect())
}

/// The TOML string with the given text: `toml::Value::String`.
#[verifier::external_body]
fn text_value(text: &str) -> (value: toml::Value)
    ensures
        toml_contents(value) == Toml::Text(text@),
{
    toml::Value::String(text.to_owned())
}

/// The TOML table with the given entries, no two of the same name:
/// `toml::Value::Table`, over the map that collecting the entries gives.
/// The table holds each entry under its name, and nothing else.
#[verifier::external_body]
fn table_value(entries: Vec<(String, toml::Value)>) -> (value: toml::Value)
    requires
        distinct_names(entries@),
    ensures
        toml_contents(value) == Toml::Table(assoc_view(entries@, owned_contents())),
{
    toml::Value::Table(entries.into_iter().collect())
}

/// The settings node that `value` stands for, if it stands for one.
pub fn node_of(value: &toml::Value) -> (node: Option<Subsetting>)
    ensures
        match node_in(toml_contents(*value)) {
            Some(found) => node is Some && node_model(node->0) == found,
            None => node is None,
        },
    decreases toml_contents(*value),
{
    match text_in(value) {
        Some(text) => Some(Subsetting::Single(text)),
        None => match entries_in(value) {
            None => None,
            Some(entries) => match nodes_of(value, &entries) {
                Some(children) => Some(Subsetting::Complex(children)),
                None => None,
            },
        },
    }
}

/// The settings nodes that the entries of the table `value` stand for, if
/// each of them stands for one.
fn nodes_of(value: &toml::Value, entries: &Vec<(String, &toml::Value)>) -> (nodes: Option<
    Vec<(String, Subsetting)>,
>)
    requires
        toml_contents(*value) is Table,
        distinct_names(entries@),
        assoc_view(entries@, borrowed_contents()) == toml_contents(*value)->Table_0,
    ensures
        match node_in(toml_contents(*value)) {
            Some(found) => nodes is Some && Node::Branch(table_model(nodes->0@)) == found,
            None => nodes is None,
        },
    decreases toml_contents(*value), 0nat,
{
    let ghost children = toml_contents(*value)->Table_0;
    let mut nodes: Vec<(String, Subsetting)> = Vec::new();
    let mut at: usize = 0;
    while at < entries.len()
        invariant
            at <= entries.len(),
            nodes.len() == at,
            toml_contents(*value) == Toml::Table(children),
            distinct_names(entries@),
            assoc_view(entries@, borrowed_contents()) == children,
            forall|i: int| 0 <= i < at ==> (#[trigger] nodes@[i]).0@ == entries@[i].0@,
            forall|i: int|
                0 <= i < at ==> node_in(toml_contents(*entries@[i].1)) == Some(
                    node_model((#[trigger] nodes@[i]).1),
                ),
        decreases entries.len() - at,
    {
        let ghost name = entries@[at as int].0@;
        proof {
            lemma_last_index_of_distinct(entries@, at as int);
            lemma_assoc_last(entries@, borrowed_contents(), name);
        }
        match node_of(entries[at].1) {
            None => {
                return None;
            },
            Some(node) => {
                nodes.push((entries[at].0.clone(), node));
            },
        }
        at = at + 1;
    }
    proof {
        let built = table_model(nodes@);
        assert forall|name: Seq<char>| #[trigger]
            children.dom().contains(name) == built.dom().contains(name) by {
            lemma_assoc_last(entries@, borrowed_contents(), name);
            lemma_last_index_by_names(entries@, nodes@, name);
            lemma_found_child(nodes@, name);
        }
        assert forall|name: Seq<char>| children.contains_key(name) implies node_in(
            #[trigger] children[name],
        ) == Some(built[name]) by {
            lemma_assoc_last(entries@, borrowed_contents(), name);
            lemma_last_index_by_names(entries@, nodes@, name);
            lemma_found_child(nodes@, name);
        }
        let found = node_in(toml_contents(*value))->0->Branch_0;
        assert(found =~= built);
    }
    Some(nodes)
}

/// The TOML value that stands for `node`.
pub fn value_of(node: &Subsetting) -> (value: toml::Value)
    ensures
        toml_contents(value) == toml_of(node_model(*node)),
    decreases node,
{
    match node {
        Subsetting::Single(text) => text_value(text.as_str()),
        Subsetting::Complex(entries) => table_of(entries),
    }
}

/// The entries of the TOML table that stands for a section with the
/// children `children`.
pub open spec fn toml_children(children: Table) -> Map<Seq<char>, Toml> {
    toml_of(Node::Branch(children))->Table_0
}

/// The TOML table that stands for the section with the given entries.
/// Each name goes into the table once, with its last entry: an entry that a
/// later one of the same name takes the place of is left out.
pub fn table_of(entries: &Vec<(String, Subsetting)>) -> (value: toml::Value)
    ensures
        toml_contents(value) == toml_of(Node::Branch(table_model(entries@))),
    decreases entries,
{
    let mut values: Vec<(String, toml::Value)> = Vec::new();
    let mut at: usize = 0;
    while at < entries.len()
        invariant
            at <= entries.len(),
            distinct_names(values@),
            assoc_view(values@, owned_contents()) == toml_children(
                table_model(entries@.take(at as int)),
            ),
        decreases entries.len() - at,
    {
        let name = entries[at].0.clone();
        let value = value_of(&entries[at].1);
        let ghost before = values@;
        let ghost entry = (name, value);
        put(&mut values, name, value);
        proof {
            assert(entries@.take(at + 1).drop_last() == entries@.take(at as int));
            lemma_with_entry_distinct(before, entry);
            lemma_put_view(before, values@, entry, owned_contents());
        }
        at = at + 1;
    }
    proof {
        assert(entries@.take(at as int) == entries@);
    }
    table_value(values)
}

/// A tree that was turned into TOML contents is read back as that tree.
pub proof fn law_tree_survives_toml(node: Node)
    ensures
        node_in(toml_of(node)) == Some(node),
    decreases node,
{
    match node {
        Node::Leaf(_) => {},
        Node::Branch(children) => {
            let written = toml_of(node)->Table_0;
            assert forall|name: Seq<char>| written.contains_key(name) implies node_in(
                #[trigger] written[name],
            ) == Some(children[name]) by {
                law_tree_survives_toml(children[name]);
            }
            assert(node_in(toml_of(node))->0->Branch_0 =~= children);
        },
    }
}

/// What reading `buffer` as a settings document comes to: the tree in it,
/// or `ParseError` where the text is not TOML or holds anything but strings
/// and tables.
pub open spec fn read_outcome(buffer: Seq<char>) -> Result<Table, SettingsError> {
    match toml_parsed(buffer) {
        Some(contents) => match tree_in(contents) {
            Some(tree) => Ok(tree),
            None => Err(SettingsError::ParseError),
        },
        None => Err(SettingsError::ParseError),
    }
}

/// What writing `tree` as a settings document comes to: the text, or
/// `SerializeError` where the `toml` crate refuses the tree.
pub open spec fn write_outcome(tree: Table) -> Result<Seq<char>, SettingsError> {
    match toml_written(toml_of(Node::Branch(tree))) {
        Some(text) => Ok(text),
        None => Err(SettingsError::SerializeError),
    }
}

/// `loaded` is the outcome `expected`, the tree taken by what it holds.
pub open spec fn is_outcome(
    loaded: Result<Settings, SettingsError>,
    expected: Result<Table, SettingsError>,
) -> bool {
    match expected {
        Ok(tree) => loaded is Ok && loaded->Ok_0@ == tree,
        Err(error) => loaded is Err && loaded->Err_0 == error,
    }
}

/// `written` is the outcome `expected`, the text taken by its characters.
pub open spec fn is_text_outcome(
    written: Result<String, SettingsError>,
    expected: Result<Seq<char>, SettingsError>,
) -> bool {
    match expected {
        Ok(text) => written is Ok && written->Ok_0@ == text,
        Err(error) => written is Err && written->Err_0 == error,
    }
}

/// The settings tree that the TOML value `value` stands for: the value must
/// be a table that holds nothing but strings and tables of the same kind.
pub fn tree_of(value: &toml::Value) -> (tree: Result<Settings, SettingsError>)
    ensures
        is_outcome(
            tree,
            match tree_in(toml_contents(*value)) {
                Some(found) => Ok(found),
                None => Err(SettingsError::ParseError),
            },
        ),
{
    match node_of(value) {
        Some(Subsetting::Complex(parts)) => Ok(Settings::from_parts(parts)),
        _ => Err(SettingsError::ParseError),
    }
}

impl Configuration {
    /// Reads a settings tree out of the text of a TOML document.
    pub fn from_str(&self, buffer: &str) -> (tree: Result<Settings, SettingsError>)
        ensures
            is_outcome(tree, read_outcome(buffer@)),
    {
        match decode(buffer) {
            Ok(value) => tree_of(&value),
            Err(_) => Err(SettingsError::ParseError),
        }
    }

    /// Writes a settings tree as the text of a TOML document.
    pub fn to_string(&self, tree: &Settings) -> (text: Result<String, SettingsError>)
        ensures
            is_text_outcome(text, write_outcome(tree@)),
    {
        let value = table_of(tree.parts());
        proof {
            law_tree_survives_toml(Node::Branch(tree@));
        }
        match encode(&value) {
            Ok(text) => Ok(text),
            Err(_) => Err(SettingsError::SerializeError),
        }
    }
}

} // verus!
