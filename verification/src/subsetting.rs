//! The nodes of a settings tree as they are held in memory.
//!
//! A section keeps its entries in a vector, not in a hash map.  The
//! verifier's library states what a hash map does only for keys whose
//! hashing it knows, and strings are not among them; its map for string keys
//! cannot hold values of the type that holds it.  So a section is a list of
//! named entries, read as `assoc` reads any such list.

use vstd::prelude::*;
use crate::assoc::{assoc_view, is_put, last_index, lemma_assoc_last, lemma_put_view};
use crate::model::{Node, Table};

verus! {

/// A node of a settings tree: a text value, or a section of named nodes.
///
/// The entries of a section are read in order, as if each were inserted into a
/// map: where a name occurs twice, the later entry is the one that counts.
#[derive(Debug)]
pub enum Subsetting {
    /// A text value.
    Single(String),
    /// A section: its entries, each a name and the node under it.
    Complex(Vec<(String, Subsetting)>),
}

/// What a node in memory stands for.
pub open spec fn node_model(node: Subsetting) -> Node
    decreases node,
{
    match node {
        Subsetting::Single(text) => Node::Leaf(text@),
        Subsetting::Complex(entries) => Node::Branch(table_model(entries@)),
    }
}

/// What the entries of a section stand for.
pub open spec fn table_model(entries: Seq<(String, Subsetting)>) -> Table
    decreases entries,
{
    if entries.len() == 0 {
        Map::empty()
    } else {
        table_model(entries.drop_last()).insert(entries.last().0@, node_model(entries.last().1))
    }
}

impl View for Subsetting {
    type V = Node;

    open spec fn view(&self) -> Node {
        node_model(*self)
    }
}

/// `node_model` as a value, to read a list of entries with.
pub open spec fn as_model() -> spec_fn(Subsetting) -> Node {
    |node: Subsetting| node_model(node)
}

/// The entries of a section are read as any list of named entries is.
pub proof fn lemma_table_is_assoc(entries: Seq<(String, Subsetting)>)
    ensures
        table_model(entries) == assoc_view(entries, as_model()),
    decreases entries.len(),
{
    if entries.len() > 0 {
        lemma_table_is_assoc(entries.drop_last());
    }
}

/// A section has a child under a name exactly where an entry has that
/// name, and the child is what the last such entry holds.
pub proof fn lemma_found_child(entries: Seq<(String, Subsetting)>, name: Seq<char>)
    ensures
        -1 <= last_index(entries, name) < entries.len(),
        table_model(entries).contains_key(name) <==> last_index(entries, name) >= 0,
        last_index(entries, name) >= 0 ==> table_model(entries)[name] == node_model(
            entries[last_index(entries, name)].1,
        ),
{
    lemma_table_is_assoc(entries);
    lemma_assoc_last(entries, as_model(), name);
}

/// Putting an entry into a section gives the section that child under the
/// name of the entry, and leaves every other child as it was.
pub proof fn lemma_put_child(
    before: Seq<(String, Subsetting)>,
    after: Seq<(String, Subsetting)>,
    entry: (String, Subsetting),
)
    requires
        is_put(before, after, entry),
    ensures
        table_model(after) == table_model(before).insert(entry.0@, node_model(entry.1)),
{
    lemma_table_is_assoc(before);
    lemma_table_is_assoc(after);
    lemma_put_view(before, after, entry, as_model());
}

} // verus!
