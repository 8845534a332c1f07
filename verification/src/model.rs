//! What a settings tree means: nested maps from names to values, and how a
//! path reads and writes them.

use vstd::prelude::*;

verus! {

/// A node of a settings tree.
pub enum Node {
    /// A text value.
    Leaf(Seq<char>),
    /// A section: named children, one per name.
    Branch(Map<Seq<char>, Node>),
}

/// The children of a section.
pub type Table = Map<Seq<char>, Node>;

/// The children under `name` where it is a section of `table`; nothing
/// where it is a value or missing.
pub open spec fn section(table: Table, name: Seq<char>) -> Table {
    if table.contains_key(name) {
        match table[name] {
            Node::Branch(children) => children,
            Node::Leaf(_) => Map::empty(),
        }
    } else {
        Map::empty()
    }
}

/// The node that `path` leads to from `table`, walking one segment per
/// level.  Nothing is found where a segment is missing, where the walk
/// would have to go through a value, or where the path is empty.
pub open spec fn lookup(table: Table, path: Seq<Seq<char>>) -> Option<Node>
    decreases path.len(),
{
    if path.len() == 0 || !table.contains_key(path[0]) {
        None
    } else if path.len() == 1 {
        Some(table[path[0]])
    } else {
        match table[path[0]] {
            Node::Branch(children) => lookup(children, path.skip(1)),
            Node::Leaf(_) => None,
        }
    }
}

/// `table` after `value` was written at `path`.  Every segment but the last
/// names a section: one that exists is kept with its other children, and
/// anything else in that place (a value, or nothing) gives way to a new
/// section.  The last segment names the value, replacing what was there.
pub open spec fn assign(table: Table, path: Seq<Seq<char>>, value: Seq<char>) -> Table
    decreases path.len(),
{
    if path.len() == 0 {
        table
    } else if path.len() == 1 {
        table.insert(path[0], Node::Leaf(value))
    } else {
        table.insert(
            path[0],
            Node::Branch(assign(section(table, path[0]), path.skip(1), value)),
        )
    }
}

/// `table` after each of `writes` (a path and a value) was applied in turn.
pub open spec fn assign_all(table: Table, writes: Seq<(Seq<Seq<char>>, Seq<char>)>) -> Table
    decreases writes.len(),
{
    if writes.len() == 0 {
        table
    } else {
        assign(assign_all(table, writes.drop_last()), writes.last().0, writes.last().1)
    }
}

/// `shorter` is the beginning of `longer`, or all of it.
pub open spec fn is_prefix(shorter: Seq<Seq<char>>, longer: Seq<Seq<char>>) -> bool {
    shorter.len() <= longer.len() && longer.take(shorter.len() as int) == shorter
}

/// Round trip: a value written at a path is the value read at that path.
pub proof fn law_read_own_write(table: Table, path: Seq<Seq<char>>, value: Seq<char>)
    requires
        path.len() >= 1,
    ensures
        lookup(assign(table, path, value), path) == Some(Node::Leaf(value)),
    decreases path.len(),
{
    if path.len() > 1 {
        law_read_own_write(section(table, path[0]), path.skip(1), value);
    }
}

/// Nothing can be read from an empty tree.
pub proof fn law_empty_reads_nothing(path: Seq<Seq<char>>)
    ensures
        lookup(Map::empty(), path) is None,
{
}

/// Independence: a write leaves alone every path that parts ways with the
/// written one, that is, neither path is the beginning of the other.
pub proof fn law_write_keeps_others(
    table: Table,
    written: Seq<Seq<char>>,
    value: Seq<char>,
    other: Seq<Seq<char>>,
)
    requires
        !is_prefix(written, other),
        !is_prefix(other, written),
    ensures
        lookup(assign(table, written, value), other) == lookup(table, other),
    decreases written.len(),
{
    if written.len() > 0 && other.len() > 0 && written[0] == other[0] {
        if written.len() == 1 {
            assert(other.take(1) == written);
        } else if other.len() == 1 {
            assert(written.take(1) == other);
        } else {
            lemma_prefix_step(written, other);
            lemma_prefix_step(other, written);
            law_write_keeps_others(
                section(table, written[0]),
                written.skip(1),
                value,
                other.skip(1),
            );
        }
    }
}

/// Two paths with the same first segment are prefix and extension exactly
/// when their remainders are.
proof fn lemma_prefix_step(shorter: Seq<Seq<char>>, longer: Seq<Seq<char>>)
    requires
        shorter.len() >= 1,
        longer.len() >= 1,
        shorter[0] == longer[0],
    ensures
        is_prefix(shorter, longer) <==> is_prefix(shorter.skip(1), longer.skip(1)),
{
    if shorter.len() <= longer.len() {
        let head = longer.take(shorter.len() as int);
        let tail = longer.skip(1).take(shorter.len() - 1);
        if head == shorter {
            assert(tail =~= shorter.skip(1));
        }
        if tail == shorter.skip(1) {
            assert forall|i: int| 0 <= i < shorter.len() implies head[i] == shorter[i] by {
                if i > 0 {
                    assert(tail[i - 1] == shorter.skip(1)[i - 1]);
                }
            }
            assert(head =~= shorter);
        }
    }
}

/// Coercion: after a write, every proper beginning of the written path is a
/// section, whatever stood there before.
pub proof fn law_write_makes_sections(
    table: Table,
    written: Seq<Seq<char>>,
    value: Seq<char>,
    above: Seq<Seq<char>>,
)
    requires
        1 <= above.len() < written.len(),
        is_prefix(above, written),
    ensures
        lookup(assign(table, written, value), above) is Some,
        lookup(assign(table, written, value), above)->0 is Branch,
    decreases written.len(),
{
    if above.len() > 1 {
        lemma_prefix_step(above, written);
        law_write_makes_sections(section(table, written[0]), written.skip(1), value, above.skip(1));
    }
}

/// After a write, nothing can be read below the written value.
pub proof fn law_write_ends_path(
    table: Table,
    written: Seq<Seq<char>>,
    value: Seq<char>,
    below: Seq<Seq<char>>,
)
    requires
        1 <= written.len() < below.len(),
        is_prefix(written, below),
    ensures
        lookup(assign(table, written, value), below) is None,
    decreases written.len(),
{
    if written.len() > 1 {
        lemma_prefix_step(written, below);
        law_write_ends_path(section(table, written[0]), written.skip(1), value, below.skip(1));
    }
}

/// A path that no write has touched stays unreadable: where nothing is
/// found at `path` and `path` is not the beginning of any written path, nothing
/// is found there after the writes.
pub proof fn law_untouched_path_stays_unset(
    table: Table,
    writes: Seq<(Seq<Seq<char>>, Seq<char>)>,
    path: Seq<Seq<char>>,
)
    requires
        lookup(table, path) is None,
        forall|i: int|
            0 <= i < writes.len() ==> (#[trigger] writes[i]).0.len() >= 1 && !is_prefix(
                path,
                writes[i].0,
            ),
    ensures
        lookup(assign_all(table, writes), path) is None,
    decreases writes.len(),
{
    if writes.len() > 0 {
        let earlier = writes.drop_last();
        let (written, value) = writes.last();
        assert forall|i: int| 0 <= i < earlier.len() implies (#[trigger] earlier[i]).0.len() >= 1
            && !is_prefix(path, earlier[i].0) by {}
        law_untouched_path_stays_unset(table, earlier, path);
        let before = assign_all(table, earlier);
        if is_prefix(written, path) {
            if written.len() == path.len() {
                assert(path.take(path.len() as int) == path);
            } else {
                law_write_ends_path(before, written, value, path);
            }
        } else {
            law_write_keeps_others(before, written, value, path);
        }
    }
}

} // verus!
