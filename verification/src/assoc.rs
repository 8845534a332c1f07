//! Named entries kept in a vector, read as a map.
//!
//! A list of `(name, value)` pairs stands for the map that inserting the
//! pairs one after another would build: where a name occurs twice, the later
//! entry is the one that counts.

use vstd::prelude::*;

verus! {

/// The map that the entries stand for, each value seen through `value_of`.
pub open spec fn assoc_view<V, M>(entries: Seq<(String, V)>, value_of: spec_fn(V) -> M) -> Map<
    Seq<char>,
    M,
>
    decreases entries.len(),
{
    if entries.len() == 0 {
        Map::empty()
    } else {
        assoc_view(entries.drop_last(), value_of).insert(
            entries.last().0@,
            value_of(entries.last().1),
        )
    }
}

/// The position of the last entry named `name`, or -1 where no entry has
/// that name.
pub open spec fn last_index<V>(entries: Seq<(String, V)>, name: Seq<char>) -> int
    decreases entries.len(),
{
    if entries.len() == 0 {
        -1
    } else if entries.last().0@ == name {
        entries.len() - 1
    } else {
        last_index(entries.drop_last(), name)
    }
}

/// A position as a number: -1 for none.
pub open spec fn position(found: Option<usize>) -> int {
    match found {
        Some(at) => at as int,
        None => -1,
    }
}

/// `at` is the position of the last entry named `name`, or -1 where no
/// entry has that name.
pub open spec fn is_last_named<V>(entries: Seq<(String, V)>, name: Seq<char>, at: int) -> bool {
    if at == -1 {
        forall|j: int| 0 <= j < entries.len() ==> (#[trigger] entries[j]).0@ != name
    } else {
        &&& 0 <= at < entries.len()
        &&& entries[at].0@ == name
        &&& forall|j: int| at < j < entries.len() ==> (#[trigger] entries[j]).0@ != name
    }
}

/// `last_index` is the one position that `is_last_named` accepts.
pub proof fn lemma_last_index<V>(entries: Seq<(String, V)>, name: Seq<char>, at: int)
    ensures
        is_last_named(entries, name, at) <==> at == last_index(entries, name),
    decreases entries.len(),
{
    if entries.len() > 0 && entries.last().0@ != name {
        let front = entries.drop_last();
        lemma_last_index(front, name, at);
        if is_last_named(front, name, at) {
            assert forall|j: int| 0 <= j < front.len() implies front[j] == entries[j] by {}
            assert(is_last_named(entries, name, at));
        }
    }
}

/// The map of a list has a name exactly where some entry has it.
pub proof fn lemma_assoc_domain<V, M>(
    entries: Seq<(String, V)>,
    value_of: spec_fn(V) -> M,
    name: Seq<char>,
)
    ensures
        assoc_view(entries, value_of).dom().finite(),
        assoc_view(entries, value_of).contains_key(name) <==> exists|j: int|
            0 <= j < entries.len() && (#[trigger] entries[j]).0@ == name,
    decreases entries.len(),
{
    if entries.len() > 0 {
        let front = entries.drop_last();
        lemma_assoc_domain(front, value_of, name);
        if assoc_view(front, value_of).contains_key(name) {
            let j = choose|j: int| 0 <= j < front.len() && (#[trigger] front[j]).0@ == name;
            assert(entries[j].0@ == name);
        }
        if exists|j: int| 0 <= j < entries.len() && (#[trigger] entries[j]).0@ == name {
            let j = choose|j: int| 0 <= j < entries.len() && (#[trigger] entries[j]).0@ == name;
            if j < front.len() {
                assert(front[j].0@ == name);
            }
        }
    }
}

/// The map of a list gives a name the value of the last entry that has it.
pub proof fn lemma_assoc_last<V, M>(
    entries: Seq<(String, V)>,
    value_of: spec_fn(V) -> M,
    name: Seq<char>,
)
    ensures
        -1 <= last_index(entries, name) < entries.len(),
        assoc_view(entries, value_of).contains_key(name) <==> last_index(entries, name) >= 0,
        last_index(entries, name) >= 0 ==> assoc_view(entries, value_of)[name] == value_of(
            entries[last_index(entries, name)].1,
        ),
    decreases entries.len(),
{
    if entries.len() > 0 {
        lemma_assoc_last(entries.drop_last(), value_of, name);
    }
}

/// Taking out an entry and appending one of the same name gives that name
/// the new value and leaves every other name as it was.
pub proof fn lemma_assoc_replace<V, M>(
    entries: Seq<(String, V)>,
    value_of: spec_fn(V) -> M,
    at: int,
    entry: (String, V),
)
    requires
        0 <= at < entries.len(),
        entries[at].0@ == entry.0@,
    ensures
        assoc_view(entries.remove(at).push(entry), value_of) == assoc_view(
            entries,
            value_of,
        ).insert(entry.0@, value_of(entry.1)),
{
    let shorter = entries.remove(at);
    assert(shorter.push(entry).drop_last() == shorter);
    lemma_assoc_remove(entries, value_of, at, value_of(entry.1));
}

/// The map of a list without one of its entries differs from the map of
/// the whole list at most in that entry's name.
pub proof fn lemma_assoc_remove<V, M>(
    entries: Seq<(String, V)>,
    value_of: spec_fn(V) -> M,
    at: int,
    value: M,
)
    requires
        0 <= at < entries.len(),
    ensures
        assoc_view(entries.remove(at), value_of).insert(entries[at].0@, value) == assoc_view(
            entries,
            value_of,
        ).insert(entries[at].0@, value),
    decreases entries.len(),
{
    let front = entries.drop_last();
    let name = entries[at].0@;
    let whole = assoc_view(entries, value_of);
    let without = assoc_view(entries.remove(at), value_of);
    if at == entries.len() - 1 {
        assert(entries.remove(at) == front);
        assert(whole == without.insert(name, value_of(entries[at].1)));
    } else {
        let shorter = entries.remove(at);
        assert(shorter.drop_last() == front.remove(at));
        lemma_assoc_remove(front, value_of, at, value);
        let left = assoc_view(front.remove(at), value_of);
        let right = assoc_view(front, value_of);
        let last_name = entries.last().0@;
        let last_value = value_of(entries.last().1);
        assert(without == left.insert(last_name, last_value));
        if last_name == name {
            assert(without.insert(name, value) =~= left.insert(name, value));
        } else {
            assert(without.insert(name, value) =~= left.insert(name, value).insert(
                last_name,
                last_value,
            ));
        }
    }
}

/// The position of the last entry of a name depends on the names alone.
pub proof fn lemma_last_index_by_names<V, W>(
    left: Seq<(String, V)>,
    right: Seq<(String, W)>,
    name: Seq<char>,
)
    requires
        left.len() == right.len(),
        forall|i: int| 0 <= i < left.len() ==> (#[trigger] left[i]).0@ == (#[trigger] right[i]).0@,
    ensures
        last_index(left, name) == last_index(right, name),
    decreases left.len(),
{
    if left.len() > 0 {
        let left_front = left.drop_last();
        let right_front = right.drop_last();
        assert forall|i: int| 0 <= i < left_front.len() implies (#[trigger] left_front[i]).0@ == (
        #[trigger] right_front[i]).0@ by {
            assert(right_front[i] == right[i]);
            assert(left[i].0@ == right[i].0@);
        }
        lemma_last_index_by_names(left_front, right_front, name);
    }
}

/// No name occurs twice among the entries.
pub open spec fn distinct_names<V>(entries: Seq<(String, V)>) -> bool {
    forall|i: int, j: int|
        0 <= i < j < entries.len() ==> (#[trigger] entries[i]).0@ != (#[trigger] entries[j]).0@
}

/// Where no name occurs twice, every entry is the last of its name.
pub proof fn lemma_last_index_of_distinct<V>(entries: Seq<(String, V)>, at: int)
    requires
        0 <= at < entries.len(),
        distinct_names(entries),
    ensures
        last_index(entries, entries[at].0@) == at,
{
    lemma_last_index(entries, entries[at].0@, at);
}

/// The entries with `entry` put in: the last entry of its name, if there is
/// one, is taken out, and `entry` is put at the end.
pub open spec fn with_entry<V>(entries: Seq<(String, V)>, entry: (String, V)) -> Seq<(String, V)> {
    let at = last_index(entries, entry.0@);
    if at >= 0 {
        entries.remove(at).push(entry)
    } else {
        entries.push(entry)
    }
}

/// `after` is `before` with `entry` put last and, where `before` had an
/// entry of that name, one such entry taken out.
pub open spec fn is_put<V>(
    before: Seq<(String, V)>,
    after: Seq<(String, V)>,
    entry: (String, V),
) -> bool {
    ||| after == before.push(entry)
    ||| exists|at: int|
        0 <= at < before.len() && (#[trigger] before[at]).0@ == entry.0@ && after
            == before.remove(at).push(entry)
}

/// Putting an entry sets its name to its value and leaves every other
/// name as it was.
pub proof fn lemma_put_view<V, M>(
    before: Seq<(String, V)>,
    after: Seq<(String, V)>,
    entry: (String, V),
    value_of: spec_fn(V) -> M,
)
    requires
        is_put(before, after, entry),
    ensures
        assoc_view(after, value_of) == assoc_view(before, value_of).insert(
            entry.0@,
            value_of(entry.1),
        ),
{
    if after == before.push(entry) {
        assert(after.drop_last() == before);
    } else {
        let at = choose|at: int|
            0 <= at < before.len() && (#[trigger] before[at]).0@ == entry.0@ && after
                == before.remove(at).push(entry);
        lemma_assoc_replace(before, value_of, at, entry);
    }
}

/// Putting an entry in with `with_entry` is a way of putting it.
pub proof fn lemma_with_entry_is_put<V>(entries: Seq<(String, V)>, entry: (String, V))
    ensures
        is_put(entries, with_entry(entries, entry), entry),
{
    lemma_last_index(entries, entry.0@, last_index(entries, entry.0@));
}

/// Putting an entry into a list without repeated names leaves it without
/// repeated names.
pub proof fn lemma_with_entry_distinct<V>(entries: Seq<(String, V)>, entry: (String, V))
    requires
        distinct_names(entries),
    ensures
        distinct_names(with_entry(entries, entry)),
{
    let name = entry.0@;
    let at = last_index(entries, name);
    lemma_last_index(entries, name, at);
    let kept = if at >= 0 {
        entries.remove(at)
    } else {
        entries
    };
    // Entry `i` of what is kept is entry `i` of the list, or the one after
    // it where the entry that was taken out stood before it.
    let from = |i: int|
        if at >= 0 && i >= at {
            i + 1
        } else {
            i
        };
    assert forall|i: int| 0 <= i < kept.len() implies #[trigger] kept[i] == entries[from(i)] by {}
    assert forall|i: int| 0 <= i < kept.len() implies (#[trigger] kept[i]).0@ != name by {
        if at >= 0 && i < at {
            assert(entries[i].0@ != entries[at].0@);
        }
    }
    assert(distinct_names(kept));
}

/// Sets `name` to `value`: the last entry of that name, if there is one,
/// gives way to a new entry at the end.
pub fn put<V>(entries: &mut Vec<(String, V)>, name: String, value: V)
    ensures
        final(entries)@ == with_entry(old(entries)@, (name, value)),
        is_put(old(entries)@, final(entries)@, (name, value)),
{
    proof {
        lemma_with_entry_is_put(entries@, (name, value));
    }
    match find(entries, &name) {
        Some(at) => {
            let _ = entries.remove(at);
        },
        None => {},
    }
    entries.push((name, value));
}

/// The position of the last entry named `name`.
pub fn find<V>(entries: &Vec<(String, V)>, name: &String) -> (found: Option<usize>)
    ensures
        position(found) == last_index(entries@, name@),
        is_last_named(entries@, name@, position(found)),
{
    let mut at: usize = entries.len();
    while at > 0
        invariant
            at <= entries.len(),
            forall|j: int| at <= j < entries.len() ==> (#[trigger] entries@[j]).0@ != name@,
        decreases at,
    {
        at = at - 1;
        if entries[at].0 == *name {
            proof {
                lemma_last_index(entries@, name@, at as int);
            }
            return Some(at);
        }
    }
    proof {
        lemma_last_index(entries@, name@, -1);
    }
    None
}

/// Whether one of `names` is `name`.
pub fn holds(names: &Vec<String>, name: &String) -> (found: bool)
    ensures
        found <==> exists|j: int| 0 <= j < names.len() && (#[trigger] names@[j])@ == name@,
{
    let mut at: usize = 0;
    while at < names.len()
        invariant
            at <= names.len(),
            forall|j: int| 0 <= j < at ==> (#[trigger] names@[j])@ != name@,
        decreases names.len() - at,
    {
        if names[at] == *name {
            return true;
        }
        at = at + 1;
    }
    false
}

/// The names are pairwise different.
pub open spec fn distinct(names: Seq<String>) -> bool {
    forall|i: int, j: int|
        0 <= i < j < names.len() ==> (#[trigger] names[i])@ != (#[trigger] names[j])@
}

/// `names` lists every name that `entries` holds, and nothing else.
pub open spec fn names_cover<V>(names: Seq<String>, entries: Seq<(String, V)>) -> bool {
    &&& forall|i: int|
        0 <= i < names.len() ==> exists|j: int|
            0 <= j < entries.len() && (#[trigger] entries[j]).0@ == (#[trigger] names[i])@
    &&& forall|j: int|
        0 <= j < entries.len() ==> exists|i: int|
            0 <= i < names.len() && (#[trigger] names[i])@ == (#[trigger] entries[j]).0@
}

/// The names of the entries, each once, in the order of first occurrence.
pub fn names_of<V>(entries: &Vec<(String, V)>) -> (names: Vec<String>)
    ensures
        distinct(names@),
        names_cover(names@, entries@),
{
    let mut names: Vec<String> = Vec::new();
    let mut at: usize = 0;
    while at < entries.len()
        invariant
            at <= entries.len(),
            distinct(names@),
            names_cover(names@, entries@.take(at as int)),
        decreases entries.len() - at,
    {
        let ghost seen = names@;
        let ghost done = entries@.take(at as int);
        let ghost next = entries@.take(at + 1);
        proof {
            assert(next.drop_last() == done);
            assert(next.last() == entries@[at as int]);
            assert forall|j: int| 0 <= j < done.len() implies done[j] == next[j] by {}
        }
        if !holds(&names, &entries[at].0) {
            names.push(entries[at].0.clone());
            proof {
                let added = names@.last();
                assert(added@ == entries@[at as int].0@);
                assert forall|i: int, j: int| 0 <= i < j < names@.len() implies (
                #[trigger] names@[i])@ != (#[trigger] names@[j])@ by {
                    assert(names@[i] == seen[i]);
                    if j < seen.len() {
                        assert(names@[j] == seen[j]);
                    }
                }
                assert forall|i: int| 0 <= i < names@.len() implies exists|j: int|
                    0 <= j < next.len() && (#[trigger] next[j]).0@ == (#[trigger] names@[i])@ by {
                    if i < seen.len() {
                        assert(names@[i] == seen[i]);
                        let j = choose|j: int|
                            0 <= j < done.len() && (#[trigger] done[j]).0@ == seen[i]@;
                        assert(next[j].0@ == names@[i]@);
                    } else {
                        assert(next[at as int].0@ == names@[i]@);
                    }
                }
                assert forall|j: int| 0 <= j < next.len() implies exists|i: int|
                    0 <= i < names@.len() && (#[trigger] names@[i])@ == (#[trigger] next[j]).0@ by {
                    if j < done.len() {
                        assert(done[j] == next[j]);
                        let i = choose|i: int|
                            0 <= i < seen.len() && (#[trigger] seen[i])@ == done[j].0@;
                        assert(names@[i] == seen[i]);
                    } else {
                        assert(names@[names@.len() - 1]@ == next[j].0@);
                    }
                }
            }
        } else {
            proof {
                assert forall|i: int| 0 <= i < names@.len() implies exists|j: int|
                    0 <= j < next.len() && (#[trigger] next[j]).0@ == (#[trigger] names@[i])@ by {
                    let j = choose|j: int|
                        0 <= j < done.len() && (#[trigger] done[j]).0@ == names@[i]@;
                    assert(next[j].0@ == names@[i]@);
                }
                assert forall|j: int| 0 <= j < next.len() implies exists|i: int|
                    0 <= i < names@.len() && (#[trigger] names@[i])@ == (#[trigger] next[j]).0@ by {
                    if j < done.len() {
                        assert(done[j] == next[j]);
                        let i = choose|i: int|
                            0 <= i < names@.len() && (#[trigger] names@[i])@ == done[j].0@;
                        assert(names@[i]@ == next[j].0@);
                    } else {
                        let i = choose|i: int|
                            0 <= i < names@.len() && (#[trigger] names@[i])@
                                == entries@[at as int].0@;
                        assert(names@[i]@ == next[j].0@);
                    }
                }
            }
        }
        at = at + 1;
    }
    proof {
        assert(entries@.take(at as int) == entries@);
    }
    names
}

} // verus!
