//! Helpers for the two-level store of `setting`.

use vstd::prelude::*;
use vstd::string::*;
use crate::assoc::{
    find, last_index, lemma_assoc_last, lemma_last_index, lemma_put_view, put,
};
use crate::path::{join, lemma_join_segments, segments_of, split};
use crate::setting::{
    as_section, as_text, overlaid, section_of, section_view, setting_view, Section, Setting,
    SettingView,
};

verus! {

/// Splits `a.b` into `(a, b)`.  A key with no dot, or with more than one,
/// has no such halves.
pub fn split_key(key_path: &str) -> (halves: Option<(&str, &str)>)
    ensures
        match halves {
            Some((base, key)) => segments_of(key_path@) == seq![base@, key@],
            None => segments_of(key_path@).len() != 2,
        },
{
    let segments = split(key_path);
    if segments.len() != 2 {
        return None;
    }
    let total: usize = key_path.unicode_len();
    let cut: usize = segments[0].as_str().unicode_len();
    proof {
        let parts = segments_of(key_path@);
        lemma_join_segments(key_path@);
        assert(join(parts.drop_last()) == parts[0]);
        assert(key_path@.subrange(0, cut as int) == parts[0]);
        assert(key_path@.subrange(cut + 1, total as int) == parts[1]);
    }
    Some((key_path.substring_char(0, cut), key_path.substring_char(cut + 1, total)))
}

/// `store` with the sections of `added` laid over it, as far as the
/// entries before position `upto` decide: an entry counts where it is the
/// last of its name.
pub open spec fn overlaid_upto(
    store: SettingView,
    added: Seq<(String, Section)>,
    upto: int,
) -> SettingView {
    Map::new(
        |name: Seq<char>| store.contains_key(name) || 0 <= last_index(added, name) < upto,
        |name: Seq<char>|
            if 0 <= last_index(added, name) < upto {
                section_of(store, name).union_prefer_right(
                    section_view(added[last_index(added, name)].1@),
                )
            } else {
                store[name]
            },
    )
}

/// Brings the values of `source` into `target`; where both have a name,
/// the value of `source` wins.
pub fn lay_over(target: &mut Section, source: &Section)
    ensures
        section_view(final(target)@) == section_view(old(target)@).union_prefer_right(
            section_view(source@),
        ),
{
    let ghost start = section_view(target@);
    let mut at: usize = 0;
    while at < source.len()
        invariant
            at <= source.len(),
            section_view(target@) == start.union_prefer_right(section_view(source@.take(at as int))),
        decreases source.len() - at,
    {
        let ghost before = target@;
        let name = source[at].0.clone();
        let text = source[at].1.clone();
        put(target, name, text);
        proof {
            let done = source@.take(at as int);
            let next = source@.take(at + 1);
            assert(next.drop_last() == done);
            lemma_put_view(before, target@, (name, text), as_text());
        }
        at = at + 1;
    }
    proof {
        assert(source@.take(at as int) == source@);
    }
}

/// Lays the sections of `new` over `store`: a section of `new` brings
/// its values into the section of the same name, made where it is
/// missing, and its values win over those that were there.  Where `new` is
/// an error, nothing is done.
pub fn add_to(store: &mut Setting, new: Result<Setting, &'static str>)
    ensures
        match new {
            Ok(added) => setting_view(final(store)@) == overlaid(
                setting_view(old(store)@),
                setting_view(added@),
            ),
            Err(_) => final(store)@ == old(store)@,
        },
{
    if let Ok(added) = new {
        let ghost start = setting_view(store@);
        let mut at: usize = 0;
        while at < added.len()
            invariant
                at <= added.len(),
                setting_view(store@) == overlaid_upto(start, added@, at as int),
            decreases added.len() - at,
        {
            let ghost before = store@;
            let ghost name = added@[at as int].0@;
            let counts = match find(&added, &added[at].0) {
                Some(last) => last == at,
                None => false,
            };
            proof {
                lemma_last_index(added@, name, at as int);
                assert forall|other: Seq<char>| other != name implies last_index(added@, other)
                    != at by {
                    lemma_last_index(added@, other, at as int);
                }
            }
            if counts {
                let mut section: Section = Vec::new();
                proof {
                    lemma_assoc_last(before, as_section(), name);
                }
                match find(store, &added[at].0) {
                    Some(there) => {
                        let (_, found) = store.remove(there);
                        section = found;
                    },
                    None => {},
                }
                lay_over(&mut section, &added[at].1);
                let label = added[at].0.clone();
                let ghost entry = (label, section);
                store.push((label, section));
                proof {
                    lemma_put_view(before, store@, entry, as_section());
                }
            }
            at = at + 1;
        }
        proof {
            let whole = setting_view(added@);
            let reached = overlaid_upto(start, added@, added.len() as int);
            let wanted = overlaid(start, whole);
            assert forall|name: Seq<char>| #[trigger]
                reached.dom().contains(name) == wanted.dom().contains(name) by {
                lemma_assoc_last(added@, as_section(), name);
            }
            assert forall|name: Seq<char>| #[trigger]
                reached.dom().contains(name) implies reached[name] == wanted[name] by {
                lemma_assoc_last(added@, as_section(), name);
            }
        }
    }
}

} // verus!
