//! A two-level store: named sections, each with named text values, read and
//! written by keys of the form `section.name`.

use vstd::prelude::*;
use crate::assoc::{assoc_view, find, lemma_assoc_last, lemma_put_view, put};
use crate::helper::split_key;
use crate::path::segments_of;
use crate::text::text_of;

verus! {

/// The values of one section, by name.
pub type Section = Vec<(String, String)>;

/// The sections of a store, by name.  In both lists a later entry takes
/// the place of an earlier one of the same name.
pub type Setting = Vec<(String, Section)>;

/// What a section holds.
pub type SectionView = Map<Seq<char>, Seq<char>>;

/// What a store holds.
pub type SettingView = Map<Seq<char>, SectionView>;

/// The text of a string, as a value to read a list of entries with.
pub open spec fn as_text() -> spec_fn(String) -> Seq<char> {
    |text: String| text@
}

/// What the entries of a section stand for.
pub open spec fn section_view(entries: Seq<(String, String)>) -> SectionView {
    assoc_view(entries, as_text())
}

/// `section_view` of a vector, as a value to read a list of sections with.
pub open spec fn as_section() -> spec_fn(Section) -> SectionView {
    |section: Section| section_view(section@)
}

/// What the sections of a store stand for.
pub open spec fn setting_view(sections: Seq<(String, Section)>) -> SettingView {
    assoc_view(sections, as_section())
}

/// The section under `name`, empty where the store has none.
pub open spec fn section_of(store: SettingView, name: Seq<char>) -> SectionView {
    if store.contains_key(name) {
        store[name]
    } else {
        Map::empty()
    }
}

/// The value that the key `key_path` leads to: the key must have exactly two
/// segments, the name of a section and a name in it.
pub open spec fn stored(store: SettingView, key_path: Seq<char>) -> Option<Seq<char>> {
    let segments = segments_of(key_path);
    if segments.len() == 2 && store.contains_key(segments[0]) && store[segments[0]].contains_key(
        segments[1],
    ) {
        Some(store[segments[0]][segments[1]])
    } else {
        None
    }
}

/// The store after `value` was written under a key of two segments.
pub open spec fn with_value(store: SettingView, key_path: Seq<char>, value: Seq<char>)
    -> SettingView {
    let segments = segments_of(key_path);
    store.insert(segments[0], section_of(store, segments[0]).insert(segments[1], value))
}

/// `store` after the sections of `added` were laid over it: a
/// section of `added` brings its values into the section of the same name,
/// where its values win; every other section and value stays.
pub open spec fn overlaid(store: SettingView, added: SettingView) -> SettingView {
    Map::new(
        |name: Seq<char>| store.contains_key(name) || added.contains_key(name),
        |name: Seq<char>|
            if added.contains_key(name) {
                section_of(store, name).union_prefer_right(added[name])
            } else {
                store[name]
            },
    )
}

/// A value written under a key of two segments is the value read under it.
pub proof fn law_store_then_read(store: SettingView, key_path: Seq<char>, value: Seq<char>)
    requires
        segments_of(key_path).len() == 2,
    ensures
        stored(with_value(store, key_path, value), key_path) == Some(value),
{
}

/// After one store was laid over another, a key reads as in the store that
/// was laid over, and as in the other store only where that one has nothing
/// under the key.
pub proof fn law_overlay_reads(store: SettingView, added: SettingView, key_path: Seq<char>)
    ensures
        stored(overlaid(store, added), key_path) == match stored(added, key_path) {
            Some(value) => Some(value),
            None => stored(store, key_path),
        },
{
}

/// Sets the value under `key_path`, making the section where it is
/// missing.  Says whether the key was of the form `section.name`; any other
/// key leaves the store as it is.
pub fn set_value(settings: &mut Setting, key_path: &str, value: &str) -> (done: bool)
    ensures
        done == (segments_of(key_path@).len() == 2),
        done ==> setting_view(final(settings)@) == with_value(
            setting_view(old(settings)@),
            key_path@,
            value@,
        ),
        !done ==> final(settings)@ == old(settings)@,
{
    match split_key(key_path) {
        None => false,
        Some((base, key)) => {
            let base = base.to_owned();
            let ghost before = settings@;
            let mut section: Section = Vec::new();
            proof {
                lemma_assoc_last(before, as_section(), base@);
            }
            match find(settings, &base) {
                Some(at) => {
                    let (_, found) = settings.remove(at);
                    section = found;
                },
                None => {},
            }
            let ghost section_before = section@;
            let name = key.to_owned();
            let text = value.to_owned();
            put(&mut section, name, text);
            let ghost entry = (base, section);
            settings.push((base, section));
            proof {
                lemma_put_view(section_before, section@, (name, text), as_text());
                lemma_put_view(before, settings@, entry, as_section());
            }
            true
        },
    }
}

/// The value under `key_path`, where the key is of the form `section.name`
/// and the store has that section and that name in it.
pub fn get_value(settings: &Setting, key_path: &str) -> (value: Option<String>)
    ensures
        text_of(value) == stored(setting_view(settings@), key_path@),
{
    match split_key(key_path) {
        None => None,
        Some((base, key)) => {
            let base = base.to_owned();
            let key = key.to_owned();
            proof {
                lemma_assoc_last(settings@, as_section(), base@);
            }
            match find(settings, &base) {
                None => None,
                Some(at) => {
                    let section = &settings[at].1;
                    proof {
                        lemma_assoc_last(section@, as_text(), key@);
                    }
                    match find(section, &key) {
                        None => None,
                        Some(inner) => Some(section[inner].1.clone()),
                    }
                },
            }
        },
    }
}

} // verus!
