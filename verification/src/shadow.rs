//! Two settings trees read as one: the user's, and over it the project's.

use vstd::prelude::*;
use crate::error::SettingsError;
use crate::location::Location;
use crate::model::{assign, Node, Table};
use crate::path::{segments_of, texts};
use crate::document::write_outcome;
use crate::settings::{
    law_set_then_get, loaded_or_empty, resolve, shown, shown_text, writable, Found, Settings,
};
use crate::text::text_of;

verus! {

/// The node that `key` leads to when it is read at `location`.  `Best`
/// takes what the local tree has under the key, a value or a section, and
/// turns to the global tree only where the local one has nothing there: the
/// two are never blended below the key.
pub open spec fn resolve_at(global: Table, local: Table, key: Seq<char>, location: Location)
    -> Option<Node> {
    match location {
        Location::Global => resolve(global, key),
        Location::Local => resolve(local, key),
        Location::Best => match resolve(local, key) {
            Some(node) => Some(node),
            None => resolve(global, key),
        },
    }
}

/// A value written to the local tree is what the key reads as at the best
/// location, whatever the global tree holds.
pub proof fn law_local_write_is_read(
    global: Table,
    local: Table,
    key: Seq<char>,
    value: Seq<char>,
)
    requires
        writable(key),
    ensures
        resolve_at(global, assign(local, segments_of(key), value), key, Location::Best) == Some(
            Node::Leaf(value),
        ),
        resolve_at(global, assign(local, segments_of(key), value), key, Location::Global)
            == resolve(global, key),
{
    law_set_then_get(local, key, value);
}

/// A value written to the global tree is what the key reads as at the best
/// location exactly where the local tree has nothing under the key; where
/// it has something, that is still what is read.
pub proof fn law_global_write_is_shadowed(
    global: Table,
    local: Table,
    key: Seq<char>,
    value: Seq<char>,
)
    requires
        writable(key),
    ensures
        resolve_at(assign(global, segments_of(key), value), local, key, Location::Best) == (
        if resolve(local, key) is Some {
            resolve(local, key)
        } else {
            Some(Node::Leaf(value))
        }),
        resolve_at(assign(global, segments_of(key), value), local, key, Location::Global)
            == Some(Node::Leaf(value)),
{
    law_set_then_get(global, key, value);
}

/// The user's settings and the project's, each a tree of its own.
#[derive(Debug)]
pub struct ShadowSettings {
    global: Settings,
    local: Settings,
    loaded: bool,
    global_changed: bool,
    local_changed: bool,
}

impl ShadowSettings {
    /// What the global tree holds.
    pub closed spec fn global_view(&self) -> Table {
        self.global@
    }

    /// What the local tree holds.
    pub closed spec fn local_view(&self) -> Table {
        self.local@
    }

    /// Whether the trees were loaded from their storage.
    pub closed spec fn loaded(&self) -> bool {
        self.loaded
    }

    /// Whether the global tree was written to since it was loaded.
    pub closed spec fn global_changed(&self) -> bool {
        self.global_changed
    }

    /// Whether the local tree was written to since it was loaded.
    pub closed spec fn local_changed(&self) -> bool {
        self.local_changed
    }

    /// Whether the tree at `location` was written to since it was loaded.
    /// `Best` names no tree, and is never changed.
    pub open spec fn changed(&self, location: Location) -> bool {
        match location {
            Location::Global => self.global_changed(),
            Location::Local => self.local_changed(),
            Location::Best => false,
        }
    }

    /// What saving the tree at `location` comes to: the text of the tree
    /// where it was written to, nothing where it was not, and
    /// `SerializeError` where the changed tree cannot be written out.
    pub open spec fn save_outcome(&self, location: Location) -> Result<
        Option<Seq<char>>,
        SettingsError,
    > {
        if self.changed(location) {
            match write_outcome(self.tree_view(location)) {
                Ok(text) => Ok(Some(text)),
                Err(error) => Err(error),
            }
        } else {
            Ok(None)
        }
    }

    /// What the tree at `location` holds; for `Best`, which names no tree,
    /// nothing.
    pub open spec fn tree_view(&self, location: Location) -> Table {
        match location {
            Location::Global => self.global_view(),
            Location::Local => self.local_view(),
            Location::Best => Map::empty(),
        }
    }

    /// Two empty trees, nothing loaded yet.
    pub fn new() -> (settings: ShadowSettings)
        ensures
            settings.global_view() == Map::<Seq<char>, Node>::empty(),
            settings.local_view() == Map::<Seq<char>, Node>::empty(),
            !settings.loaded(),
            !settings.changed(Location::Global),
            !settings.changed(Location::Local),
    {
        ShadowSettings {
            global: Settings::new(),
            local: Settings::new(),
            loaded: false,
            global_changed: false,
            local_changed: false,
        }
    }

    /// Replaces both trees by what was read from their storage: each buffer
    /// is the stored text of a tree, `None` where there is none to read.  A
    /// tree that cannot be loaded becomes an empty tree; no failure is
    /// passed on.
    pub fn load(&mut self, global: Option<&str>, local: Option<&str>)
        ensures
            final(self).global_view() == loaded_or_empty(global),
            final(self).local_view() == loaded_or_empty(local),
            final(self).loaded(),
            !final(self).changed(Location::Global),
            !final(self).changed(Location::Local),
    {
        self.global = Settings::load_from_or_empty(global);
        self.local = Settings::load_from_or_empty(local);
        self.loaded = true;
        self.global_changed = false;
        self.local_changed = false;
    }

    /// What `key` leads to when it is read at `location`: a value with its
    /// text, or a section.
    pub fn lookup(&self, key: &str, location: Location) -> (found: Option<Found>)
        ensures
            match resolve_at(self.global_view(), self.local_view(), key@, location) {
                Some(node) => found is Some && found->0.shows(node),
                None => found is None,
            },
    {
        match location {
            Location::Global => self.global.lookup(key),
            Location::Local => self.local.lookup(key),
            Location::Best => match self.local.lookup(key) {
                Some(found) => Some(found),
                None => self.global.lookup(key),
            },
        }
    }

    /// Whether the trees were loaded from their storage.
    pub fn is_loaded(&self) -> (loaded: bool)
        ensures
            loaded == self.loaded(),
    {
        self.loaded
    }

    /// The text under `key` as it is read at `location`: a value, or the
    /// words `is complex` for a section.
    pub fn get_value(&self, key: &str, location: Location) -> (value: Option<String>)
        ensures
            text_of(value) == shown_text(
                resolve_at(self.global_view(), self.local_view(), key@, location),
            ),
    {
        match location {
            Location::Global => self.global.get_value(key),
            Location::Local => self.local.get_value(key),
            Location::Best => match self.local.get_value(key) {
                Some(text) => Some(text),
                None => self.global.get_value(key),
            },
        }
    }

    /// The text under `key` in the local tree alone.
    pub fn get_value_local(&self, key: &str) -> (value: Option<String>)
        ensures
            text_of(value) == shown_text(resolve(self.local_view(), key@)),
    {
        self.local.get_value(key)
    }

    /// The text under `key` in the global tree alone.
    pub fn get_value_global(&self, key: &str) -> (value: Option<String>)
        ensures
            text_of(value) == shown_text(resolve(self.global_view(), key@)),
    {
        self.global.get_value(key)
    }

    /// The text under `key` at the best location, or `default_value` where
    /// neither tree has anything there.
    pub fn get_value_or(&self, key: &str, default_value: &str) -> (value: String)
        ensures
            value@ == match resolve_at(
                self.global_view(),
                self.local_view(),
                key@,
                Location::Best,
            ) {
                Some(node) => shown(node),
                None => default_value@,
            },
    {
        match self.get_value(key, Location::Best) {
            Some(text) => text,
            None => default_value.to_owned(),
        }
    }

    /// Writes `value` under `key` in the local tree and leaves the global
    /// tree alone.  Gives back what the key read as at the best location
    /// before the write.  A key that cannot be written to changes nothing.
    pub fn set_value_local(&mut self, key: &str, value: &str) -> (previous: Result<
        Option<String>,
        SettingsError,
    >)
        ensures
            final(self).loaded() == old(self).loaded(),
            final(self).global_view() == old(self).global_view(),
            final(self).changed(Location::Global) == old(self).changed(Location::Global),
            writable(key@) ==> {
                &&& previous is Ok
                &&& text_of(previous->Ok_0) == shown_text(
                    resolve_at(
                        old(self).global_view(),
                        old(self).local_view(),
                        key@,
                        Location::Best,
                    ),
                )
                &&& final(self).local_view() == assign(
                    old(self).local_view(),
                    segments_of(key@),
                    value@,
                )
                &&& final(self).changed(Location::Local)
            },
            !writable(key@) ==> {
                &&& previous == Err::<Option<String>, SettingsError>(SettingsError::InvalidPath)
                &&& final(self).local_view() == old(self).local_view()
                &&& final(self).changed(Location::Local) == old(self).changed(Location::Local)
            },
    {
        let before = self.get_value(key, Location::Best);
        match self.local.set_value(key, value) {
            Err(error) => Err(error),
            Ok(()) => {
                self.local_changed = true;
                Ok(before)
            },
        }
    }

    /// Writes `value` under `key` in the global tree and leaves the local
    /// tree alone.  Gives back what the key read as at the best location
    /// before the write.  A key that cannot be written to changes nothing.
    pub fn set_value_global(&mut self, key: &str, value: &str) -> (previous: Result<
        Option<String>,
        SettingsError,
    >)
        ensures
            final(self).loaded() == old(self).loaded(),
            final(self).local_view() == old(self).local_view(),
            final(self).changed(Location::Local) == old(self).changed(Location::Local),
            writable(key@) ==> {
                &&& previous is Ok
                &&& text_of(previous->Ok_0) == shown_text(
                    resolve_at(
                        old(self).global_view(),
                        old(self).local_view(),
                        key@,
                        Location::Best,
                    ),
                )
                &&& final(self).global_view() == assign(
                    old(self).global_view(),
                    segments_of(key@),
                    value@,
                )
                &&& final(self).changed(Location::Global)
            },
            !writable(key@) ==> {
                &&& previous == Err::<Option<String>, SettingsError>(SettingsError::InvalidPath)
                &&& final(self).global_view() == old(self).global_view()
                &&& final(self).changed(Location::Global) == old(self).changed(Location::Global)
            },
    {
        let before = self.get_value(key, Location::Best);
        match self.global.set_value(key, value) {
            Err(error) => Err(error),
            Ok(()) => {
                self.global_changed = true;
                Ok(before)
            },
        }
    }

    /// Takes the answer to the question for the value under `key`: an
    /// answer that is not empty is written under `key` in the global tree,
    /// and an empty answer leaves everything as it is.  Says whether
    /// the answer was written.
    pub fn answer_global(&mut self, key: &str, answer: &str) -> (written: Result<
        bool,
        SettingsError,
    >)
        ensures
            final(self).loaded() == old(self).loaded(),
            final(self).local_view() == old(self).local_view(),
            final(self).changed(Location::Local) == old(self).changed(Location::Local),
            answer@.len() == 0 ==> {
                &&& written == Ok::<bool, SettingsError>(false)
                &&& final(self).global_view() == old(self).global_view()
                &&& final(self).changed(Location::Global) == old(self).changed(Location::Global)
            },
            answer@.len() > 0 && writable(key@) ==> {
                &&& written == Ok::<bool, SettingsError>(true)
                &&& final(self).global_view() == assign(
                    old(self).global_view(),
                    segments_of(key@),
                    answer@,
                )
                &&& final(self).changed(Location::Global)
            },
            answer@.len() > 0 && !writable(key@) ==> {
                &&& written == Err::<bool, SettingsError>(SettingsError::InvalidPath)
                &&& final(self).global_view() == old(self).global_view()
                &&& final(self).changed(Location::Global) == old(self).changed(Location::Global)
            },
    {
        if answer.is_empty() {
            return Ok(false);
        }
        match self.set_value_global(key, answer) {
            Ok(_) => Ok(true),
            Err(error) => Err(error),
        }
    }

    /// Writes `value` under `key` at `location`: in the local tree for
    /// `Local`, in the global tree otherwise.
    pub fn set_value(&mut self, key: &str, value: &str, location: Location) -> (previous: Result<
        Option<String>,
        SettingsError,
    >)
        ensures
            final(self).loaded() == old(self).loaded(),
            writable(key@) ==> {
                &&& previous is Ok
                &&& text_of(previous->Ok_0) == shown_text(
                    resolve_at(
                        old(self).global_view(),
                        old(self).local_view(),
                        key@,
                        Location::Best,
                    ),
                )
            },
            !writable(key@) ==> {
                &&& previous == Err::<Option<String>, SettingsError>(SettingsError::InvalidPath)
                &&& final(self).local_view() == old(self).local_view()
                &&& final(self).global_view() == old(self).global_view()
                &&& final(self).changed(Location::Local) == old(self).changed(Location::Local)
                &&& final(self).changed(Location::Global) == old(self).changed(Location::Global)
            },
            writable(key@) && location == Location::Local ==> {
                &&& final(self).local_view() == assign(
                    old(self).local_view(),
                    segments_of(key@),
                    value@,
                )
                &&& final(self).global_view() == old(self).global_view()
                &&& final(self).changed(Location::Local)
                &&& final(self).changed(Location::Global) == old(self).changed(Location::Global)
            },
            writable(key@) && location != Location::Local ==> {
                &&& final(self).global_view() == assign(
                    old(self).global_view(),
                    segments_of(key@),
                    value@,
                )
                &&& final(self).local_view() == old(self).local_view()
                &&& final(self).changed(Location::Global)
                &&& final(self).changed(Location::Local) == old(self).changed(Location::Local)
            },
    {
        match location {
            Location::Local => self.set_value_local(key, value),
            _ => self.set_value_global(key, value),
        }
    }

    /// The names at the top of the local tree, each once.
    pub fn keys_local(&self) -> (names: Vec<String>)
        ensures
            texts(names@).no_duplicates(),
            texts(names@).to_set() == self.local_view().dom(),
            names.len() == self.local_view().dom().len(),
    {
        self.local.keys()
    }

    /// The names at the top of the global tree, each once.
    pub fn keys_global(&self) -> (names: Vec<String>)
        ensures
            texts(names@).no_duplicates(),
            texts(names@).to_set() == self.global_view().dom(),
            names.len() == self.global_view().dom().len(),
    {
        self.global.keys()
    }

    /// The global tree.
    pub fn global(&self) -> (tree: &Settings)
        ensures
            tree@ == self.global_view(),
    {
        &self.global
    }

    /// The local tree.
    pub fn local(&self) -> (tree: &Settings)
        ensures
            tree@ == self.local_view(),
    {
        &self.local
    }

    /// The text to store for the tree at `location`, where that tree was
    /// written to since it was loaded; nothing for a tree that is as it was
    /// loaded, and nothing for `Best`, which names no tree.
    pub fn save_at(&self, location: Location) -> (text: Result<Option<String>, SettingsError>)
        ensures
            match self.save_outcome(location) {
                Ok(expected) => text is Ok && text_of(text->Ok_0) == expected,
                Err(error) => text is Err && text->Err_0 == error,
            },
    {
        match location {
            Location::Best => Ok(None),
            Location::Global => {
                if self.global_changed {
                    match self.global.save() {
                        Ok(text) => Ok(Some(text)),
                        Err(error) => Err(error),
                    }
                } else {
                    Ok(None)
                }
            },
            Location::Local => {
                if self.local_changed {
                    match self.local.save() {
                        Ok(text) => Ok(Some(text)),
                        Err(error) => Err(error),
                    }
                } else {
                    Ok(None)
                }
            },
        }
    }

    /// The texts to store, for the global tree and for the local one: each
    /// tree that was written to since it was loaded is written out, and no
    /// other.  Saving changes nothing, so saving twice gives the same texts.
    pub fn save(&self) -> (texts: Result<(Option<String>, Option<String>), SettingsError>)
        ensures
            match (self.save_outcome(Location::Global), self.save_outcome(Location::Local)) {
                (Ok(global), Ok(local)) => texts is Ok && text_of(texts->Ok_0.0) == global
                    && text_of(texts->Ok_0.1) == local,
                _ => texts == Err::<(Option<String>, Option<String>), SettingsError>(
                    SettingsError::SerializeError,
                ),
            },
    {
        let global = match self.save_at(Location::Global) {
            Ok(text) => text,
            Err(_) => {
                return Err(SettingsError::SerializeError);
            },
        };
        let local = match self.save_at(Location::Local) {
            Ok(text) => text,
            Err(_) => {
                return Err(SettingsError::SerializeError);
            },
        };
        Ok((global, local))
    }
}

} // verus!
