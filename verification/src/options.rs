//! The settings that a tool knows of, and which of them it offers.

use std::cmp::Ordering;
use vstd::prelude::*;

verus! {

/// How a release stands to the release that is running.
#[derive(Clone, Copy, Debug, PartialEq, Eq, Structural)]
pub enum Standing {
    /// It came before the running release.
    Older,
    /// It is the running release.
    Same,
    /// It comes after the running release.
    Newer,
}

/// How the release `version` stands to the release `running`, both written
/// as version numbers, as the `version-lp` crate orders them; nothing where
/// one of the two is no version number.
pub uninterp spec fn version_standing(version: Seq<char>, running: Seq<char>) -> Option<Standing>;

/// Compares two version numbers.  Both are read with
/// `version_lp::Version::from_str` and compared with the order of `Version`.
/// The outcome depends on the two texts alone: it is what `version_standing`
/// names.
#[verifier::external_body]
fn compare_versions(version: &str, running: &str) -> (standing: Option<Standing>)
    ensures
        standing == version_standing(version@, running@),
{
    let version = version_lp::Version::from_str(version)?;
    let running = version_lp::Version::from_str(running)?;
    Some(
        match version.cmp(&running) {
            Ordering::Less => Standing::Older,
            Ordering::Equal => Standing::Same,
            Ordering::Greater => Standing::Newer,
        },
    )
}

/// A setting that a tool knows of.
#[derive(Debug)]
pub struct OptionsMap {
    /// The key of the setting.
    pub key: String,
    /// What the setting is for.
    pub desc: String,
    /// The release that brought the setting, where that is known.
    pub added: Option<String>,
    /// The release that dropped the setting, where there is one.
    pub removed: Option<String>,
    /// The key that took the place of this one, where there is one.
    pub replaced_by: Option<String>,
    /// Whether the setting is asked for when the settings are set up.
    pub init: Option<bool>,
}

/// How the release `version` stands to `running`, where a release is given
/// and both can be read as version numbers.
pub open spec fn standing_of(version: Option<String>, running: Seq<char>) -> Option<Standing> {
    match version {
        Some(text) => version_standing(text@, running),
        None => None,
    }
}

/// A release has a setting where the setting was not brought by a later
/// release, nor dropped by that release or an earlier one.  A release that
/// is not known decides nothing.
pub open spec fn is_offered_given(added: Option<Standing>, removed: Option<Standing>) -> bool {
    &&& added != Some(Standing::Newer)
    &&& removed != Some(Standing::Older)
    &&& removed != Some(Standing::Same)
}

/// Whether the running release has a setting, given how the release that
/// brought it and the release that dropped it stand to the running one.
pub fn offered_given(added: Option<Standing>, removed: Option<Standing>) -> (offered: bool)
    ensures
        offered == is_offered_given(added, removed),
{
    let too_new = match added {
        Some(Standing::Newer) => true,
        _ => false,
    };
    let dropped = match removed {
        Some(Standing::Older) => true,
        Some(Standing::Same) => true,
        _ => false,
    };
    !too_new && !dropped
}

impl OptionsMap {
    /// The release `running` has the setting.
    pub open spec fn offered(self, running: Seq<char>) -> bool {
        is_offered_given(standing_of(self.added, running), standing_of(self.removed, running))
    }

    /// How the release in `version` stands to the release `running`.
    fn standing(version: &Option<String>, running: &str) -> (standing: Option<Standing>)
        ensures
            standing == standing_of(*version, running@),
    {
        match version {
            Some(text) => compare_versions(text.as_str(), running),
            None => None,
        }
    }

    /// Whether the release `running` has the setting.
    pub fn is_offered(&self, running: &str) -> (offered: bool)
        ensures
            offered == self.offered(running@),
    {
        let added = OptionsMap::standing(&self.added, running);
        let removed = OptionsMap::standing(&self.removed, running);
        offered_given(added, removed)
    }

    /// Whether the setting is asked for when the settings are set up with
    /// the release `running`: it is marked for that, and the release has it.
    pub fn is_asked(&self, running: &str) -> (asked: bool)
        ensures
            asked == (self.init == Some(true) && self.offered(running@)),
    {
        match self.init {
            Some(true) => self.is_offered(running),
            _ => false,
        }
    }
}

} // verus!
