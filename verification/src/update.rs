//! When to look for a new release, and the keys under which a tool keeps
//! what it knows about releases.

use vstd::prelude::*;
use vstd::string::*;
use crate::error::SettingsError;
use crate::location::Location;
use crate::model::assign;
use crate::number::{number_in, parse_number};
use crate::path::segments_of;
use crate::settings::{value_text, writable, Found};
use crate::shadow::{resolve_at, ShadowSettings};

verus! {

/// What is known of the last time a tool looked for a new release.
#[derive(Clone, Copy, Debug, PartialEq, Eq, Structural)]
pub enum LastCheck {
    /// No time is on record.
    Never,
    /// Something is on record that cannot be read as a time.
    Unreadable,
    /// The check was this many whole days ago; negative where the recorded
    /// time lies ahead.
    DaysAgo(i64),
}

/// The number of days between two checks where the settings name none.
pub const DEFAULT_FREQUENCY: i64 = 1;

/// The whole days from the time `earlier` to the time `later`, both written
/// as RFC 3339 says, as the `chrono` crate counts them; nothing where one of
/// the two is no such time.
pub uninterp spec fn whole_days_between(earlier: Seq<char>, later: Seq<char>) -> Option<i64>;

/// Counts the whole days between two times.  Both are read with
/// `chrono::DateTime::parse_from_rfc3339`; the days are those of
/// `signed_duration_since`, as `num_days` gives them.  The count depends on
/// the two texts alone: it is what `whole_days_between` names.
#[verifier::external_body]
fn days_between(earlier: &str, later: &str) -> (days: Option<i64>)
    ensures
        days == whole_days_between(earlier@, later@),
{
    let earlier = chrono::DateTime::parse_from_rfc3339(earlier).ok()?;
    let later = chrono::DateTime::parse_from_rfc3339(later).ok()?;
    Some(later.signed_duration_since(earlier).num_days())
}

/// The text `name` appended to the name of a tool and a dot.
pub open spec fn key_of(app_name: Seq<char>, name: Seq<char>) -> Seq<char> {
    app_name + "."@ + name
}

/// What a record of the last check says at the time `now`.
pub open spec fn last_check_at(record: Option<Seq<char>>, now: Seq<char>) -> LastCheck {
    match record {
        None => LastCheck::Never,
        Some(time) => match whole_days_between(time, now) {
            Some(days) => LastCheck::DaysAgo(days),
            None => LastCheck::Unreadable,
        },
    }
}

/// The days to let pass between two checks that a setting asks for: the
/// number that it spells, or nothing where it is not set, spells no whole
/// number, or one that is out of range.
pub open spec fn frequency_in(setting: Option<Seq<char>>) -> Option<i64> {
    match setting {
        Some(text) => match number_in(text) {
            Some(days) => if i64::MIN <= days <= i64::MAX {
                Some(days as i64)
            } else {
                None
            },
            None => None,
        },
        None => None,
    }
}

/// Whether it is time to look for a new release, given the days to let pass
/// between two checks (one day where none are given) and what is known of
/// the last check.  With no check on record it is time; a record that cannot
/// be read puts the check off.
pub open spec fn is_due(frequency: Option<i64>, last_check: LastCheck) -> bool {
    match last_check {
        LastCheck::Never => true,
        LastCheck::Unreadable => false,
        LastCheck::DaysAgo(days) => days >= match frequency {
            Some(wanted) => wanted,
            None => DEFAULT_FREQUENCY,
        },
    }
}

/// Whether it is time to look for a new release.
pub fn update_is_due(frequency: Option<i64>, last_check: LastCheck) -> (due: bool)
    ensures
        due == is_due(frequency, last_check),
{
    let wanted: i64 = match frequency {
        Some(wanted) => wanted,
        None => DEFAULT_FREQUENCY,
    };
    match last_check {
        LastCheck::Never => true,
        LastCheck::Unreadable => false,
        LastCheck::DaysAgo(days) => days >= wanted,
    }
}

/// What the record `record` of the last check says at the time `now`, both
/// times written as RFC 3339 says.
pub fn last_check(record: Option<&str>, now: &str) -> (known: LastCheck)
    ensures
        known == last_check_at(
            match record {
                Some(time) => Some(time@),
                None => None,
            },
            now@,
        ),
{
    match record {
        None => LastCheck::Never,
        Some(time) => match days_between(time, now) {
            Some(days) => LastCheck::DaysAgo(days),
            None => LastCheck::Unreadable,
        },
    }
}

/// The key under which the tool `app_name` keeps the days between checks.
pub fn frequency_key(app_name: &str) -> (key: String)
    ensures
        key@ == key_of(app_name@, "update.freq"@),
{
    app_name.to_owned().concat(".").concat("update.freq")
}

/// The key under which the tool `app_name` keeps the time of its last check.
pub fn last_check_key(app_name: &str) -> (key: String)
    ensures
        key@ == key_of(app_name@, "update.last_check"@),
{
    app_name.to_owned().concat(".").concat("update.last_check")
}

/// The key under which the tool `app_name` keeps whether a newer release is
/// known.
pub fn available_key(app_name: &str) -> (key: String)
    ensures
        key@ == key_of(app_name@, "update.available"@),
{
    app_name.to_owned().concat(".").concat("update.available")
}

/// Whether the tool `app_name` should look for a new release at the time
/// `now`, going by the values that `settings` hold at the best location:
/// the days between checks under `update.freq`, and the time of the last
/// check under `update.last_check`, both below the name of the tool.  A
/// section in the place of either counts as nothing.
pub fn check_if_should_update(settings: &ShadowSettings, app_name: &str, now: &str) -> (due: bool)
    ensures
        due == is_due(
            frequency_in(
                value_text(
                    resolve_at(
                        settings.global_view(),
                        settings.local_view(),
                        key_of(app_name@, "update.freq"@),
                        Location::Best,
                    ),
                ),
            ),
            last_check_at(
                value_text(
                    resolve_at(
                        settings.global_view(),
                        settings.local_view(),
                        key_of(app_name@, "update.last_check"@),
                        Location::Best,
                    ),
                ),
                now@,
            ),
        ),
{
    let frequency = match settings.lookup(frequency_key(app_name).as_str(), Location::Best) {
        Some(Found::Value(text)) => parse_number(text.as_str()),
        _ => None,
    };
    let known = match settings.lookup(last_check_key(app_name).as_str(), Location::Best) {
        Some(Found::Value(time)) => last_check(Some(time.as_str()), now),
        _ => last_check(None, now),
    };
    update_is_due(frequency, known)
}

/// Puts the time `now` on record as the time of the last check of the tool
/// `app_name`, in the global tree.
pub fn set_last_update_as_now(settings: &mut ShadowSettings, app_name: &str, now: &str) -> (done:
    Result<(), SettingsError>)
    ensures
        final(settings).local_view() == old(settings).local_view(),
        final(settings).loaded() == old(settings).loaded(),
        final(settings).changed(Location::Local) == old(settings).changed(Location::Local),
        writable(key_of(app_name@, "update.last_check"@)) ==> {
            &&& done is Ok
            &&& final(settings).global_view() == assign(
                old(settings).global_view(),
                segments_of(key_of(app_name@, "update.last_check"@)),
                now@,
            )
            &&& final(settings).changed(Location::Global)
        },
        !writable(key_of(app_name@, "update.last_check"@)) ==> {
            &&& done == Err::<(), SettingsError>(SettingsError::InvalidPath)
            &&& final(settings).global_view() == old(settings).global_view()
            &&& final(settings).changed(Location::Global) == old(settings).changed(
                Location::Global,
            )
        },
{
    match settings.set_value_global(last_check_key(app_name).as_str(), now) {
        Ok(_) => Ok(()),
        Err(error) => Err(error),
    }
}

} // verus!
