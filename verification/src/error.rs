//! The ways in which an operation of the store can fail.

use vstd::prelude::*;

verus! {

/// Why an operation on a settings store was refused.
#[derive(Clone, Copy, Debug, PartialEq, Eq, Structural)]
pub enum SettingsError {
    /// The key is malformed: a segment is empty, or there are too few of them.
    InvalidPath,
    /// The stored text is not a settings document.
    ParseError,
    /// The storage behind a tree could not be read or written.
    IOError,
    /// The tree cannot be written out as text.
    SerializeError,
}

impl SettingsError {
    /// A short description of the failure.
    pub fn message(&self) -> (text: &'static str)
        ensures
            text@ == match *self {
                SettingsError::InvalidPath => "invalid settings path"@,
                SettingsError::ParseError => "cannot parse settings"@,
                SettingsError::IOError => "cannot access settings storage"@,
                SettingsError::SerializeError => "cannot serialize settings"@,
            },
    {
        match self {
            SettingsError::InvalidPath => "invalid settings path",
            SettingsError::ParseError => "cannot parse settings",
            SettingsError::IOError => "cannot access settings storage",
            SettingsError::SerializeError => "cannot serialize settings",
        }
    }
}

} // verus!
