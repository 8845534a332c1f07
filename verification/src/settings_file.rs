//! Where the settings of the lovepack tools are kept on disk.

use vstd::prelude::*;

verus! {

/// The storage of the settings that all lovepack tools share: the names of
/// the file and of the folder that hold a tree.
#[derive(Clone, Copy, Debug)]
pub struct Configuration {}

impl Configuration {
    /// The name of the settings file, without its extension.
    pub fn filename(&self) -> (name: String)
        ensures
            name@ == "lovepack"@,
    {
        "lovepack".to_owned()
    }

    /// The name of the folder that holds the global settings file, below the
    /// user's home.
    pub fn folder(&self) -> (name: String)
        ensures
            name@ == ".lovepack"@,
    {
        ".lovepack".to_owned()
    }

    /// The extension of the settings file.
    pub fn extension(&self) -> (name: Option<String>)
        ensures
            name is Some,
            name->0@ == "toml"@,
    {
        Some("toml".to_owned())
    }
}

} // verus!
