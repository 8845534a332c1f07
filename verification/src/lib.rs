//! A dot-addressed settings store with a per-user and a per-project scope.
//!
//! A [`Settings`] tree maps names to text values or to nested sections and is
//! read and written by keys such as `user.name`.  [`ShadowSettings`] holds a
//! global and a local tree and reads through both, the local one first.
//!
//! What a tree means is laid down in [`model`]: nested maps, with `lookup`
//! to read and `assign` to write along a path, and the laws that the two
//! obey.  [`path`] cuts keys into segments, [`subsetting`] and [`settings`]
//! hold a tree in memory, [`shadow`] pairs two of them, and [`document`]
//! reads and writes a tree as TOML.  The remaining modules serve the tools
//! around the store: the location switches, the lines they print, the
//! update check, and the flat two-level store of [`setting`].

pub mod assoc;
pub mod document;
pub mod error;
pub mod helper;
pub mod interface;
pub mod location;
pub mod model;
pub mod number;
pub mod options;
pub mod path;
pub mod paths;
pub mod prompt;
pub mod setting;
pub mod settings;
pub mod settings_file;
pub mod shadow;
pub mod subsetting;
pub mod text;
pub mod theme;
pub mod update;

pub use error::SettingsError;
pub use location::Location;
pub use path::PathAddress;
pub use settings::{Found, Settings};
pub use settings_file::Configuration;
pub use shadow::ShadowSettings;
pub use subsetting::Subsetting;
