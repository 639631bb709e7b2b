//! User preferences: the values persisted between sessions. Reading and
//! writing the preferences file is I/O and lives with the caller; this is
//! the data model it round-trips.

use vstd::prelude::*;

verus! {

/// The persisted preferences: the path of the shader last open, if any, and
/// whether shaders are re-validated automatically on every edit.
#[derive(Clone, Debug)]
pub struct Preferences {
    pub last_shader_path: Option<String>,
    pub auto_validate: bool,
}

/// Why loading or saving preferences failed.
#[derive(Clone, Copy, PartialEq, Eq, Structural, Debug)]
pub enum Error {
    Io,
    Deserialize,
    Serialize,
}

} // verus!
