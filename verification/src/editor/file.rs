//! Shader file handling: the outcomes the editor distinguishes. The dialogs
//! and the reads and writes themselves are I/O and live with the caller.

use vstd::prelude::*;

verus! {

/// Why loading or saving a shader file failed.
#[derive(Clone, Copy, PartialEq, Eq, Structural, Debug)]
pub enum Error {
    IoError,
    SaveDialogueClosed,
    OpenDialogueClosed,
}

} // verus!
