//! Live WGSL shader-editing library: an incremental syntax-highlighting
//! engine (grammar store, line tokenizer, scope resolver, snapshot cache and
//! highlight stream producer), the editor's state machine, shader validation
//! and the supporting data models.
//!
//! Highlighting works line by line: a tokenizer turns one line of text plus an
//! incoming parser state into scope-stack operations, a resolver folds those
//! operations into styled byte ranges, and a snapshot cache of periodic
//! (parser state, scope stack) checkpoints lets a pass restart near any line
//! without replaying the whole document.

use vstd::prelude::*;

pub mod cache;
pub mod editor;
pub mod grammar;
pub mod highlighter;
pub mod preferences;
pub mod resolver;
pub mod theme;
pub mod tokenizer;
pub mod util;
pub mod validation;
pub mod viewer;
pub mod wgsl;

verus! {

/// The text of a fragment shader, as the editor buffer reports it.
pub type FragmentShader = String;

} // verus!
