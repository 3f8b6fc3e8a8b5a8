//! A source-to-source refactoring pipeline that turns a selected span of code
//! inside a function into a new, separately named function.
//!
//! Locating candidate refactorings is delegated to an external semantic
//! analysis engine; this crate is about safely applying the engine's proposed
//! transformation: resolving a line/column selection to a byte-exact span,
//! picking the one "extract into function" transform among the engine's
//! candidates, applying its text edits to an independent output copy,
//! renaming the synthesized function, and repairing the known mechanical
//! artifacts the generic extraction leaves behind.
#![verifier::loop_isolation(false)]

use vstd::prelude::*;

pub mod edit;
pub mod engine;
pub mod error;
pub mod extraction_utils;
pub mod fixup;
pub mod span;
pub mod text;

verus! {

/// Progress callback handed to the workspace loader; the pipeline stays quiet.
pub fn progress(_message: String) {
}

} // verus!
