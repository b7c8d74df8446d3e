//! A terminal markdown notes library.
//!
//! The heart is the markdown rendering pipeline: `parser` folds a token
//! stream into typed elements, `render` turns elements into styled,
//! word-wrapped display lines.  Around it stand the value types and
//! decision rules of the surrounding notes browser: its configuration,
//! its file tree, and its git synchronisation bookkeeping.  All I/O —
//! files, terminal, clipboard, repository — belongs to the host.
use vstd::prelude::*;

pub mod config;
pub mod elements;
pub mod events;
pub mod file_tree;
pub mod git;
pub mod markdown;
pub mod parser;
pub mod render;
pub mod style;
pub mod text;
pub mod wrap;

verus! {

} // verus!
