//! Scope resolution and module loading for a small interpreted scripting
//! language: lexical environments arranged in an arena with index-based
//! parent links, a run-wide registry of loaded and built-in modules, and a
//! loader that resolves import paths with caching and cycle detection.

pub mod cli;
pub mod data;
pub mod modules;
pub mod scope;
pub mod table;

use vstd::prelude::*;

verus! {

} // verus!
