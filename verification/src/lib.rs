//! Static scan for type definitions that declare the `Reflect` and
//! `Component` capabilities without the companion `#[reflect(Component)]`
//! registration.
//!
//! The crate holds the verified logic of the scanner: deriving a module
//! path from a file's location and the metadata of the compilation unit
//! that owns it, and a visibility-aware walk of each file's syntax tree
//! that applies the detection predicate. Reading directories, invoking
//! the metadata resolver and parsing source text happen outside; they
//! hand this crate plain values (path segments, annotation lists,
//! declaration trees) and take the findings back.

pub mod discovery;
pub mod modpath;
pub mod pipeline;
pub mod syntax;
pub mod text;
pub mod walker;

use vstd::prelude::*;

verus! {

} // verus!
