//! Core of a non-destructive photo editor: the edit model, the compiler from
//! edits to a small image-processing IR, the reuse analysis between two runs of
//! the engine, the undo/redo history of an edit session, and the photo library
//! catalog.
use vstd::prelude::*;

pub mod editor;
pub mod engine;
pub mod float;
pub mod library;
pub mod ir;
pub mod rectangle;
pub mod runtime;

verus! {

} // verus!
