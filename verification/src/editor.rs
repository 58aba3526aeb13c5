//! Edits, their compilation to the IR, and the undo/redo history of an edit
//! session.
pub mod edit;
pub mod edit_context;
pub mod editor;
pub mod ir_generator;
pub mod result;
