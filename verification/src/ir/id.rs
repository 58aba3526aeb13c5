use vstd::prelude::*;

verus! {

/// The id of a value (an image or a buffer) computed by an operation.
pub type Id = i32;

#[derive(PartialEq, Eq, Structural, Hash, Clone, Copy, Debug)]
pub enum IdTag {
    Output,
    DataForEditor,
}

} // verus!
