//! Kinds of operations offered to the user, and the toolbox of helpers the
//! operations share.
use vstd::prelude::*;

verus! {

#[derive(Clone, Copy, PartialEq, Eq, Structural, Debug)]
pub enum OpType {
    ExposureAdjust,
}

/// Helpers shared by the operations; `M` generates mipmaps.
pub struct Toolbox<M> {
    pub mipmap_generator: M,
}

} // verus!
