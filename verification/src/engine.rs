//! Engine-side bookkeeping that does not touch the GPU: which values of the
//! previous run can be reused, the value store, histograms, and image and
//! buffer properties.
pub mod dispatch;
pub mod execution_context;
pub mod histogram;
pub mod image;
pub mod op;
pub mod ring_buffer;
pub mod shader;
pub mod value_store;
