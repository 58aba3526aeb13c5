//! The intermediate representation that the engine executes: a flat list of
//! operations in which every operation writes one fresh value id.
pub mod id;
pub mod mask;
pub mod module;
pub mod op;
pub mod value;
pub mod well_formed;
