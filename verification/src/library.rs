//! The photo library: image identifiers, ratings and metadata, the catalog
//! of items and albums kept in name order, and which files it accepts.
pub mod album;
pub mod catalog;
pub mod identifier;
pub mod identifier_map;
pub mod image_cache;
pub mod local_library;
pub mod metadata;
pub mod ordering;
pub mod rating;
pub mod thumbnail;
pub mod utils;
