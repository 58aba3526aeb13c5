//! What the library records about its images and saves between runs.
use vstd::prelude::*;

use crate::library::identifier::LibraryImageIdentifier;
use crate::library::rating::ImageRating;

verus! {

#[derive(Clone, Debug)]
pub struct LibraryImageMetaData {
    pub name: Option<String>,
}

/// The answer to adding an image to a library.
#[derive(Clone, Debug)]
pub enum AddImageResult {
    AddedNewImage(usize),
    ImageAlreadyExists(usize),
    Error(String),
}

/// A version of the application, as recorded in the saved library.
#[derive(Clone, Copy, PartialEq, Eq, Structural, Debug)]
pub struct Version {
    pub major: u32,
    pub minor: u32,
    pub patch: u32,
}

/// What is saved of an album.
#[derive(Clone, Debug)]
pub struct AlbumPersistentState {
    pub name: String,
    pub directory: Option<String>,
    // images that are not in directory
    pub additional_images: Vec<LibraryImageIdentifier>,
}

/// What is saved of a file in the library.
#[derive(Clone, Debug)]
pub struct LibraryPersistentStateItem {
    pub path: String,
    pub rating: ImageRating,
}

/// What is saved of the library.
#[derive(Clone, Debug)]
pub struct LibraryPersistentState {
    pub version: Version,
    pub items: Vec<LibraryPersistentStateItem>,
    pub albums: Vec<AlbumPersistentState>,
}

impl LibraryPersistentState {
    /// An empty library saved by the build `version`.
    pub fn new(version: Version) -> (r: Self)
        ensures
            r.version == version,
            r.items@.len() == 0,
            r.albums@.len() == 0,
    {
        LibraryPersistentState { version, items: Vec::new(), albums: Vec::new() }
    }
}

/// A thumbnail written to disk for an image.
#[derive(Clone, Debug)]
pub struct GeneratedThumbnail {
    pub original_image_path: String,
    pub thumbnail_path: String,
}

} // verus!
