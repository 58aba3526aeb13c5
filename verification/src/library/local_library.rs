//! The simplest library: a list of image files, each added once, with the
//! images loaded for them kept by position.
use std::collections::HashMap;
use vstd::prelude::*;

use crate::library::metadata::AddImageResult;
use crate::library::utils::{paths_equal, spec_paths_equal};

verus! {

broadcast use vstd::std_specs::hash::group_hash_axioms;

/// The image files of a local library, and the images loaded for them. `I`
/// is the image handle.
pub struct LocalLibrary<I> {
    paths: Vec<String>,
    images: HashMap<usize, I>,
}

/// What a local library holds.
pub struct LocalLibraryView<I> {
    pub paths: Seq<Seq<char>>,
    pub images: Map<usize, I>,
}

impl<I> View for LocalLibrary<I> {
    type V = LocalLibraryView<I>;

    closed spec fn view(&self) -> LocalLibraryView<I> {
        LocalLibraryView { paths: self.paths@.map_values(|p: String| p@), images: self.images@ }
    }
}

/// The first position in `paths` of a path equal to `path`, if any.
pub open spec fn position_of_path(paths: Seq<Seq<char>>, path: Seq<char>) -> Option<int>
    decreases paths.len(),
{
    if paths.len() == 0 {
        None
    } else {
        match position_of_path(paths.drop_last(), path) {
            Some(i) => Some(i),
            None => if spec_paths_equal(paths.last(), path) {
                Some(paths.len() - 1)
            } else {
                None
            },
        }
    }
}

impl<I> LocalLibrary<I> {
    /// An empty library.
    pub fn new() -> (r: Self)
        ensures
            r@.paths == Seq::<Seq<char>>::empty(),
            r@.images == Map::<usize, I>::empty(),
    {
        let r = LocalLibrary { paths: Vec::new(), images: HashMap::new() };
        proof {
            assert(r@.paths =~= Seq::<Seq<char>>::empty());
        }
        r
    }

    pub fn num_images(&self) -> (r: usize)
        ensures
            r == self@.paths.len(),
    {
        self.paths.len()
    }

    /// Adds the image file `resource`, which exists on disk when `exists`: a
    /// file that is not there is an error, a file already in the library
    /// keeps its position, a new one goes last.
    pub fn add(&mut self, resource: &str, exists: bool) -> (r: AddImageResult)
        ensures
            !exists ==> {
                &&& r matches AddImageResult::Error(msg) && msg@ == "cannot open "@ + resource@
                &&& final(self)@ == old(self)@
            },
            exists ==> match position_of_path(old(self)@.paths, resource@) {
                Some(i) => r == AddImageResult::ImageAlreadyExists(i as usize) && final(self)@ == old(self)@,
                None => {
                    &&& r == AddImageResult::AddedNewImage(old(self)@.paths.len() as usize)
                    &&& final(self)@.paths == old(self)@.paths.push(resource@)
                    &&& final(self)@.images == old(self)@.images
                },
            },
    {
        if !exists {
            let mut msg = String::from_str("cannot open ");
            msg.append(resource);
            return AddImageResult::Error(msg);
        }
        let mut i: usize = 0;
        while i < self.paths.len()
            invariant
                exists,
                i <= self@.paths.len(),
                self@ == old(self)@,
                position_of_path(self@.paths.take(i as int), resource@) is None,
            decreases self@.paths.len() - i,
        {
            proof {
                assert(self@.paths.take(i + 1).drop_last() =~= self@.paths.take(i as int));
                assert(self@.paths[i as int] == self.paths@[i as int]@);
            }
            if paths_equal(self.paths[i].as_str(), resource) {
                proof {
                    lemma_position_of_path_prefix(self@.paths, resource@, i as int);
                }
                return AddImageResult::ImageAlreadyExists(i);
            }
            i = i + 1;
        }
        proof {
            assert(self@.paths.take(i as int) =~= self@.paths);
        }
        let index = self.paths.len();
        self.paths.push(resource.to_owned());
        proof {
            assert(self@.paths =~= old(self)@.paths.push(resource@));
        }
        AddImageResult::AddedNewImage(index)
    }

    /// The image file at `index`.
    pub fn path(&self, index: usize) -> (r: &String)
        requires
            index < self@.paths.len(),
        ensures
            r@ == self@.paths[index as int],
    {
        &self.paths[index]
    }

    /// The image loaded for the file at `index`, if it was loaded.
    pub fn cached_image(&self, index: usize) -> (r: Option<&I>)
        ensures
            r == (if self@.images.dom().contains(index) { Some(&self@.images[index]) } else { None }),
    {
        self.images.get(&index)
    }

    /// Keeps the image loaded for the file at `index`.
    pub fn store_image(&mut self, index: usize, image: I)
        ensures
            final(self)@.paths == old(self)@.paths,
            final(self)@.images == old(self)@.images.insert(index, image),
    {
        self.images.insert(index, image);
    }
}

/// When no path before position `i` is equal to `path` and the one at `i`
/// is, `i` is the first position of `path`.
proof fn lemma_position_of_path_prefix(paths: Seq<Seq<char>>, path: Seq<char>, i: int)
    requires
        0 <= i < paths.len(),
        position_of_path(paths.take(i), path) is None,
        spec_paths_equal(paths[i], path),
    ensures
        position_of_path(paths, path) == Some(i),
    decreases paths.len(),
{
    if paths.len() == i + 1 {
        assert(paths.drop_last() =~= paths.take(i));
    } else {
        assert(paths.drop_last().take(i) =~= paths.take(i));
        lemma_position_of_path_prefix(paths.drop_last(), path, i);
    }
}

} // verus!
