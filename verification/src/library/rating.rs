//! Star ratings.
use vstd::prelude::*;

verus! {

#[derive(PartialEq, Eq, Structural, Clone, Copy, Debug)]
pub struct ImageRating {
    pub num_stars: Option<u32>,
}

impl ImageRating {
    /// The most stars an image can have.
    pub const MAX_STARS: u32 = 5;

    pub fn new(num_stars: Option<u32>) -> (r: Self)
        ensures
            r.num_stars == num_stars,
    {
        Self { num_stars }
    }
}

} // verus!
