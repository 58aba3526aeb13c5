//! Axis-aligned rectangles in normalized image coordinates.
use vstd::prelude::*;

use crate::float::F32;

verus! {

#[derive(Clone, Copy, Debug)]
pub struct Vec2 {
    pub x: F32,
    pub y: F32,
}

/// A rectangle given by its center and its size, both relative to the image
/// (the whole image is centered at (0.5, 0.5) with size (1, 1)).
#[derive(Clone, Copy, Debug)]
pub struct Rectangle {
    pub center: Vec2,
    pub size: Vec2,
}

impl Vec2 {
    pub open spec fn spec_eq(self, other: Vec2) -> bool {
        self.x.spec_eq(other.x) && self.y.spec_eq(other.y)
    }

    pub fn ieee_eq(&self, other: &Vec2) -> (r: bool)
        ensures
            r == self.spec_eq(*other),
    {
        self.x.ieee_eq(&other.x) && self.y.ieee_eq(&other.y)
    }
}

impl Rectangle {
    pub open spec fn spec_eq(self, other: Rectangle) -> bool {
        self.center.spec_eq(other.center) && self.size.spec_eq(other.size)
    }

    pub fn ieee_eq(&self, other: &Rectangle) -> (r: bool)
        ensures
            r == self.spec_eq(*other),
    {
        self.center.ieee_eq(&other.center) && self.size.ieee_eq(&other.size)
    }

    /// The rectangle that covers the whole image.
    pub open spec fn spec_regular() -> Rectangle {
        Rectangle {
            center: Vec2 { x: F32 { bits: 0x3f00_0000 }, y: F32 { bits: 0x3f00_0000 } },
            size: Vec2 { x: F32 { bits: 0x3f80_0000 }, y: F32 { bits: 0x3f80_0000 } },
        }
    }

    /// The rectangle that covers the whole image: center (0.5, 0.5), size (1, 1).
    pub fn regular() -> (r: Rectangle)
        ensures
            r == Self::spec_regular(),
    {
        Rectangle {
            center: Vec2 { x: F32 { bits: 0x3f00_0000 }, y: F32 { bits: 0x3f00_0000 } },
            size: Vec2 { x: F32 { bits: 0x3f80_0000 }, y: F32 { bits: 0x3f80_0000 } },
        }
    }
}

} // verus!
