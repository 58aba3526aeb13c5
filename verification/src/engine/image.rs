//! Image and buffer properties.
use vstd::prelude::*;

verus! {

#[allow(non_camel_case_types)]
#[derive(Clone, Copy, PartialEq, Eq, Structural, Debug)]
pub enum ColorSpace {
    Linear,
    sRGB,
}

#[derive(Clone, Copy, PartialEq, Eq, Structural, Debug)]
pub enum ImageFormat {
    Rgba16Float,
}

impl ImageFormat {
    pub fn bytes_per_channel(&self) -> (r: u32)
        ensures
            r == 2,
    {
        match *self {
            ImageFormat::Rgba16Float => 2,
        }
    }

    /// Four channels of `bytes_per_channel` bytes each.
    pub fn bytes_per_pixel(&self) -> (r: u32)
        ensures
            r == 8,
    {
        match *self {
            ImageFormat::Rgba16Float => 8,
        }
    }
}

#[derive(Clone, Copy, PartialEq, Eq, Debug)]
pub struct ImageProperties {
    pub dimensions: (u32, u32),
    pub format: ImageFormat,
    pub color_space: ColorSpace,
}

#[derive(Clone, Copy, PartialEq, Eq, Structural, Debug)]
pub struct BufferProperties {
    pub size: usize,
}

} // verus!
