//! A value in the engine's store: an image or a buffer.
use vstd::prelude::*;

verus! {

pub enum Value<I, B> {
    Image(I),
    Buffer(B),
}

impl<I, B> Value<I, B> {
    pub fn as_image(&self) -> (r: &I)
        requires
            self is Image,
        ensures
            *r == self->Image_0,
    {
        match self {
            Value::Image(i) => i,
            Value::Buffer(_) => unreached(),
        }
    }

    pub fn is_image(&self) -> (r: bool)
        ensures
            r == self is Image,
    {
        match self {
            Value::Image(_) => true,
            _ => false,
        }
    }

    pub fn as_buffer(&self) -> (r: &B)
        requires
            self is Buffer,
        ensures
            *r == self->Buffer_0,
    {
        match self {
            Value::Buffer(b) => b,
            Value::Image(_) => unreached(),
        }
    }

    pub fn is_buffer(&self) -> (r: bool)
        ensures
            r == self is Buffer,
    {
        match self {
            Value::Buffer(_) => true,
            _ => false,
        }
    }
}

} // verus!
