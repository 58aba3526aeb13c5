//! A pool of equally sized buffers handed out in turn and all made available
//! again at once.
use vstd::prelude::*;

use crate::engine::image::BufferProperties;

verus! {

/// `B` is the buffer type; buffers are created by the caller.
pub struct RingBuffer<B> {
    properties: BufferProperties,
    buffers: Vec<B>,
    next_available_index: usize,
}

impl<B> RingBuffer<B> {
    pub closed spec fn spec_buffers(self) -> Seq<B> {
        self.buffers@
    }

    pub closed spec fn spec_next_available_index(self) -> int {
        self.next_available_index as int
    }

    pub closed spec fn spec_properties(self) -> BufferProperties {
        self.properties
    }

    /// The buffers handed out so far exist.
    pub open spec fn well_formed(self) -> bool {
        self.spec_next_available_index() <= self.spec_buffers().len()
    }

    pub fn new(properties: BufferProperties) -> (r: Self)
        ensures
            r.well_formed(),
            r.spec_properties() == properties,
            r.spec_buffers().len() == 0,
            r.spec_next_available_index() == 0,
    {
        RingBuffer { properties, buffers: Vec::new(), next_available_index: 0 }
    }

    /// The properties every buffer of the pool is created with.
    pub fn properties(&self) -> (r: BufferProperties)
        ensures
            r == self.spec_properties(),
    {
        self.properties
    }

    /// Hands out the next buffer. When every buffer is in use, `create`
    /// makes a new one; the pool never grows to 100 buffers.
    pub fn get<F: FnOnce() -> B>(&mut self, create: F) -> (r: &B)
        requires
            old(self).well_formed(),
            old(self).spec_next_available_index() < old(self).spec_buffers().len() || (
            old(self).spec_buffers().len() < 99 && call_requires(create, ())),
        ensures
            final(self).well_formed(),
            final(self).spec_next_available_index() == old(self).spec_next_available_index() + 1,
            final(self).spec_properties() == old(self).spec_properties(),
            old(self).spec_next_available_index() < old(self).spec_buffers().len() ==> final(self).spec_buffers()
                == old(self).spec_buffers(),
            old(self).spec_next_available_index() == old(self).spec_buffers().len() ==> {
                &&& final(self).spec_buffers().len() == old(self).spec_buffers().len() + 1
                &&& final(self).spec_buffers().take(old(self).spec_buffers().len() as int) == old(self).spec_buffers()
                &&& call_ensures(create, (), final(self).spec_buffers().last())
            },
            *r == final(self).spec_buffers()[old(self).spec_next_available_index()],
    {
        if self.buffers.len() < self.next_available_index + 1 {
            let new_buffer = create();
            self.buffers.push(new_buffer);
            assert(self.buffers@.take(self.buffers@.len() - 1) =~= old(self).buffers@);
        }
        let index = self.next_available_index;
        self.next_available_index = self.next_available_index + 1;
        &self.buffers[index]
    }

    /// Makes every buffer available again.
    pub fn mark_all_available(&mut self)
        ensures
            final(self).well_formed(),
            final(self).spec_next_available_index() == 0,
            final(self).spec_buffers() == old(self).spec_buffers(),
            final(self).spec_properties() == old(self).spec_properties(),
    {
        self.next_available_index = 0;
    }
}

} // verus!
