//! The values computed by the engine, by id.
use std::collections::HashMap;
use vstd::prelude::*;

use crate::engine::image::{BufferProperties, ImageProperties};
use crate::ir::id::Id;
use crate::ir::value::Value;

verus! {

broadcast use vstd::std_specs::hash::group_hash_axioms;

/// Image properties are equal field by field.
pub fn image_properties_equal(a: &ImageProperties, b: &ImageProperties) -> (r: bool)
    ensures
        r == (*a == *b),
{
    a.dimensions.0 == b.dimensions.0 && a.dimensions.1 == b.dimensions.1 && a.format == b.format
        && a.color_space == b.color_space
}

pub struct ValueStore<I, B> {
    pub map: HashMap<Id, Value<I, B>>,
}

impl<I, B> ValueStore<I, B> {
    pub fn new() -> (r: Self)
        ensures
            r.map@ == Map::<Id, Value<I, B>>::empty(),
    {
        ValueStore { map: HashMap::new() }
    }

    /// Makes the value at `id` an image of `properties`: the image held there
    /// is kept when `properties_of` reports these properties for it; otherwise
    /// `create` makes one, which is held there from then on. Returns the image.
    pub fn ensure_value_at_id_is_image_of_properties<P, C>(
        &mut self,
        id: Id,
        properties: &ImageProperties,
        properties_of: P,
        create: C,
    ) -> (r: &I)
        where
            P: Fn(&I) -> ImageProperties,
            C: FnOnce(ImageProperties) -> I,
        requires
            forall|img: &I| #[trigger] call_requires(properties_of, (img,)),
            call_requires(create, (*properties,)),
        ensures
            final(self).map@.dom() == old(self).map@.dom().insert(id),
            forall|k: Id| k != id && old(self).map@.dom().contains(k) ==> #[trigger] final(self).map@[k] == old(self).map@[k],
            final(self).map@[id] is Image,
            *r == final(self).map@[id]->Image_0,
            ({
                let held = old(self).map@.dom().contains(id) && old(self).map@[id] is Image;
                ||| held && final(self).map@[id] == old(self).map@[id] && exists|p: ImageProperties|
                    call_ensures(properties_of, (&old(self).map@[id]->Image_0,), p) && p == *properties
                ||| call_ensures(create, (*properties,), final(self).map@[id]->Image_0) && !(held && forall|p: ImageProperties|
                    call_ensures(properties_of, (&old(self).map@[id]->Image_0,), p) ==> p == *properties)
            }),
    {
        let mut needs_create_img = true;
        match self.map.get(&id) {
            None => {},
            Some(val) => match val {
                Value::Image(img) => {
                    let held = properties_of(img);
                    if image_properties_equal(&held, properties) {
                        needs_create_img = false;
                    }
                },
                _ => {},
            },
        }
        if needs_create_img {
            let new_img = create(*properties);
            self.map.insert(id, Value::Image(new_img));
        }
        match self.map.get(&id) {
            Some(v) => v.as_image(),
            None => unreached(),
        }
    }

    /// Makes the value at `id` a buffer of `properties`: the buffer held there
    /// is kept when `properties_of` reports these properties for it and
    /// `is_being_mapped` says it is not being mapped; otherwise `create` makes
    /// one, which is held there from then on. Returns the buffer.
    pub fn ensure_value_at_id_is_buffer_of_properties<P, M, C>(
        &mut self,
        id: Id,
        properties: &BufferProperties,
        properties_of: P,
        is_being_mapped: M,
        create: C,
    ) -> (r: &B)
        where
            P: Fn(&B) -> BufferProperties,
            M: Fn(&B) -> bool,
            C: FnOnce(BufferProperties) -> B,
        requires
            forall|buf: &B| #[trigger] call_requires(properties_of, (buf,)),
            forall|buf: &B| #[trigger] call_requires(is_being_mapped, (buf,)),
            call_requires(create, (*properties,)),
        ensures
            final(self).map@.dom() == old(self).map@.dom().insert(id),
            forall|k: Id| k != id && old(self).map@.dom().contains(k) ==> #[trigger] final(self).map@[k] == old(self).map@[k],
            final(self).map@[id] is Buffer,
            *r == final(self).map@[id]->Buffer_0,
            ({
                let held = old(self).map@.dom().contains(id) && old(self).map@[id] is Buffer;
                let buf = old(self).map@[id]->Buffer_0;
                ||| held && final(self).map@[id] == old(self).map@[id]
                    && (exists|p: BufferProperties| call_ensures(properties_of, (&buf,), p) && p == *properties)
                    && call_ensures(is_being_mapped, (&buf,), false)
                ||| call_ensures(create, (*properties,), final(self).map@[id]->Buffer_0) && !(held
                    && (forall|p: BufferProperties| call_ensures(properties_of, (&buf,), p) ==> p == *properties)
                    && (forall|m: bool| call_ensures(is_being_mapped, (&buf,), m) ==> !m))
            }),
    {
        let mut needs_create_buffer = true;
        match self.map.get(&id) {
            None => {},
            Some(val) => match val {
                Value::Buffer(buf) => {
                    let held = properties_of(buf);
                    // don't reuse buffers that are currently mapped
                    if held.size == properties.size && !is_being_mapped(buf) {
                        needs_create_buffer = false;
                    }
                },
                _ => {},
            },
        }
        if needs_create_buffer {
            let new_buf = create(*properties);
            self.map.insert(id, Value::Buffer(new_buf));
        }
        match self.map.get(&id) {
            Some(v) => v.as_buffer(),
            None => unreached(),
        }
    }
}

} // verus!
