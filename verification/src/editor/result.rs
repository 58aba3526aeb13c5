//! What running an edit leaves in the engine's value store that the editor
//! shows: the final image, the image after geometry alone, the histogram of
//! the final image, and the mask, mask terms and result of each masked edit.
use std::collections::HashMap;
use vstd::prelude::*;

use crate::editor::ir_generator::IdStore;
use crate::ir::id::Id;
use crate::ir::value::Value;

verus! {

broadcast use vstd::std_specs::hash::group_hash_axioms;

/// The images of one masked edit.
pub struct MaskedEditValues<'a, I> {
    pub mask: &'a I,
    pub mask_terms: Vec<&'a I>,
    pub result_image: &'a I,
}

/// The values the editor shows of a run of an edit.
pub struct ResultValues<'a, I, B> {
    pub final_image: &'a I,
    pub geometry_only: &'a I,
    pub final_histogram: &'a B,
    pub masked_edit_results: Vec<MaskedEditValues<'a, I>>,
}

/// The store holds an image at `id`.
pub open spec fn holds_image<I, B>(m: Map<Id, Value<I, B>>, id: Id) -> bool {
    m.dom().contains(id) && m[id] is Image
}

/// The store holds a buffer at `id`.
pub open spec fn holds_buffer<I, B>(m: Map<Id, Value<I, B>>, id: Id) -> bool {
    m.dom().contains(id) && m[id] is Buffer
}

/// The store holds every value that the ids of `st` name, of its kind.
pub open spec fn holds_results<I, B>(m: Map<Id, Value<I, B>>, st: IdStore) -> bool {
    &&& holds_image(m, st.final_image)
    &&& holds_image(m, st.geometry_only)
    &&& holds_buffer(m, st.final_histogram)
    &&& forall|i: int| 0 <= i < st.masked_edit_id_stores@.len() ==> {
        let ms = #[trigger] st.masked_edit_id_stores@[i];
        &&& holds_image(m, ms.mask_id)
        &&& holds_image(m, ms.result_image_id)
        &&& forall|j: int| 0 <= j < ms.term_ids@.len() ==> holds_image(m, #[trigger] ms.term_ids@[j])
    }
}

/// Whether the store holds an image at `id`.
pub fn has_image<I, B>(map: &HashMap<Id, Value<I, B>>, id: Id) -> (r: bool)
    ensures
        r == holds_image(map@, id),
{
    match map.get(&id) {
        Some(v) => v.is_image(),
        None => false,
    }
}

/// Whether the store holds an image at every id of `terms`.
fn has_images<I, B>(map: &HashMap<Id, Value<I, B>>, terms: &Vec<Id>) -> (r: bool)
    ensures
        r == forall|j: int| 0 <= j < terms@.len() ==> holds_image(map@, #[trigger] terms@[j]),
{
    let mut j: usize = 0;
    while j < terms.len()
        invariant
            j <= terms@.len(),
            forall|q: int| 0 <= q < j ==> holds_image(map@, #[trigger] terms@[q]),
        decreases terms@.len() - j,
    {
        if !has_image(map, terms[j]) {
            return false;
        }
        j = j + 1;
    }
    true
}

/// Whether the store holds every value that the ids of `id_store` name, of
/// its kind: the test to make before `collect_result_values`.
pub fn has_result_values<I, B>(map: &HashMap<Id, Value<I, B>>, id_store: &IdStore) -> (r: bool)
    ensures
        r == holds_results(map@, *id_store),
{
    if !has_image(map, id_store.final_image) || !has_image(map, id_store.geometry_only) {
        return false;
    }
    let histogram_ok = match map.get(&id_store.final_histogram) {
        Some(v) => v.is_buffer(),
        None => false,
    };
    if !histogram_ok {
        return false;
    }
    let stores = &id_store.masked_edit_id_stores;
    let mut i: usize = 0;
    while i < stores.len()
        invariant
            stores == &id_store.masked_edit_id_stores,
            i <= stores@.len(),
            forall|q: int| 0 <= q < i ==> {
                let ms = #[trigger] stores@[q];
                &&& holds_image(map@, ms.mask_id)
                &&& holds_image(map@, ms.result_image_id)
                &&& forall|j: int| 0 <= j < ms.term_ids@.len() ==> holds_image(map@, #[trigger] ms.term_ids@[j])
            },
        decreases stores@.len() - i,
    {
        let ms = &stores[i];
        if !has_image(map, ms.mask_id) || !has_image(map, ms.result_image_id) || !has_images(map, &ms.term_ids) {
            proof {
                assert(id_store.masked_edit_id_stores@[i as int] == *ms);
            }
            return false;
        }
        i = i + 1;
    }
    true
}

/// The image the store holds at `id`.
fn image_at<'a, I, B>(map: &'a HashMap<Id, Value<I, B>>, id: Id) -> (r: &'a I)
    requires
        holds_image(map@, id),
    ensures
        *r == map@[id]->Image_0,
{
    match map.get(&id) {
        Some(v) => v.as_image(),
        None => unreached(),
    }
}

/// Gathers from the value store what the editor shows of a run whose ids are
/// `id_store`.
pub fn collect_result_values<'a, I, B>(map: &'a HashMap<Id, Value<I, B>>, id_store: &IdStore) -> (r: ResultValues<'a, I, B>)
    requires
        holds_results(map@, *id_store),
    ensures
        *r.final_image == map@[id_store.final_image]->Image_0,
        *r.geometry_only == map@[id_store.geometry_only]->Image_0,
        *r.final_histogram == map@[id_store.final_histogram]->Buffer_0,
        r.masked_edit_results@.len() == id_store.masked_edit_id_stores@.len(),
        forall|i: int| 0 <= i < r.masked_edit_results@.len() ==> {
            let ms = id_store.masked_edit_id_stores@[i];
            let res = #[trigger] r.masked_edit_results@[i];
            &&& *res.mask == map@[ms.mask_id]->Image_0
            &&& *res.result_image == map@[ms.result_image_id]->Image_0
            &&& res.mask_terms@.len() == ms.term_ids@.len()
            &&& forall|j: int| 0 <= j < res.mask_terms@.len() ==> *(#[trigger] res.mask_terms@[j]) == map@[ms.term_ids@[j]]->Image_0
        },
{
    let final_image = image_at(map, id_store.final_image);
    let final_histogram = match map.get(&id_store.final_histogram) {
        Some(v) => v.as_buffer(),
        None => unreached(),
    };
    let mut masked_edit_results: Vec<MaskedEditValues<'a, I>> = Vec::new();
    let mut i: usize = 0;
    while i < id_store.masked_edit_id_stores.len()
        invariant
            holds_results(map@, *id_store),
            i <= id_store.masked_edit_id_stores@.len(),
            masked_edit_results@.len() == i,
            forall|x: int| 0 <= x < i ==> {
                let ms = id_store.masked_edit_id_stores@[x];
                let res = #[trigger] masked_edit_results@[x];
                &&& *res.mask == map@[ms.mask_id]->Image_0
                &&& *res.result_image == map@[ms.result_image_id]->Image_0
                &&& res.mask_terms@.len() == ms.term_ids@.len()
                &&& forall|j: int| 0 <= j < res.mask_terms@.len() ==> *(#[trigger] res.mask_terms@[j]) == map@[ms.term_ids@[j]]->Image_0
            },
        decreases id_store.masked_edit_id_stores@.len() - i,
    {
        let ms = &id_store.masked_edit_id_stores[i];
        proof {
            assert(holds_image(map@, ms.mask_id));
        }
        let mask = image_at(map, ms.mask_id);
        let mut mask_terms: Vec<&'a I> = Vec::new();
        let mut j: usize = 0;
        while j < ms.term_ids.len()
            invariant
                holds_results(map@, *id_store),
                i < id_store.masked_edit_id_stores@.len(),
                *ms == id_store.masked_edit_id_stores@[i as int],
                j <= ms.term_ids@.len(),
                mask_terms@.len() == j,
                forall|y: int| 0 <= y < j ==> *(#[trigger] mask_terms@[y]) == map@[ms.term_ids@[y]]->Image_0,
            decreases ms.term_ids@.len() - j,
        {
            proof {
                assert(holds_image(map@, ms.term_ids@[j as int]));
            }
            mask_terms.push(image_at(map, ms.term_ids[j]));
            j = j + 1;
        }
        let result_image = image_at(map, ms.result_image_id);
        masked_edit_results.push(MaskedEditValues { mask, mask_terms, result_image });
        i = i + 1;
    }
    let geometry_only = image_at(map, id_store.geometry_only);
    ResultValues { final_image, geometry_only, final_histogram, masked_edit_results }
}

} // verus!
