//! Images kept in memory, by identifier.
//!
//! Images of files sit in a bounded least-recently-used cache, so that one
//! can be read again from its file once it was dropped. Temporary images have
//! no file behind them, so they are always kept. The cache holds image
//! handles (integers); the caller keeps the image behind each handle, and
//! drops it when `set` or `remove` hands the handle back.
use std::collections::HashMap;
use vstd::prelude::*;

use crate::library::identifier::LibraryImageIdentifier;

verus! {

broadcast use vstd::std_specs::hash::group_hash_axioms;

/// The entries of a least-recently-used cache, from the most recently used
/// to the least recently used: a path and its image handle.
pub type LruEntries = Seq<(Seq<char>, u64)>;

/// No path has two entries.
pub open spec fn entry_keys_distinct(s: LruEntries) -> bool {
    forall|i: int, j: int| 0 <= i < j < s.len() ==> #[trigger] s[i].0 != #[trigger] s[j].0
}

/// The position of the entry of `k`, or -1 when there is none.
pub open spec fn entry_pos(s: LruEntries, k: Seq<char>) -> int {
    if exists|i: int| 0 <= i < s.len() && #[trigger] s[i].0 == k {
        choose|i: int| 0 <= i < s.len() && #[trigger] s[i].0 == k
    } else {
        -1
    }
}

/// The handle held for `k`, if any.
pub open spec fn entry_lookup(s: LruEntries, k: Seq<char>) -> Option<u64> {
    let p = entry_pos(s, k);
    if p >= 0 {
        Some(s[p].1)
    } else {
        None
    }
}

/// The entries after a look-up of `k`: its entry, if any, becomes the most
/// recently used.
pub open spec fn lru_touched(s: LruEntries, k: Seq<char>) -> LruEntries {
    let p = entry_pos(s, k);
    if p >= 0 {
        seq![s[p]] + s.remove(p)
    } else {
        s
    }
}

/// The entries after `k` was mapped to `v` in a cache of capacity `cap`, and
/// the entry that left: the one `k` had, or, when `k` had none and the cache
/// was full, the least recently used one. The new entry is the most recently
/// used.
pub open spec fn lru_pushed(s: LruEntries, cap: nat, k: Seq<char>, v: u64) -> (LruEntries, Option<(Seq<char>, u64)>) {
    let p = entry_pos(s, k);
    if p >= 0 {
        (seq![(k, v)] + s.remove(p), Some(s[p]))
    } else if s.len() < cap {
        (seq![(k, v)] + s, None)
    } else {
        (seq![(k, v)] + s.drop_last(), Some(s.last()))
    }
}

/// The entries after the entry of `k`, if any, was taken out.
pub open spec fn lru_removed(s: LruEntries, k: Seq<char>) -> LruEntries {
    let p = entry_pos(s, k);
    if p >= 0 {
        s.remove(p)
    } else {
        s
    }
}

/// A least-recently-used cache of `lru`, from the path of an image file to an
/// image handle.
#[verifier::external_body]
pub struct PathImageCache {
    inner: lru::LruCache<String, u64>,
}

/// The entries of the cache, from the most recently used to the least.
pub uninterp spec fn path_cache_entries(c: PathImageCache) -> LruEntries;

/// The number of entries the cache was made to hold at most.
pub uninterp spec fn path_cache_cap(c: PathImageCache) -> nat;

/// No path has two entries, the cache holds at most its capacity, which is
/// at least one.
pub open spec fn path_cache_bounded(c: PathImageCache) -> bool {
    &&& entry_keys_distinct(path_cache_entries(c))
    &&& path_cache_entries(c).len() <= path_cache_cap(c)
    &&& path_cache_cap(c) > 0
}

impl PathImageCache {
    /// `lru::LruCache::new`: an empty cache that holds at most `cap`
    /// entries.
    #[verifier::external_body]
    fn new(cap: usize) -> (r: PathImageCache)
        requires
            cap > 0,
        ensures
            path_cache_entries(r).len() == 0,
            path_cache_cap(r) == cap,
            path_cache_bounded(r),
    {
        PathImageCache { inner: lru::LruCache::new(std::num::NonZeroUsize::new(cap).unwrap()) }
    }

    /// `lru::LruCache::push`: maps `k` to `v`, as the most recently used
    /// entry. An entry already held for `k` is replaced and handed back;
    /// otherwise, when the cache is full, the least recently used entry
    /// leaves and is handed back.
    #[verifier::external_body]
    fn push(&mut self, k: String, v: u64) -> (r: Option<(String, u64)>)
        requires
            path_cache_bounded(*old(self)),
        ensures
            path_cache_bounded(*final(self)),
            path_cache_cap(*final(self)) == path_cache_cap(*old(self)),
            path_cache_entries(*final(self)) == lru_pushed(path_cache_entries(*old(self)), path_cache_cap(*old(self)), k@, v).0,
            lru_pushed(path_cache_entries(*old(self)), path_cache_cap(*old(self)), k@, v).1 == match r {
                Some((k2, v2)) => Some((k2@, v2)),
                None => None,
            },
    {
        self.inner.push(k, v)
    }

    /// `lru::LruCache::get`: the handle held for `k`, if any; its entry
    /// becomes the most recently used.
    #[verifier::external_body]
    fn get(&mut self, k: &str) -> (r: Option<u64>)
        requires
            path_cache_bounded(*old(self)),
        ensures
            path_cache_bounded(*final(self)),
            path_cache_cap(*final(self)) == path_cache_cap(*old(self)),
            path_cache_entries(*final(self)) == lru_touched(path_cache_entries(*old(self)), k@),
            r == entry_lookup(path_cache_entries(*old(self)), k@),
    {
        self.inner.get(k).copied()
    }

    /// `lru::LruCache::contains`: whether an entry is held for `k` (the order
    /// of use does not change).
    #[verifier::external_body]
    fn contains(&self, k: &str) -> (r: bool)
        ensures
            r == entry_lookup(path_cache_entries(*self), k@) is Some,
    {
        self.inner.contains(k)
    }

    /// `lru::LruCache::pop`: takes out the entry held for `k`, if any, and
    /// returns its handle.
    #[verifier::external_body]
    fn pop(&mut self, k: &str) -> (r: Option<u64>)
        requires
            path_cache_bounded(*old(self)),
        ensures
            path_cache_bounded(*final(self)),
            path_cache_cap(*final(self)) == path_cache_cap(*old(self)),
            path_cache_entries(*final(self)) == lru_removed(path_cache_entries(*old(self)), k@),
            r == entry_lookup(path_cache_entries(*old(self)), k@),
    {
        self.inner.pop(k)
    }
}

/// What an image cache holds: the entries of image files, from the most
/// recently used, the handles of temporary images by uuid, and how many
/// image files it holds at most.
pub struct ImageCacheView {
    pub paths: LruEntries,
    pub temps: Map<u32, u64>,
    pub capacity: nat,
}

impl ImageCacheView {
    /// The handle held for `identifier`, if any.
    pub open spec fn lookup(self, identifier: LibraryImageIdentifier) -> Option<u64> {
        match identifier {
            LibraryImageIdentifier::Temp(u) => self.temps.get(u),
            LibraryImageIdentifier::Path(p) => entry_lookup(self.paths, p@),
        }
    }

    /// The cache after a look-up of `identifier`.
    pub open spec fn after_get(self, identifier: LibraryImageIdentifier) -> Self {
        match identifier {
            LibraryImageIdentifier::Temp(_) => self,
            LibraryImageIdentifier::Path(p) => ImageCacheView { paths: lru_touched(self.paths, p@), ..self },
        }
    }

    /// The cache after `image` was set for `identifier`.
    pub open spec fn after_set(self, identifier: LibraryImageIdentifier, image: u64) -> Self {
        match identifier {
            LibraryImageIdentifier::Temp(u) => ImageCacheView { temps: self.temps.insert(u, image), ..self },
            LibraryImageIdentifier::Path(p) => ImageCacheView {
                paths: lru_pushed(self.paths, self.capacity, p@, image).0,
                ..self
            },
        }
    }

    /// The handle that setting `image` for `identifier` makes the cache stop
    /// holding: the one `identifier` held, or the least recently used image
    /// file, when `identifier` is a new file and the cache of files is full.
    pub open spec fn displaced_by_set(self, identifier: LibraryImageIdentifier, image: u64) -> Option<u64> {
        match identifier {
            LibraryImageIdentifier::Temp(u) => self.temps.get(u),
            LibraryImageIdentifier::Path(p) => match lru_pushed(self.paths, self.capacity, p@, image).1 {
                Some(e) => Some(e.1),
                None => None,
            },
        }
    }

    /// The cache after `identifier` was removed.
    pub open spec fn after_remove(self, identifier: LibraryImageIdentifier) -> Self {
        match identifier {
            LibraryImageIdentifier::Temp(u) => ImageCacheView { temps: self.temps.remove(u), ..self },
            LibraryImageIdentifier::Path(p) => ImageCacheView { paths: lru_removed(self.paths, p@), ..self },
        }
    }

    /// The cache after one request.
    pub open spec fn after(self, request: CacheRequest) -> Self {
        match request {
            CacheRequest::Lookup(id) => self.after_get(id),
            CacheRequest::Store(id, image) => self.after_set(id, image),
            CacheRequest::Discard(id) => self.after_remove(id),
        }
    }

    /// The cache after the requests, in order.
    pub open spec fn after_all(self, requests: Seq<CacheRequest>) -> Self
        decreases requests.len(),
    {
        if requests.len() == 0 {
            self
        } else {
            self.after_all(requests.drop_last()).after(requests.last())
        }
    }
}

/// A request to an image cache: `get` (a look-up), `set` (a store) or
/// `remove` (a discard); `contains` changes nothing.
pub enum CacheRequest {
    Lookup(LibraryImageIdentifier),
    Store(LibraryImageIdentifier, u64),
    Discard(LibraryImageIdentifier),
}

impl CacheRequest {
    /// The request sets or removes the temporary image `u`.
    pub open spec fn writes_temp(self, u: u32) -> bool {
        match self {
            CacheRequest::Lookup(_) => false,
            CacheRequest::Store(id, _) => id == LibraryImageIdentifier::Temp(u),
            CacheRequest::Discard(id) => id == LibraryImageIdentifier::Temp(u),
        }
    }
}

/// Temporary images are never dropped by the cache: whatever requests
/// follow, however many image files they set, the handle held for a
/// temporary image stays until a request sets or removes that image.
pub proof fn lemma_temporary_images_kept(v: ImageCacheView, requests: Seq<CacheRequest>, u: u32)
    requires
        forall|i: int| 0 <= i < requests.len() ==> !(#[trigger] requests[i]).writes_temp(u),
    ensures
        v.after_all(requests).lookup(LibraryImageIdentifier::Temp(u)) == v.lookup(LibraryImageIdentifier::Temp(u)),
    decreases requests.len(),
{
    if requests.len() > 0 {
        let prefix = requests.drop_last();
        assert forall|i: int| 0 <= i < prefix.len() implies !(#[trigger] prefix[i]).writes_temp(u) by {
            assert(prefix[i] == requests[i]);
        }
        lemma_temporary_images_kept(v, prefix, u);
        assert(!requests[requests.len() - 1].writes_temp(u));
    }
}

/// Image handles by identifier: those of files in a bounded cache, those of
/// temporary images in a map that is never pruned.
pub struct ImageCache {
    path_images_cache: PathImageCache,
    temp_images: HashMap<u32, u64>,
}

impl ImageCache {
    pub closed spec fn spec_view(self) -> ImageCacheView {
        ImageCacheView {
            paths: path_cache_entries(self.path_images_cache),
            temps: self.temp_images@,
            capacity: path_cache_cap(self.path_images_cache),
        }
    }

    pub closed spec fn well_formed(self) -> bool {
        path_cache_bounded(self.path_images_cache)
    }

    /// A cache that holds at most `size` image files, and no image yet.
    pub fn new(size: usize) -> (r: Self)
        requires
            size > 0,
        ensures
            r.well_formed(),
            r.spec_view().paths.len() == 0,
            r.spec_view().temps == Map::<u32, u64>::empty(),
            r.spec_view().capacity == size,
    {
        ImageCache { path_images_cache: PathImageCache::new(size), temp_images: HashMap::new() }
    }

    /// The handle held for `identifier`, if any; an image file looked up
    /// becomes the most recently used.
    pub fn get(&mut self, identifier: &LibraryImageIdentifier) -> (r: Option<u64>)
        requires
            old(self).well_formed(),
        ensures
            final(self).well_formed(),
            final(self).spec_view() == old(self).spec_view().after_get(*identifier),
            r == old(self).spec_view().lookup(*identifier),
    {
        match identifier {
            LibraryImageIdentifier::Temp(u) => match self.temp_images.get(u) {
                Some(h) => Some(*h),
                None => None,
            },
            LibraryImageIdentifier::Path(p) => self.path_images_cache.get(p.as_str()),
        }
    }

    /// Holds `image` for `identifier`. A temporary image is always kept; an
    /// image file enters the bounded cache as the most recently used, and
    /// when the cache is full the least recently used file leaves. Returns
    /// the handle that is no longer held.
    pub fn set(&mut self, identifier: LibraryImageIdentifier, image: u64) -> (displaced: Option<u64>)
        requires
            old(self).well_formed(),
        ensures
            final(self).well_formed(),
            final(self).spec_view() == old(self).spec_view().after_set(identifier, image),
            displaced == old(self).spec_view().displaced_by_set(identifier, image),
    {
        match identifier {
            LibraryImageIdentifier::Temp(u) => self.temp_images.insert(u, image),
            LibraryImageIdentifier::Path(p) => match self.path_images_cache.push(p, image) {
                Some((_, h)) => Some(h),
                None => None,
            },
        }
    }

    /// Whether a handle is held for `identifier`. Nothing held changes.
    pub fn contains(&mut self, identifier: &LibraryImageIdentifier) -> (r: bool)
        requires
            old(self).well_formed(),
        ensures
            *final(self) == *old(self),
            r == old(self).spec_view().lookup(*identifier) is Some,
    {
        match identifier {
            LibraryImageIdentifier::Temp(u) => self.temp_images.contains_key(u),
            LibraryImageIdentifier::Path(p) => self.path_images_cache.contains(p.as_str()),
        }
    }

    /// Stops holding `identifier`; returns the handle it held, if any.
    pub fn remove(&mut self, identifier: &LibraryImageIdentifier) -> (r: Option<u64>)
        requires
            old(self).well_formed(),
        ensures
            final(self).well_formed(),
            final(self).spec_view() == old(self).spec_view().after_remove(*identifier),
            r == old(self).spec_view().lookup(*identifier),
    {
        match identifier {
            LibraryImageIdentifier::Temp(u) => self.temp_images.remove(u),
            LibraryImageIdentifier::Path(p) => self.path_images_cache.pop(p.as_str()),
        }
    }
}

} // verus!
