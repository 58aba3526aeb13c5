//! Albums, and how a list of images is kept in name order together with the
//! position of each image in it.
use vstd::prelude::*;

use crate::library::catalog::LibraryItem;
use crate::library::identifier::{lemma_identifier_eq_key, IdKey, LibraryImageIdentifier};
use crate::library::identifier_map::IdentifierMap;
use crate::library::metadata::AlbumPersistentState;
use crate::library::ordering::{
    insert_pos, insert_sorted, lemma_insert_pos, lemma_insert_pos_unique, lemma_sort_by_name, name_less, name_lt,
    opt_chars, sort_by_name, sorted_by_name,
};

verus! {

/// The keys of the images listed in `s`.
pub open spec fn key_set(s: Seq<LibraryImageIdentifier>) -> Set<IdKey> {
    Set::new(|k: IdKey| exists|i: int| 0 <= i < s.len() && #[trigger] s[i].spec_key() == k)
}

/// No image is listed twice in `s`.
pub open spec fn keys_unique(s: Seq<LibraryImageIdentifier>) -> bool {
    forall|i: int, j: int|
        0 <= i < s.len() && 0 <= j < s.len() && i != j ==> #[trigger] s[i].spec_key()
            != #[trigger] s[j].spec_key()
}

/// The position of each image of `s`: where it is last listed.
pub open spec fn index_map(s: Seq<LibraryImageIdentifier>) -> Map<IdKey, usize>
    decreases s.len(),
{
    if s.len() == 0 {
        Map::empty()
    } else {
        index_map(s.drop_last()).insert(s.last().spec_key(), (s.len() - 1) as usize)
    }
}

/// The positions name exactly the images of `s`, each at the last place
/// where it is listed.
pub proof fn lemma_index_map(s: Seq<LibraryImageIdentifier>)
    requires
        s.len() <= usize::MAX,
    ensures
        index_map(s).dom() == key_set(s),
        forall|k: IdKey| #[trigger] index_map(s).dom().contains(k) ==> {
            &&& index_map(s)[k] < s.len()
            &&& s[index_map(s)[k] as int].spec_key() == k
        },
        forall|i: int| 0 <= i < s.len() ==> i <= #[trigger] index_map(s)[s[i].spec_key()],
    decreases s.len(),
{
    if s.len() > 0 {
        let t = s.drop_last();
        lemma_index_map(t);
        let m = index_map(s);
        assert forall|k: IdKey| #[trigger] m.dom().contains(k) <==> key_set(s).contains(k) by {
            if key_set(t).contains(k) {
                let i = choose|i: int| 0 <= i < t.len() && #[trigger] t[i].spec_key() == k;
                assert(s[i] == t[i]);
            }
            if key_set(s).contains(k) && k != s.last().spec_key() {
                let i = choose|i: int| 0 <= i < s.len() && #[trigger] s[i].spec_key() == k;
                assert(t[i] == s[i]);
                assert(key_set(t).contains(k));
            }
            if k == s.last().spec_key() {
                assert(s[s.len() - 1].spec_key() == k);
            }
        }
        assert(m.dom() =~= key_set(s));
        assert forall|k: IdKey| #[trigger] m.dom().contains(k) implies m[k] < s.len() && s[m[k] as int].spec_key() == k by {
            if k != s.last().spec_key() {
                assert(s[index_map(t)[k] as int] == t[index_map(t)[k] as int]);
            }
        }
        assert forall|i: int| 0 <= i < s.len() implies i <= #[trigger] m[s[i].spec_key()] by {
            if i < s.len() - 1 && s[i].spec_key() != s.last().spec_key() {
                assert(s[i] == t[i]);
            }
        }
    }
}

/// Inserting an image adds its key; into a list without repeats, an image
/// not yet listed keeps it without repeats.
pub proof fn lemma_insert_keys(s: Seq<LibraryImageIdentifier>, p: int, x: LibraryImageIdentifier)
    requires
        0 <= p <= s.len(),
    ensures
        key_set(s.insert(p, x)) == key_set(s).insert(x.spec_key()),
        keys_unique(s) && !key_set(s).contains(x.spec_key()) ==> keys_unique(s.insert(p, x)),
{
    let t = s.insert(p, x);
    assert forall|k: IdKey| #[trigger] key_set(t).contains(k) <==> key_set(s).insert(x.spec_key()).contains(k) by {
        if key_set(t).contains(k) {
            let i = choose|i: int| 0 <= i < t.len() && #[trigger] t[i].spec_key() == k;
            if i < p {
                assert(t[i] == s[i]);
            } else if i > p {
                assert(t[i] == s[i - 1]);
            }
        }
        if key_set(s).contains(k) {
            let i = choose|i: int| 0 <= i < s.len() && #[trigger] s[i].spec_key() == k;
            if i < p {
                assert(t[i] == s[i]);
            } else {
                assert(t[i + 1] == s[i]);
            }
        }
        if k == x.spec_key() {
            assert(t[p] == x);
        }
    }
    assert(key_set(t) =~= key_set(s).insert(x.spec_key()));
    if keys_unique(s) && !key_set(s).contains(x.spec_key()) {
        assert forall|i: int, j: int|
            0 <= i < t.len() && 0 <= j < t.len() && i != j implies #[trigger] t[i].spec_key()
                != #[trigger] t[j].spec_key() by {
            let si = if i < p { i } else { i - 1 };
            let sj = if j < p { j } else { j - 1 };
            if i == p {
                assert(t[j] == s[sj]);
            } else if j == p {
                assert(t[i] == s[si]);
            } else {
                assert(t[i] == s[si]);
                assert(t[j] == s[sj]);
            }
        }
    }
}

/// Taking out an image of a list without repeats takes out its key.
pub proof fn lemma_remove_keys(s: Seq<LibraryImageIdentifier>, p: int)
    requires
        0 <= p < s.len(),
        keys_unique(s),
    ensures
        key_set(s.remove(p)) == key_set(s).remove(s[p].spec_key()),
        keys_unique(s.remove(p)),
{
    let t = s.remove(p);
    assert forall|k: IdKey| #[trigger] key_set(t).contains(k) <==> key_set(s).remove(s[p].spec_key()).contains(k) by {
        if key_set(t).contains(k) {
            let i = choose|i: int| 0 <= i < t.len() && #[trigger] t[i].spec_key() == k;
            let si = if i < p { i } else { i + 1 };
            assert(t[i] == s[si]);
        }
        if key_set(s).contains(k) && k != s[p].spec_key() {
            let i = choose|i: int| 0 <= i < s.len() && #[trigger] s[i].spec_key() == k;
            let ti = if i < p { i } else { i - 1 };
            assert(t[ti] == s[i]);
        }
    }
    assert(key_set(t) =~= key_set(s).remove(s[p].spec_key()));
    assert forall|i: int, j: int|
        0 <= i < t.len() && 0 <= j < t.len() && i != j implies #[trigger] t[i].spec_key()
            != #[trigger] t[j].spec_key() by {
        let si = if i < p { i } else { i + 1 };
        let sj = if j < p { j } else { j + 1 };
        assert(t[i] == s[si]);
        assert(t[j] == s[sj]);
    }
}

/// Sorting keeps the keys of a list, and a list without repeats stays so.
pub proof fn lemma_sort_keys(s: Seq<LibraryImageIdentifier>, key: spec_fn(LibraryImageIdentifier) -> Option<Seq<char>>)
    ensures
        key_set(sort_by_name(s, key)) == key_set(s),
        keys_unique(s) ==> keys_unique(sort_by_name(s, key)),
    decreases s.len(),
{
    if s.len() > 0 {
        let t = s.drop_last();
        lemma_sort_keys(t, key);
        lemma_sort_by_name(t, key);
        let st = sort_by_name(t, key);
        lemma_insert_pos(st, key, key(s.last()));
        lemma_insert_keys(st, insert_pos(st, key, key(s.last())), s.last());
        assert(key_set(s) =~= key_set(t).insert(s.last().spec_key())) by {
            assert(s =~= t.push(s.last()));
            lemma_insert_keys(t, t.len() as int, s.last());
            assert(t.insert(t.len() as int, s.last()) =~= t.push(s.last()));
        }
        if keys_unique(s) {
            assert(keys_unique(t)) by {
                assert forall|i: int, j: int|
                    0 <= i < t.len() && 0 <= j < t.len() && i != j implies #[trigger] t[i].spec_key()
                        != #[trigger] t[j].spec_key() by {
                    assert(t[i] == s[i]);
                    assert(t[j] == s[j]);
                }
            }
            assert(!key_set(t).contains(s.last().spec_key())) by {
                if key_set(t).contains(s.last().spec_key()) {
                    let i = choose|i: int| 0 <= i < t.len() && #[trigger] t[i].spec_key() == s.last().spec_key();
                    assert(t[i] == s[i]);
                }
            }
        }
    }
}

/// A list without repeats has one key per image.
pub proof fn lemma_key_set_len(s: Seq<LibraryImageIdentifier>)
    requires
        keys_unique(s),
    ensures
        key_set(s).finite(),
        key_set(s).len() == s.len(),
    decreases s.len(),
{
    if s.len() == 0 {
        assert(key_set(s) =~= Set::<IdKey>::empty());
    } else {
        let t = s.drop_last();
        assert(keys_unique(t)) by {
            assert forall|i: int, j: int|
                0 <= i < t.len() && 0 <= j < t.len() && i != j implies #[trigger] t[i].spec_key()
                    != #[trigger] t[j].spec_key() by {
                assert(t[i] == s[i]);
                assert(t[j] == s[j]);
            }
        }
        lemma_key_set_len(t);
        lemma_insert_keys(t, t.len() as int, s.last());
        assert(t.insert(t.len() as int, s.last()) =~= s);
        assert(!key_set(t).contains(s.last().spec_key())) by {
            if key_set(t).contains(s.last().spec_key()) {
                let i = choose|i: int| 0 <= i < t.len() && #[trigger] t[i].spec_key() == s.last().spec_key();
                assert(t[i] == s[i]);
            }
        }
    }
}

/// The name of an image, looked up in `items`; an image that is not there
/// has no name.
pub open spec fn item_name<I>(items: Map<IdKey, LibraryItem<I>>) -> spec_fn(LibraryImageIdentifier) -> Option<Seq<char>> {
    |id: LibraryImageIdentifier|
        if items.dom().contains(id.spec_key()) {
            opt_chars(items[id.spec_key()].metadata.name)
        } else {
            None
        }
}

/// What an album holds.
pub struct AlbumView {
    pub name: Seq<char>,
    pub directory: Option<Seq<char>>,
    pub additional_images: Seq<LibraryImageIdentifier>,
    pub items_ordered: Seq<LibraryImageIdentifier>,
    pub items_order_dirty: bool,
}

/// An album: a directory's images and images added by hand, listed in name
/// order unless images were appended since it was last ordered.
pub struct Album {
    pub name: String,
    pub directory: Option<String>,
    // images that are not in directory
    pub additional_images: Vec<LibraryImageIdentifier>,
    items_ordered: Vec<LibraryImageIdentifier>,
    item_indices: IdentifierMap<usize>,
    items_order_dirty: bool,
}

impl View for Album {
    type V = AlbumView;

    closed spec fn view(&self) -> AlbumView {
        AlbumView {
            name: self.name@,
            directory: match self.directory {
                Some(d) => Some(d@),
                None => None,
            },
            additional_images: self.additional_images@,
            items_ordered: self.items_ordered@,
            items_order_dirty: self.items_order_dirty,
        }
    }
}

impl AlbumView {
    /// The album with another list of images.
    pub open spec fn with_items(self, items_ordered: Seq<LibraryImageIdentifier>, dirty: bool) -> AlbumView {
        AlbumView {
            name: self.name,
            directory: self.directory,
            additional_images: self.additional_images,
            items_ordered,
            items_order_dirty: dirty,
        }
    }

    /// The album with the image of key `k` taken out: its first mention among
    /// the images added by hand, and the place recorded for it in the list.
    pub open spec fn without(self, k: IdKey) -> AlbumView {
        AlbumView {
            name: self.name,
            directory: self.directory,
            additional_images: without_first(self.additional_images, k),
            items_ordered: if index_map(self.items_ordered).dom().contains(k) {
                self.items_ordered.remove(index_map(self.items_ordered)[k] as int)
            } else {
                self.items_ordered
            },
            items_order_dirty: self.items_order_dirty,
        }
    }
}

impl AlbumView {
    /// The album after `image` was added by hand: unless it is listed
    /// already, it joins the images added by hand and the list, appended
    /// when the album is out of order, else in name order.
    pub open spec fn with_existing(self, name: spec_fn(LibraryImageIdentifier) -> Option<Seq<char>>, image: LibraryImageIdentifier) -> AlbumView {
        if key_set(self.items_ordered).contains(image.spec_key()) {
            self
        } else {
            AlbumView {
                name: self.name,
                directory: self.directory,
                additional_images: self.additional_images.push(image),
                items_ordered: if self.items_order_dirty {
                    self.items_ordered.push(image)
                } else {
                    insert_sorted(self.items_ordered, name, image)
                },
                items_order_dirty: self.items_order_dirty,
            }
        }
    }
}

/// `s` without the first image of key `k`.
pub open spec fn without_first(s: Seq<LibraryImageIdentifier>, k: IdKey) -> Seq<LibraryImageIdentifier>
    decreases s.len(),
{
    if s.len() == 0 {
        s
    } else if s[0].spec_key() == k {
        s.drop_first()
    } else {
        seq![s[0]] + without_first(s.drop_first(), k)
    }
}

/// Taking out the image at the first position of key `k`.
proof fn lemma_without_first(s: Seq<LibraryImageIdentifier>, k: IdKey, p: int)
    requires
        0 <= p <= s.len(),
        forall|j: int| 0 <= j < p ==> #[trigger] s[j].spec_key() != k,
        p < s.len() ==> s[p].spec_key() == k,
    ensures
        without_first(s, k) == if p < s.len() { s.remove(p) } else { s },
    decreases s.len(),
{
    if s.len() > 0 && p > 0 {
        let t = s.drop_first();
        assert forall|j: int| 0 <= j < p - 1 implies #[trigger] t[j].spec_key() != k by {
            assert(t[j] == s[j + 1]);
        }
        if p < s.len() {
            assert(t[p - 1] == s[p]);
        }
        lemma_without_first(t, k, p - 1);
        assert(s[0].spec_key() != k);
        if p < s.len() {
            assert(seq![s[0]] + t.remove(p - 1) =~= s.remove(p));
        } else {
            assert(seq![s[0]] + t =~= s);
        }
    } else if s.len() > 0 {
        assert(s.drop_first() =~= s.remove(0));
    }
}

pub open spec fn opt_string_view(s: Option<String>) -> Option<Seq<char>> {
    match s {
        Some(d) => Some(d@),
        None => None,
    }
}

impl Album {
    /// The position recorded for each listed image is where it stands.
    pub closed spec fn well_formed(self) -> bool {
        &&& self.item_indices.well_formed()
        &&& self.item_indices@ == index_map(self.items_ordered@)
        &&& self.items_ordered@.len() == self.items_ordered.len()
    }

    /// An album with no images listed yet.
    pub fn new(name: String, directory: Option<String>, additional_images: Vec<LibraryImageIdentifier>) -> (r: Self)
        ensures
            r.well_formed(),
            r@ == (AlbumView {
                name: name@,
                directory: opt_string_view(directory),
                additional_images: additional_images@,
                items_ordered: Seq::empty(),
                items_order_dirty: false,
            }),
    {
        Album {
            name,
            directory,
            additional_images,
            items_ordered: Vec::new(),
            item_indices: IdentifierMap::new(),
            items_order_dirty: false,
        }
    }

    /// What is saved of the album.
    pub fn get_persistent_state(&self) -> (r: AlbumPersistentState)
        ensures
            r.name@ == self@.name,
            opt_string_view(r.directory) == self@.directory,
            r.additional_images@ == self@.additional_images,
    {
        let additional_images = copy_identifiers(&self.additional_images);
        AlbumPersistentState {
            name: self.name.clone(),
            directory: match &self.directory {
                Some(d) => Some(d.clone()),
                None => None,
            },
            additional_images,
        }
    }

    /// The album that a saved state describes, with no images listed yet.
    pub fn from_persistent_state(state: AlbumPersistentState) -> (r: Self)
        ensures
            r.well_formed(),
            r@ == (AlbumView {
                name: state.name@,
                directory: opt_string_view(state.directory),
                additional_images: state.additional_images@,
                items_ordered: Seq::empty(),
                items_order_dirty: false,
            }),
    {
        Self::new(state.name, state.directory, state.additional_images)
    }

    pub fn num_images(&self) -> (r: usize)
        ensures
            r == self@.items_ordered.len(),
    {
        self.items_ordered.len()
    }

    /// The image is listed in the album.
    pub fn contains_image(&self, image: &LibraryImageIdentifier) -> (r: bool)
        requires
            self.well_formed(),
        ensures
            r == key_set(self@.items_ordered).contains(image.spec_key()),
    {
        proof {
            lemma_index_map(self.items_ordered@);
        }
        self.item_indices.contains_key(image)
    }
}

impl Album {
    /// Inserts `id` into the list in name order; the album is then in order.
    pub(crate) fn insert_in_order<I>(&mut self, all_items: &IdentifierMap<LibraryItem<I>>, id: LibraryImageIdentifier)
        requires
            old(self).well_formed(),
            all_items.well_formed(),
        ensures
            final(self).well_formed(),
            final(self)@ == old(self)@.with_items(
                insert_sorted(old(self)@.items_ordered, item_name(all_items@), id),
                false,
            ),
    {
        ordered_insert(all_items, &mut self.items_ordered, id);
        rebuild_indices(&self.items_ordered, &mut self.item_indices);
        self.items_order_dirty = false;
    }

    /// Appends `id` to the list; the album is then out of order.
    pub(crate) fn append(&mut self, id: LibraryImageIdentifier)
        requires
            old(self).well_formed(),
        ensures
            final(self).well_formed(),
            final(self)@ == old(self)@.with_items(old(self)@.items_ordered.push(id), true),
    {
        let ghost s = self.items_ordered@;
        self.items_ordered.push(id.duplicate());
        let index = self.items_ordered.len() - 1;
        proof {
            assert(self.items_ordered@.drop_last() =~= s);
        }
        self.item_indices.insert(id, index);
        self.items_order_dirty = true;
    }

    /// Puts the list in name order, unless images were appended to it since
    /// it was last ordered.
    pub(crate) fn ensure_order<I>(&mut self, all_items: &IdentifierMap<LibraryItem<I>>)
        requires
            old(self).well_formed(),
            all_items.well_formed(),
        ensures
            final(self).well_formed(),
            final(self)@ == if old(self)@.items_order_dirty {
                old(self)@
            } else {
                old(self)@.with_items(sort_by_name(old(self)@.items_ordered, item_name(all_items@)), false)
            },
    {
        if self.items_order_dirty {
            return;
        }
        ensure_items_order_impl(all_items, &mut self.items_ordered, &mut self.item_indices);
        self.items_order_dirty = false;
    }

    /// Takes `image` out of the album: out of the images added by hand, and
    /// out of the list.
    pub(crate) fn remove_image(&mut self, image: &LibraryImageIdentifier)
        requires
            old(self).well_formed(),
        ensures
            final(self).well_formed(),
            final(self)@ == old(self)@.without(image.spec_key()),
    {
        let ghost k = image.spec_key();
        let mut p: usize = 0;
        while p < self.additional_images.len()
            invariant
                k == image.spec_key(),
                p <= self.additional_images@.len(),
                self.additional_images@ == old(self).additional_images@,
                forall|j: int| 0 <= j < p ==> #[trigger] self.additional_images@[j].spec_key() != k,
            ensures
                p <= self.additional_images@.len(),
                self.additional_images@ == old(self).additional_images@,
                forall|j: int| 0 <= j < p ==> #[trigger] self.additional_images@[j].spec_key() != k,
                p < self.additional_images@.len() ==> self.additional_images@[p as int].spec_key() == k,
            decreases self.additional_images@.len() - p,
        {
            let found = self.additional_images[p].equals(image);
            proof {
                lemma_identifier_eq_key(self.additional_images@[p as int], *image);
            }
            if found {
                break;
            }
            p = p + 1;
        }
        proof {
            lemma_without_first(self.additional_images@, k, p as int);
        }
        if p < self.additional_images.len() {
            self.additional_images.remove(p);
        }
        proof {
            lemma_index_map(self.items_ordered@);
        }
        match self.item_indices.get(image) {
            Some(index) => {
                let index = *index;
                self.items_ordered.remove(index);
                rebuild_indices(&self.items_ordered, &mut self.item_indices);
            },
            None => {},
        }
    }

    /// Adds `image`, if it is not listed yet, to the images added by hand and
    /// to the list: appended when the album is out of order, else in name order.
    pub(crate) fn add_existing_image<I>(&mut self, all_items: &IdentifierMap<LibraryItem<I>>, image: &LibraryImageIdentifier)
        requires
            old(self).well_formed(),
            all_items.well_formed(),
        ensures
            final(self).well_formed(),
            final(self)@ == old(self)@.with_existing(item_name(all_items@), *image),
    {
        if !self.contains_image(image) {
            self.additional_images.push(image.duplicate());
            if self.items_order_dirty {
                self.append(image.duplicate());
            } else {
                self.insert_in_order(all_items, image.duplicate());
            }
        }
    }

    /// Lists exactly `all_images`, in that order.
    pub(crate) fn set_listing(&mut self, all_images: Vec<LibraryImageIdentifier>)
        requires
            old(self).well_formed(),
        ensures
            final(self).well_formed(),
            final(self)@ == old(self)@.with_items(all_images@, old(self)@.items_order_dirty),
    {
        self.items_ordered = all_images;
        rebuild_indices(&self.items_ordered, &mut self.item_indices);
    }

    /// A copy of the images added by hand.
    pub(crate) fn copy_additional_images(&self) -> (r: Vec<LibraryImageIdentifier>)
        ensures
            r@ == self@.additional_images,
    {
        copy_identifiers(&self.additional_images)
    }

    /// The album is backed by a directory.
    pub(crate) fn has_directory(&self) -> (r: bool)
        ensures
            r == self@.directory is Some,
    {
        self.directory.is_some()
    }

    /// The album is backed by the directory `dir`.
    pub(crate) fn is_of_directory(&self, dir: &String) -> (r: bool)
        ensures
            r == (self@.directory == Some(dir@)),
    {
        match &self.directory {
            Some(d) => *d == *dir,
            None => false,
        }
    }

    /// Images were appended to the list since it was last ordered.
    pub(crate) fn is_order_dirty(&self) -> (r: bool)
        ensures
            r == self@.items_order_dirty,
    {
        self.items_order_dirty
    }

    /// The image at `index` in the list.
    pub(crate) fn item_at(&self, index: usize) -> (r: &LibraryImageIdentifier)
        requires
            index < self@.items_ordered.len(),
        ensures
            *r == self@.items_ordered[index as int],
    {
        &self.items_ordered[index]
    }
}

/// A copy of a list of identifiers.
pub fn copy_identifiers(v: &Vec<LibraryImageIdentifier>) -> (r: Vec<LibraryImageIdentifier>)
    ensures
        r@ == v@,
{
    let mut r: Vec<LibraryImageIdentifier> = Vec::new();
    let mut i: usize = 0;
    while i < v.len()
        invariant
            i <= v@.len(),
            r@ == v@.take(i as int),
        decreases v@.len() - i,
    {
        r.push(v[i].duplicate());
        proof {
            assert(v@.take(i + 1) =~= v@.take(i as int).push(v@[i as int]));
        }
        i = i + 1;
    }
    proof {
        assert(v@.take(i as int) =~= v@);
    }
    r
}

/// `name` comes before the name of `id`, looked up in `all_items`.
fn name_before<I>(all_items: &IdentifierMap<LibraryItem<I>>, name: &Option<String>, id: &LibraryImageIdentifier) -> (r: bool)
    requires
        all_items.well_formed(),
    ensures
        r == name_lt(opt_chars(*name), item_name(all_items@)(*id)),
{
    match all_items.get(id) {
        Some(item) => name_less(name, &item.metadata.name),
        None => false,
    }
}

/// Inserts `identifier` into `items_ordered` before the first image whose
/// name is greater than its own; returns the position.
pub fn ordered_insert<I>(
    all_items: &IdentifierMap<LibraryItem<I>>,
    items_ordered: &mut Vec<LibraryImageIdentifier>,
    identifier: LibraryImageIdentifier,
) -> (r: usize)
    requires
        all_items.well_formed(),
    ensures
        r == insert_pos(old(items_ordered)@, item_name(all_items@), item_name(all_items@)(identifier)),
        final(items_ordered)@ == insert_sorted(old(items_ordered)@, item_name(all_items@), identifier),
{
    let ghost key = item_name(all_items@);
    let no_name: Option<String> = None;
    let name = match all_items.get(&identifier) {
        Some(item) => &item.metadata.name,
        None => &no_name,
    };
    let mut i: usize = 0;
    while i < items_ordered.len()
        invariant
            all_items.well_formed(),
            items_ordered@ == old(items_ordered)@,
            opt_chars(*name) == key(identifier),
            key == item_name(all_items@),
            i <= items_ordered@.len(),
            forall|j: int| 0 <= j < i ==> !name_lt(key(identifier), #[trigger] key(items_ordered@[j])),
        decreases items_ordered@.len() - i,
    {
        if name_before(all_items, name, &items_ordered[i]) {
            proof {
                lemma_insert_pos_unique(items_ordered@, key, key(identifier), i as int);
            }
            items_ordered.insert(i, identifier);
            return i;
        }
        i = i + 1;
    }
    proof {
        lemma_insert_pos_unique(items_ordered@, key, key(identifier), i as int);
        assert(items_ordered@.insert(i as int, identifier) =~= items_ordered@.push(identifier));
    }
    items_ordered.push(identifier);
    items_ordered.len() - 1
}

/// Records the position of each image of `items_ordered` in `item_indices`,
/// anew.
pub fn rebuild_indices(items_ordered: &Vec<LibraryImageIdentifier>, item_indices: &mut IdentifierMap<usize>)
    ensures
        final(item_indices).well_formed(),
        final(item_indices)@ == index_map(items_ordered@),
{
    *item_indices = IdentifierMap::new();
    let mut i: usize = 0;
    while i < items_ordered.len()
        invariant
            i <= items_ordered@.len(),
            item_indices.well_formed(),
            item_indices@ == index_map(items_ordered@.take(i as int)),
        decreases items_ordered@.len() - i,
    {
        let id = items_ordered[i].duplicate();
        proof {
            let t = items_ordered@.take(i + 1);
            assert(t.drop_last() =~= items_ordered@.take(i as int));
            assert(t.last() == items_ordered@[i as int]);
        }
        item_indices.insert(id, i);
        i = i + 1;
    }
    proof {
        assert(items_ordered@.take(items_ordered@.len() as int) =~= items_ordered@);
    }
}

/// Sorts `items_ordered` by name, keeping images of equal name in their
/// order, and records each image's position in `item_indices`.
pub fn ensure_items_order_impl<I>(
    all_items: &IdentifierMap<LibraryItem<I>>,
    items_ordered: &mut Vec<LibraryImageIdentifier>,
    item_indices: &mut IdentifierMap<usize>,
)
    requires
        all_items.well_formed(),
    ensures
        final(items_ordered)@ == sort_by_name(old(items_ordered)@, item_name(all_items@)),
        sorted_by_name(final(items_ordered)@, item_name(all_items@)),
        final(items_ordered)@.to_multiset() == old(items_ordered)@.to_multiset(),
        final(item_indices).well_formed(),
        final(item_indices)@ == index_map(final(items_ordered)@),
{
    sort_items_by_name(all_items, items_ordered);
    rebuild_indices(items_ordered, item_indices);
}

/// Sorts by name in place: each image in turn moved to its place among the
/// images before it.
fn sort_items_by_name<I>(all_items: &IdentifierMap<LibraryItem<I>>, items: &mut Vec<LibraryImageIdentifier>)
    requires
        all_items.well_formed(),
    ensures
        final(items)@ == sort_by_name(old(items)@, item_name(all_items@)),
        sorted_by_name(final(items)@, item_name(all_items@)),
        final(items)@.to_multiset() == old(items)@.to_multiset(),
{
    let ghost key = item_name(all_items@);
    let ghost orig = items@;
    let mut i: usize = 0;
    proof {
        assert(orig.take(0) =~= Seq::<LibraryImageIdentifier>::empty());
        assert(items@ =~= sort_by_name(orig.take(0), key) + orig.skip(0));
    }
    while i < items.len()
        invariant
            all_items.well_formed(),
            key == item_name(all_items@),
            i <= orig.len(),
            items@.len() == orig.len(),
            items@ == sort_by_name(orig.take(i as int), key) + orig.skip(i as int),
        decreases orig.len() - i,
    {
        let ghost sorted_prefix = sort_by_name(orig.take(i as int), key);
        proof {
            lemma_sort_by_name(orig.take(i as int), key);
            assert(items@[i as int] == orig[i as int]);
        }
        let x = items.remove(i);
        proof {
            assert(items@ =~= sorted_prefix + orig.skip(i + 1));
        }
        let no_name: Option<String> = None;
        let name = match all_items.get(&x) {
            Some(item) => &item.metadata.name,
            None => &no_name,
        };
        let mut j: usize = 0;
        while j < i
            invariant
                all_items.well_formed(),
                key == item_name(all_items@),
                j <= i,
                i < orig.len(),
                items@ == sorted_prefix + orig.skip(i + 1),
                sorted_prefix.len() == i,
                opt_chars(*name) == key(x),
                forall|k: int| 0 <= k < j ==> !name_lt(key(x), #[trigger] key(sorted_prefix[k])),
            ensures
                j <= i,
                items@ == sorted_prefix + orig.skip(i + 1),
                forall|k: int| 0 <= k < j ==> !name_lt(key(x), #[trigger] key(sorted_prefix[k])),
                j < i ==> name_lt(key(x), key(sorted_prefix[j as int])),
            decreases i - j,
        {
            proof {
                assert(items@[j as int] == sorted_prefix[j as int]);
            }
            if name_before(all_items, name, &items[j]) {
                break;
            }
            j = j + 1;
        }
        proof {
            lemma_insert_pos_unique(sorted_prefix, key, key(x), j as int);
            assert(orig.take(i + 1).drop_last() =~= orig.take(i as int));
            assert(orig.take(i + 1).last() == x);
        }
        items.insert(j, x);
        proof {
            assert(items@ =~= sort_by_name(orig.take(i + 1), key) + orig.skip(i + 1));
        }
        i = i + 1;
    }
    proof {
        assert(orig.take(orig.len() as int) == orig);
        assert(items@ =~= sort_by_name(orig, key));
        lemma_sort_by_name(orig, key);
    }
}

} // verus!
