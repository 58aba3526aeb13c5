//! The library catalog: the images the library knows, their order by name,
//! and the albums that group them.
//!
//! Loading pixels, thumbnails and directory listings is the caller's part;
//! the catalog keeps what was loaded and decides what changes.
use vstd::prelude::*;

use crate::library::album::{
    copy_identifiers, ensure_items_order_impl, opt_string_view, index_map, item_name, key_set, keys_unique, lemma_index_map,
    lemma_insert_keys, lemma_key_set_len, lemma_remove_keys, lemma_sort_keys, ordered_insert,
    rebuild_indices, Album, AlbumView,
};
use crate::library::identifier::{IdKey, LibraryImageIdentifier};
use crate::library::identifier_map::IdentifierMap;
use crate::library::metadata::{
    AlbumPersistentState, LibraryImageMetaData, LibraryPersistentState, LibraryPersistentStateItem, Version,
};
use crate::library::ordering::{
    insert_pos, insert_sorted, lemma_insert_pos, lemma_insert_sorted_sorted, name_lt, lemma_sort_by_name, opt_chars, sort_by_name,
    sorted_by_name,
};
use crate::library::rating::ImageRating;
use crate::library::utils::{path_file_name, path_starts_with, spec_path_file_name, spec_path_starts_with};

verus! {

/// An image of the library. `I` is the image handle.
pub struct LibraryItem<I> {
    pub image: Option<I>,
    pub thumbnail: Option<I>,
    pub metadata: LibraryImageMetaData,
    pub rating: ImageRating,
}

/// What the library holds of an image.
pub struct LibraryItemView<I> {
    pub image: Option<I>,
    pub thumbnail: Option<I>,
    pub name: Option<Seq<char>>,
    pub rating: ImageRating,
}

impl<I> View for LibraryItem<I> {
    type V = LibraryItemView<I>;

    open spec fn view(&self) -> LibraryItemView<I> {
        LibraryItemView {
            image: self.image,
            thumbnail: self.thumbnail,
            name: opt_chars(self.metadata.name),
            rating: self.rating,
        }
    }
}

/// The library: its images by identifier, the list of them in name order
/// (unless images were appended since it was last ordered), the images found
/// unavailable, and the albums. `I` is the image handle.
pub struct Library<I> {
    items: IdentifierMap<LibraryItem<I>>,
    item_indices: IdentifierMap<usize>,
    items_ordered: Vec<LibraryImageIdentifier>,
    items_order_dirty: bool,
    // items that cannot be found
    unavailable_items: IdentifierMap<()>,
    albums: Vec<Album>,
    next_temp_uuid: u32,
}

/// What the library holds.
pub struct LibraryView<I> {
    pub items: Map<IdKey, LibraryItemView<I>>,
    pub order: Seq<LibraryImageIdentifier>,
    pub dirty: bool,
    pub unavailable: Set<IdKey>,
    pub albums: Seq<AlbumView>,
    pub next_temp_uuid: u32,
}

/// The name of an image, looked up in `items`; an image that is not there
/// has no name.
pub open spec fn names<I>(items: Map<IdKey, LibraryItemView<I>>) -> spec_fn(LibraryImageIdentifier) -> Option<Seq<char>> {
    |id: LibraryImageIdentifier|
        if items.dom().contains(id.spec_key()) {
            items[id.spec_key()].name
        } else {
            None
        }
}

/// `order` put in name order when it is marked out of order.
pub open spec fn in_name_order<I>(order: Seq<LibraryImageIdentifier>, dirty: bool, items: Map<IdKey, LibraryItemView<I>>) -> Seq<LibraryImageIdentifier> {
    if dirty {
        sort_by_name(order, names(items))
    } else {
        order
    }
}

/// What an image found at `path` starts as: nothing loaded, named by the
/// final component of the path, not rated.
pub open spec fn path_item<I>(path: Seq<char>) -> LibraryItemView<I> {
    LibraryItemView {
        image: None,
        thumbnail: None,
        name: spec_path_file_name(path),
        rating: ImageRating { num_stars: None },
    }
}

impl<I> LibraryView<I> {
    pub open spec fn with_order(self, order: Seq<LibraryImageIdentifier>, dirty: bool) -> Self {
        LibraryView { order, dirty, ..self }
    }

    pub open spec fn with_items(self, items: Map<IdKey, LibraryItemView<I>>) -> Self {
        LibraryView { items, ..self }
    }

    pub open spec fn with_albums(self, albums: Seq<AlbumView>) -> Self {
        LibraryView { albums, ..self }
    }

    /// The library with its list put in name order.
    pub open spec fn ordered(self) -> Self {
        self.with_order(in_name_order(self.order, self.dirty, self.items), false)
    }

    /// The library after `item` was recorded under `id`: a new image goes into
    /// the list, in name order when `ensure_order`, else appended; an image
    /// already there is replaced and keeps its place. With an album, the image
    /// goes into the album's list the same way, if it is not listed there yet.
    pub open spec fn add_item(self, item: LibraryItemView<I>, id: LibraryImageIdentifier, album: Option<usize>, ensure_order: bool) -> Self {
        let k = id.spec_key();
        let items = self.items.insert(k, item);
        let added = if self.items.dom().contains(k) {
            self.with_items(items)
        } else if ensure_order {
            self.with_items(items).with_order(
                insert_sorted(in_name_order(self.order, self.dirty, items), names(items), id),
                false,
            )
        } else {
            self.with_items(items).with_order(self.order.push(id), true)
        };
        match album {
            Some(a) => {
                let av = self.albums[a as int];
                if key_set(av.items_ordered).contains(k) {
                    added
                } else if ensure_order {
                    let lib = if av.items_order_dirty { added.ordered() } else { added };
                    lib.with_albums(self.albums.update(a as int, av.with_items(insert_sorted(av.items_ordered, names(items), id), false)))
                } else {
                    added.with_albums(self.albums.update(a as int, av.with_items(av.items_ordered.push(id), true)))
                }
            },
            None => added,
        }
    }

    /// The library after the image file at `path` was added.
    pub open spec fn add_path(self, path: String, album: Option<usize>, ensure_order: bool) -> Self {
        self.add_item(path_item(path@), LibraryImageIdentifier::Path(path), album, ensure_order)
    }

    /// The library after the image files at `paths` were added in turn, each
    /// appended.
    pub open spec fn add_paths(self, paths: Seq<String>, album: Option<usize>) -> Self
        decreases paths.len(),
    {
        if paths.len() == 0 {
            self
        } else {
            self.add_paths(paths.drop_last(), album).add_path(paths.last(), album, false)
        }
    }
}

impl<I> LibraryView<I> {
    /// The library after the image of key `k`, if it holds one, was taken out:
    /// out of the images, out of the list, and out of every album.
    pub open spec fn remove_key(self, k: IdKey) -> Self {
        if self.items.dom().contains(k) {
            LibraryView {
                items: self.items.remove(k),
                order: self.order.remove(index_map(self.order)[k] as int),
                albums: self.albums.map_values(|av: AlbumView| av.without(k)),
                ..self
            }
        } else {
            self
        }
    }

    /// The library after the images `ids` were taken out in turn.
    pub open spec fn remove_keys(self, ids: Seq<LibraryImageIdentifier>) -> Self
        decreases ids.len(),
    {
        if ids.len() == 0 {
            self
        } else {
            self.remove_keys(ids.drop_last()).remove_key(ids.last().spec_key())
        }
    }

    /// Which of `ids`, taken out in turn, were in the library at their turn.
    pub open spec fn removed(self, ids: Seq<LibraryImageIdentifier>) -> Seq<LibraryImageIdentifier>
        decreases ids.len(),
    {
        if ids.len() == 0 {
            Seq::empty()
        } else if self.remove_keys(ids.drop_last()).items.dom().contains(ids.last().spec_key()) {
            self.removed(ids.drop_last()).push(ids.last())
        } else {
            self.removed(ids.drop_last())
        }
    }
}

/// Taking out images in turn takes their keys out of the library; those that
/// were in the library at their turn are each named once, and taking out just
/// these does the same.
pub proof fn lemma_library_remove_keys<I>(v: LibraryView<I>, ids: Seq<LibraryImageIdentifier>)
    ensures
        v.remove_keys(ids).items.dom() == v.items.dom().difference(key_set(ids)),
        key_set(v.removed(ids)) == key_set(ids).intersect(v.items.dom()),
        keys_unique(v.removed(ids)),
        v.remove_keys(v.removed(ids)) == v.remove_keys(ids),
    decreases ids.len(),
{
    if ids.len() == 0 {
        assert(key_set(ids) =~= Set::<IdKey>::empty());
        assert(v.items.dom().difference(key_set(ids)) =~= v.items.dom());
        assert(key_set(v.removed(ids)) =~= Set::<IdKey>::empty());
    } else {
        let prev = ids.drop_last();
        let x = ids.last();
        lemma_library_remove_keys(v, prev);
        assert(key_set(ids) =~= key_set(prev).insert(x.spec_key())) by {
            assert(prev.push(x) =~= ids);
            lemma_insert_keys(prev, prev.len() as int, x);
            assert(prev.insert(prev.len() as int, x) =~= prev.push(x));
        }
        let w = v.remove_keys(prev);
        let r = v.removed(prev);
        assert(v.remove_keys(ids).items.dom() =~= v.items.dom().difference(key_set(ids)));
        if w.items.dom().contains(x.spec_key()) {
            assert(!key_set(r).contains(x.spec_key()));
            lemma_insert_keys(r, r.len() as int, x);
            assert(r.insert(r.len() as int, x) =~= r.push(x));
            assert(key_set(v.removed(ids)) =~= key_set(ids).intersect(v.items.dom()));
            assert(v.removed(ids).drop_last() =~= r);
        } else {
            assert(key_set(v.removed(ids)) =~= key_set(ids).intersect(v.items.dom()));
        }
    }
}

/// The paths among `paths` of which the library holds no image, in order.
pub open spec fn paths_not_in<I>(items: Map<IdKey, LibraryItemView<I>>, paths: Seq<String>) -> Seq<String>
    decreases paths.len(),
{
    if paths.len() == 0 {
        Seq::empty()
    } else if items.dom().contains(LibraryImageIdentifier::Path(paths.last()).spec_key()) {
        paths_not_in(items, paths.drop_last())
    } else {
        paths_not_in(items, paths.drop_last()).push(paths.last())
    }
}

/// The paths among `paths` of which the library holds an image, in order.
pub open spec fn paths_in<I>(items: Map<IdKey, LibraryItemView<I>>, paths: Seq<String>) -> Seq<String>
    decreases paths.len(),
{
    if paths.len() == 0 {
        Seq::empty()
    } else if items.dom().contains(LibraryImageIdentifier::Path(paths.last()).spec_key()) {
        paths_in(items, paths.drop_last()).push(paths.last())
    } else {
        paths_in(items, paths.drop_last())
    }
}

/// The images whose file is one of `paths`, with their image and thumbnail
/// dropped.
pub open spec fn drop_loaded<I>(items: Map<IdKey, LibraryItemView<I>>, paths: Seq<String>) -> Map<IdKey, LibraryItemView<I>> {
    Map::new(
        |k: IdKey| items.dom().contains(k),
        |k: IdKey|
            if exists|m: int| 0 <= m < paths.len() && #[trigger] LibraryImageIdentifier::Path(paths[m]).spec_key() == k {
                LibraryItemView { image: None, thumbnail: None, ..items[k] }
            } else {
                items[k]
            },
    )
}

/// The images an album lists once its directory was listed: those added by
/// hand, then, if it has a directory, the files found there.
pub open spec fn album_images(av: AlbumView, images_in_dir: Seq<String>) -> Seq<LibraryImageIdentifier> {
    if av.directory is Some {
        av.additional_images + images_in_dir.map_values(|p: String| LibraryImageIdentifier::Path(p))
    } else {
        av.additional_images
    }
}

/// The paths of the files among `ids` that the library does not hold, in order.
pub open spec fn files_not_in<I>(items: Map<IdKey, LibraryItemView<I>>, ids: Seq<LibraryImageIdentifier>) -> Seq<String>
    decreases ids.len(),
{
    if ids.len() == 0 {
        Seq::empty()
    } else {
        let prev = files_not_in(items, ids.drop_last());
        match ids.last() {
            LibraryImageIdentifier::Path(p) => if items.dom().contains(ids.last().spec_key()) {
                prev
            } else {
                prev.push(p)
            },
            LibraryImageIdentifier::Temp(_) => prev,
        }
    }
}

/// Every temporary image that the album lists by hand is in the library.
pub open spec fn temps_known<I>(items: Map<IdKey, LibraryItemView<I>>, av: AlbumView) -> bool {
    forall|i: int| 0 <= i < av.additional_images.len() && (#[trigger] av.additional_images[i]) is Temp
        ==> items.dom().contains(av.additional_images[i].spec_key())
}

/// The first album backed by the directory `dir`, if any.
pub open spec fn album_of_directory(albums: Seq<AlbumView>, dir: Seq<char>) -> Option<int>
    decreases albums.len(),
{
    if albums.len() == 0 {
        None
    } else {
        match album_of_directory(albums.drop_last(), dir) {
            Some(j) => Some(j),
            None => if albums.last().directory == Some(dir) {
                Some(albums.len() - 1)
            } else {
                None
            },
        }
    }
}

/// The name of an album made for the directory `dir`: the directory's own
/// name, or "New Album".
pub open spec fn directory_album_name(dir: Seq<char>) -> Seq<char> {
    match spec_path_file_name(dir) {
        Some(n) => n,
        None => "New Album"@,
    }
}

impl<I> LibraryView<I> {
    /// The library after the album `a` was listed anew: it lists its images
    /// added by hand and the files `images_in_dir` of its directory; those the
    /// library does not hold are added, each appended; then the album is put
    /// in name order, unless it is marked out of order.
    pub open spec fn enumerate_album(self, a: usize, images_in_dir: Seq<String>) -> Self {
        let av = self.albums[a as int];
        let all = album_images(av, images_in_dir);
        let listed = self.with_albums(self.albums.update(a as int, av.with_items(all, av.items_order_dirty)));
        let added = listed.add_paths(files_not_in(self.items, all), Some(a));
        added.with_albums(added.albums.update(a as int, album_resorted_when_clean(added.albums[a as int], added.items)))
    }
}

/// When the first `i` albums are not of the directory and album `i` is,
/// album `i` is the first one of it.
proof fn lemma_album_of_directory_prefix(albums: Seq<AlbumView>, dir: Seq<char>, i: int)
    requires
        0 <= i < albums.len(),
        album_of_directory(albums.take(i), dir) is None,
        albums[i].directory == Some(dir),
    ensures
        album_of_directory(albums, dir) == Some(i),
    decreases albums.len(),
{
    if albums.len() == i + 1 {
        assert(albums.drop_last() =~= albums.take(i));
    } else {
        assert(albums.drop_last().take(i) =~= albums.take(i));
        lemma_album_of_directory_prefix(albums.drop_last(), dir, i);
    }
}

/// Adding images keeps the number of albums.
pub proof fn lemma_add_paths_albums<I>(v: LibraryView<I>, paths: Seq<String>, album: Option<usize>)
    requires
        album matches Some(a) ==> a < v.albums.len(),
    ensures
        v.add_paths(paths, album).albums.len() == v.albums.len(),
    decreases paths.len(),
{
    if paths.len() > 0 {
        lemma_add_paths_albums(v, paths.drop_last(), album);
    }
}

/// The files of `order`, in order, each with its rating: what is saved of the
/// library's images.
pub open spec fn saved_items<I>(order: Seq<LibraryImageIdentifier>, items: Map<IdKey, LibraryItemView<I>>) -> Seq<(Seq<char>, ImageRating)>
    decreases order.len(),
{
    if order.len() == 0 {
        Seq::empty()
    } else {
        let prev = saved_items(order.drop_last(), items);
        match order.last() {
            LibraryImageIdentifier::Path(p) => prev.push((p@, items[order.last().spec_key()].rating)),
            LibraryImageIdentifier::Temp(_) => prev,
        }
    }
}

/// An album as saved, with no images listed yet.
pub open spec fn saved_album(st: AlbumPersistentState) -> AlbumView {
    AlbumView {
        name: st.name@,
        directory: opt_string_view(st.directory),
        additional_images: st.additional_images@,
        items_ordered: Seq::empty(),
        items_order_dirty: false,
    }
}

impl<I> LibraryView<I> {
    /// The library after the saved images were added in turn, each appended
    /// and given its saved rating.
    pub open spec fn add_saved_items(self, saved: Seq<LibraryPersistentStateItem>) -> Self
        decreases saved.len(),
    {
        if saved.len() == 0 {
            self
        } else {
            let v = self.add_saved_items(saved.drop_last()).add_path(saved.last().path, None, false);
            let k = LibraryImageIdentifier::Path(saved.last().path).spec_key();
            v.with_items(v.items.insert(k, LibraryItemView { rating: saved.last().rating, ..v.items[k] }))
        }
    }

    /// The library after the albums below `n` were listed anew in turn, album
    /// `j` from the files `listings[j]`.
    pub open spec fn enumerate_albums(self, listings: Seq<Vec<String>>, n: nat) -> Self
        decreases n,
    {
        if n == 0 {
            self
        } else {
            self.enumerate_albums(listings, (n - 1) as nat).enumerate_album((n - 1) as usize, listings[n - 1]@)
        }
    }
}

/// Adding an image changes at most the album it goes to, and keeps every
/// image there was.
pub proof fn lemma_add_item_frame<I>(v: LibraryView<I>, item: LibraryItemView<I>, id: LibraryImageIdentifier, album: Option<usize>, ensure_order: bool)
    requires
        album matches Some(a) ==> a < v.albums.len(),
    ensures
        v.add_item(item, id, album, ensure_order).albums.len() == v.albums.len(),
        forall|b: int| 0 <= b < v.albums.len() && (album matches Some(a) ==> b != a) ==>
            #[trigger] v.add_item(item, id, album, ensure_order).albums[b] == v.albums[b],
        v.items.dom().subset_of(v.add_item(item, id, album, ensure_order).items.dom()),
{
}

/// Adding images changes at most the album they go to, and keeps every image
/// there was.
pub proof fn lemma_add_paths_frame<I>(v: LibraryView<I>, paths: Seq<String>, album: Option<usize>)
    requires
        album matches Some(a) ==> a < v.albums.len(),
    ensures
        v.add_paths(paths, album).albums.len() == v.albums.len(),
        forall|b: int| 0 <= b < v.albums.len() && (album matches Some(a) ==> b != a) ==>
            #[trigger] v.add_paths(paths, album).albums[b] == v.albums[b],
        v.items.dom().subset_of(v.add_paths(paths, album).items.dom()),
    decreases paths.len(),
{
    if paths.len() > 0 {
        lemma_add_paths_frame(v, paths.drop_last(), album);
        let w = v.add_paths(paths.drop_last(), album);
        lemma_add_item_frame(w, path_item(paths.last()@), LibraryImageIdentifier::Path(paths.last()), album, false);
    }
}

/// Listing an album anew changes no other album, and keeps every image there
/// was.
pub proof fn lemma_enumerate_album_frame<I>(v: LibraryView<I>, a: usize, images_in_dir: Seq<String>)
    requires
        a < v.albums.len(),
    ensures
        v.enumerate_album(a, images_in_dir).albums.len() == v.albums.len(),
        forall|b: int| 0 <= b < v.albums.len() && b != a ==> #[trigger] v.enumerate_album(a, images_in_dir).albums[b] == v.albums[b],
        v.items.dom().subset_of(v.enumerate_album(a, images_in_dir).items.dom()),
{
    let av = v.albums[a as int];
    let all = album_images(av, images_in_dir);
    let listed = v.with_albums(v.albums.update(a as int, av.with_items(all, av.items_order_dirty)));
    lemma_add_paths_frame(listed, files_not_in(v.items, all), Some(a));
}

/// Adding saved images changes no album, and keeps every image there was.
pub proof fn lemma_add_saved_items_frame<I>(v: LibraryView<I>, saved: Seq<LibraryPersistentStateItem>)
    ensures
        v.add_saved_items(saved).albums == v.albums,
        v.items.dom().subset_of(v.add_saved_items(saved).items.dom()),
    decreases saved.len(),
{
    if saved.len() > 0 {
        lemma_add_saved_items_frame(v, saved.drop_last());
        let w = v.add_saved_items(saved.drop_last());
        lemma_add_item_frame(w, path_item(saved.last().path@), LibraryImageIdentifier::Path(saved.last().path), None, false);
    }
}

/// What loading an image of the library asks for next.
#[derive(Debug)]
pub enum LoadAction {
    /// The library holds no such image.
    NotInLibrary,
    /// Read the thumbnail saved on disk for the image file at this path.
    ReadThumbnailFile(String),
    /// Read the image file at this path.
    ReadImageFile(String),
    /// Make the thumbnail from the loaded image.
    MakeThumbnail,
    /// The image and its thumbnail are loaded.
    Ready,
}

/// The next step of loading the image `id`: first a thumbnail saved on disk,
/// if it has none and that was not tried yet; then the image file; then a
/// thumbnail made from the image.
pub open spec fn next_load_action_of<I>(v: LibraryView<I>, id: LibraryImageIdentifier, thumbnail_file_tried: bool) -> LoadAction {
    let k = id.spec_key();
    if !v.items.dom().contains(k) {
        LoadAction::NotInLibrary
    } else {
        match id {
            LibraryImageIdentifier::Path(p) => if v.items[k].thumbnail is None && !thumbnail_file_tried {
                LoadAction::ReadThumbnailFile(p)
            } else if v.items[k].image is None {
                LoadAction::ReadImageFile(p)
            } else if v.items[k].thumbnail is None {
                LoadAction::MakeThumbnail
            } else {
                LoadAction::Ready
            },
            LibraryImageIdentifier::Temp(_) => if v.items[k].thumbnail is None {
                LoadAction::MakeThumbnail
            } else {
                LoadAction::Ready
            },
        }
    }
}

/// Loading an image of the library goes through its steps in order and ends
/// only when both the image and its thumbnail are loaded: `Ready` exactly
/// when both are; an image file whose pixels are not loaded is read once its
/// thumbnail file was tried or a thumbnail is held; a thumbnail is made only
/// from a loaded image; and the thumbnail file is read only while no
/// thumbnail is held and it was not tried.
pub proof fn lemma_load_steps<I>(lib: Library<I>, id: LibraryImageIdentifier, thumbnail_file_tried: bool)
    requires
        lib.well_formed(),
        lib@.items.dom().contains(id.spec_key()),
    ensures
        ({
            let item = lib@.items[id.spec_key()];
            let action = next_load_action_of(lib@, id, thumbnail_file_tried);
            &&& action is Ready <==> (item.image is Some && item.thumbnail is Some)
            &&& (id is Path && item.image is None && (thumbnail_file_tried || item.thumbnail is Some))
                ==> action == LoadAction::ReadImageFile(id->Path_0)
            &&& action is ReadImageFile ==> item.image is None && id is Path
            &&& action is MakeThumbnail ==> item.image is Some && item.thumbnail is None
            &&& action is ReadThumbnailFile ==> item.thumbnail is None && !thumbnail_file_tried && id is Path
            &&& !(action is NotInLibrary)
        }),
{
    let k = id.spec_key();
    assert(lib@.items.dom() == lib.items@.dom());
    if id is Temp {
        assert(!k.0);
    }
}

/// The names seen through the view are the names of the items.
proof fn lemma_names<I>(items: Map<IdKey, LibraryItem<I>>)
    ensures
        names(items.map_values(|it: LibraryItem<I>| it@)) == item_name(items),
{
    assert(names(items.map_values(|it: LibraryItem<I>| it@)) =~= item_name(items));
}

impl<I> View for Library<I> {
    type V = LibraryView<I>;

    closed spec fn view(&self) -> LibraryView<I> {
        LibraryView {
            items: self.items@.map_values(|it: LibraryItem<I>| it@),
            order: self.items_ordered@,
            dirty: self.items_order_dirty,
            unavailable: self.unavailable_items@.dom(),
            albums: self.albums@.map_values(|a: Album| a@),
            next_temp_uuid: self.next_temp_uuid,
        }
    }
}

impl<I> Library<I> {
    /// The list names each image once; the recorded positions are where the
    /// images stand; when not marked out of order, the list is in name order;
    /// an image file is named by the final component of its path; every
    /// temporary image has a uuid below the next one, and its image.
    pub closed spec fn well_formed(self) -> bool {
        &&& self.items.well_formed()
        &&& self.item_indices.well_formed()
        &&& self.unavailable_items.well_formed()
        &&& forall|i: int| 0 <= i < self.albums@.len() ==> (#[trigger] self.albums@[i]).well_formed()
        &&& keys_unique(self.items_ordered@)
        &&& key_set(self.items_ordered@) == self.items@.dom()
        &&& self.item_indices@ == index_map(self.items_ordered@)
        &&& self.items_ordered@.len() == self.items_ordered.len()
        &&& !self.items_order_dirty ==> sorted_by_name(self.items_ordered@, item_name(self.items@))
        &&& forall|k: IdKey| #[trigger] self.items@.dom().contains(k) ==> if k.0 {
            k.1 == 0 && opt_chars(self.items@[k].metadata.name) == spec_path_file_name(k.2)
        } else {
            k.1 < self.next_temp_uuid && self.items@[k].image is Some
        }
    }

    /// An empty library.
    pub fn new() -> (r: Self)
        ensures
            r.well_formed(),
            r@ == (LibraryView::<I> {
                items: Map::empty(),
                order: Seq::empty(),
                dirty: false,
                unavailable: Set::empty(),
                albums: Seq::empty(),
                next_temp_uuid: 0,
            }),
    {
        let r = Library {
            items: IdentifierMap::new(),
            item_indices: IdentifierMap::new(),
            items_ordered: Vec::new(),
            items_order_dirty: false,
            unavailable_items: IdentifierMap::new(),
            albums: Vec::new(),
            next_temp_uuid: 0,
        };
        proof {
            assert(key_set(r.items_ordered@) =~= Set::<IdKey>::empty());
            assert(r@.items =~= Map::<IdKey, LibraryItemView<I>>::empty());
            assert(r@.albums =~= Seq::<AlbumView>::empty());
        }
        r
    }

    /// How many images the library holds.
    pub fn num_images_total(&self) -> (r: usize)
        requires
            self.well_formed(),
        ensures
            r == self@.items.dom().len(),
    {
        proof {
            assert(self@.items.dom() =~= self.items@.dom());
        }
        self.items.len()
    }

    pub fn albums(&self) -> (r: &Vec<Album>)
        requires
            self.well_formed(),
        ensures
            r@.len() == self@.albums.len(),
            forall|i: int| 0 <= i < r@.len() ==> (#[trigger] r@[i])@ == self@.albums[i] && r@[i].well_formed(),
    {
        &self.albums
    }

    /// The albums, to be changed in place; the library stays well formed as
    /// long as each album does.
    pub fn albums_mut(&mut self) -> (r: &mut Vec<Album>)
        requires
            old(self).well_formed(),
        ensures
            r@.map_values(|a: Album| a@) == old(self)@.albums,
            forall|i: int| 0 <= i < r@.len() ==> (#[trigger] r@[i]).well_formed(),
            final(self)@ == old(self)@.with_albums(final(r)@.map_values(|a: Album| a@)),
            (forall|i: int| 0 <= i < final(r)@.len() ==> (#[trigger] final(r)@[i]).well_formed()) ==> final(self).well_formed(),
    {
        &mut self.albums
    }

    /// How many images the album lists.
    pub fn num_images_in_album(&self, album_index: usize) -> (r: usize)
        requires
            album_index < self@.albums.len(),
        ensures
            r == self@.albums[album_index as int].items_ordered.len(),
    {
        self.albums[album_index].num_images()
    }

    /// Adds an empty album named `name`, backed by no directory.
    pub fn create_new_album(&mut self, name: String)
        requires
            old(self).well_formed(),
        ensures
            final(self).well_formed(),
            final(self)@ == old(self)@.with_albums(old(self)@.albums.push(AlbumView {
                name: name@,
                directory: None,
                additional_images: Seq::empty(),
                items_ordered: Seq::empty(),
                items_order_dirty: false,
            })),
    {
        let album = Album::new(name, None, Vec::new());
        self.albums.push(album);
        proof {
            assert(self@.albums =~= old(self)@.albums.push(album@));
        }
    }

    /// Deletes an album that is backed by no directory.
    pub fn delete_album(&mut self, album_index: usize)
        requires
            old(self).well_formed(),
            album_index < old(self)@.albums.len(),
            old(self)@.albums[album_index as int].directory is None,
        ensures
            final(self).well_formed(),
            final(self)@ == old(self)@.with_albums(old(self)@.albums.remove(album_index as int)),
    {
        self.albums.remove(album_index);
        proof {
            assert(self@.albums =~= old(self)@.albums.remove(album_index as int));
        }
    }

    /// Puts the list of the library in name order, if images were appended
    /// since it was last ordered.
    fn ensure_items_order(&mut self)
        requires
            old(self).well_formed(),
        ensures
            final(self).well_formed(),
            final(self)@ == old(self)@.ordered(),
            final(self).albums@ == old(self).albums@,
    {
        proof {
            lemma_names(self.items@);
        }
        if !self.items_order_dirty {
            return;
        }
        proof {
            lemma_sort_keys(self.items_ordered@, item_name(self.items@));
        }
        ensure_items_order_impl(&self.items, &mut self.items_ordered, &mut self.item_indices);
        self.items_order_dirty = false;
    }

    /// Puts the album's list in name order, unless images were appended to it
    /// since it was last ordered.
    fn ensure_items_order_for_album(&mut self, album: usize)
        requires
            old(self).well_formed(),
            album < old(self)@.albums.len(),
        ensures
            final(self).well_formed(),
            final(self)@ == old(self)@.with_albums(old(self)@.albums.update(
                album as int,
                album_resorted_when_clean(old(self)@.albums[album as int], old(self)@.items),
            )),
    {
        proof {
            lemma_names(self.items@);
        }
        self.albums[album].ensure_order(&self.items);
        proof {
            assert forall|i: int| 0 <= i < self.albums@.len() implies (#[trigger] self.albums@[i]).well_formed() by {
                if i != album {
                    assert(self.albums@[i] == old(self).albums@[i]);
                }
            }
            assert(self@.albums =~= old(self)@.albums.update(
                album as int,
                album_resorted_when_clean(old(self)@.albums[album as int], old(self)@.items),
            ));
        }
    }

    /// The image at `index` in the library's name order.
    pub fn get_identifier_at_index(&mut self, index: usize) -> (r: &LibraryImageIdentifier)
        requires
            old(self).well_formed(),
            index < old(self)@.order.len(),
        ensures
            final(self).well_formed(),
            final(self)@ == old(self)@.ordered(),
            *r == final(self)@.order[index as int],
    {
        proof {
            lemma_sort_by_name(self.items_ordered@, item_name(self.items@));
            lemma_names(self.items@);
        }
        self.ensure_items_order();
        &self.items_ordered[index]
    }

    /// The image at `index` in the album's list, after the album was put in
    /// name order (unless images were appended to it since it was last ordered).
    pub fn get_identifier_at_index_for_album(&mut self, index: usize, album: usize) -> (r: &LibraryImageIdentifier)
        requires
            old(self).well_formed(),
            album < old(self)@.albums.len(),
            index < old(self)@.albums[album as int].items_ordered.len(),
        ensures
            final(self).well_formed(),
            final(self)@ == old(self)@.with_albums(old(self)@.albums.update(
                album as int,
                album_resorted_when_clean(old(self)@.albums[album as int], old(self)@.items),
            )),
            *r == final(self)@.albums[album as int].items_ordered[index as int],
    {
        proof {
            lemma_sort_by_name(self@.albums[album as int].items_ordered, names(self@.items));
        }
        self.ensure_items_order_for_album(album);
        proof {
            assert(self@.albums.len() == old(self)@.albums.len());
            assert(self@.albums == self.albums@.map_values(|a: Album| a@));
            assert(self.albums@.len() == self@.albums.len());
            assert(self@.albums[album as int] == self.albums@[album as int]@);
        }
        self.albums[album].item_at(index)
    }

    /// Records `item` under `identifier` (replacing an image already there)
    /// and lists it, in name order when `ensure_order`, else appended; with an
    /// album, lists it there too if it is not listed yet.
    fn add_item(&mut self, item: LibraryItem<I>, identifier: LibraryImageIdentifier, album: Option<usize>, ensure_order: bool)
        requires
            old(self).well_formed(),
            album matches Some(a) ==> a < old(self)@.albums.len(),
            identifier is Path ==> item@.name == spec_path_file_name(identifier.spec_key().2),
            identifier is Temp ==> identifier.spec_key().1 < old(self)@.next_temp_uuid
                && !old(self)@.items.dom().contains(identifier.spec_key()) && item.image is Some,
        ensures
            final(self).well_formed(),
            final(self)@ == old(self)@.add_item(item@, identifier, album, ensure_order),
    {
        let ghost k = identifier.spec_key();
        let ghost old_items = self.items@;
        let ghost item_view = item@;
        let replaced = self.items.insert(identifier.duplicate(), item);
        let ghost items = self.items@;
        proof {
            lemma_names(self.items@);
            lemma_names(old_items);
            assert(self@.items =~= old(self)@.items.insert(k, item_view));
            if replaced is Some {
                assert(item_name(items) =~= item_name(old_items));
            } else {
                assert forall|i: int| 0 <= i < self.items_ordered@.len() implies
                    #[trigger] item_name(items)(self.items_ordered@[i]) == item_name(old_items)(self.items_ordered@[i]) by {
                    assert(key_set(self.items_ordered@).contains(self.items_ordered@[i].spec_key()));
                }
            }
        }
        if replaced.is_none() {
            if ensure_order {
                if self.items_order_dirty {
                    proof {
                        lemma_sort_keys(self.items_ordered@, item_name(items));
                    }
                    ensure_items_order_impl(&self.items, &mut self.items_ordered, &mut self.item_indices);
                    self.items_order_dirty = false;
                }
                let ghost before = self.items_ordered@;
                proof {
                    lemma_insert_pos(before, item_name(items), item_name(items)(identifier));
                    lemma_insert_keys(before, insert_pos(before, item_name(items), item_name(items)(identifier)), identifier);
                    lemma_insert_sorted_sorted(before, item_name(items), identifier);
                }
                ordered_insert(&self.items, &mut self.items_ordered, identifier.duplicate());
                rebuild_indices(&self.items_ordered, &mut self.item_indices);
                self.items_order_dirty = false;
            } else {
                let ghost before = self.items_ordered@;
                let index = self.items_ordered.len();
                self.items_ordered.push(identifier.duplicate());
                proof {
                    assert(self.items_ordered@.drop_last() =~= before);
                    lemma_insert_keys(before, before.len() as int, identifier);
                    assert(before.insert(before.len() as int, identifier) =~= before.push(identifier));
                }
                self.item_indices.insert(identifier.duplicate(), index);
                self.items_order_dirty = true;
            }
        }
        proof {
            assert(self@.items == old(self)@.items.insert(k, item_view));
            assert(self.items.well_formed());
            assert(keys_unique(self.items_ordered@));
            assert(key_set(self.items_ordered@) == self.items@.dom());
            assert(self.item_indices@ == index_map(self.items_ordered@));
            assert(!self.items_order_dirty ==> sorted_by_name(self.items_ordered@, item_name(self.items@)));
            assert(self.well_formed());
        }
        let ghost albums_before = self.albums@;
        let ghost stage = self@;
        proof {
            let ov = old(self)@;
            let items_v = ov.items.insert(k, item_view);
            let added = if ov.items.dom().contains(k) {
                ov.with_items(items_v)
            } else if ensure_order {
                ov.with_items(items_v).with_order(
                    insert_sorted(in_name_order(ov.order, ov.dirty, items_v), names(items_v), identifier),
                    false,
                )
            } else {
                ov.with_items(items_v).with_order(ov.order.push(identifier), true)
            };
            assert(old_items.dom().contains(k) == ov.items.dom().contains(k));
            assert(stage == added);
        }
        match album {
            Some(a) => {
                proof {
                    assert(self@.albums[a as int] == self.albums@[a as int]@);
                }
                if !self.albums[a].contains_image(&identifier) {
                    if ensure_order {
                        if self.albums[a].is_order_dirty() {
                            self.ensure_items_order();
                        }
                        let ghost lib = self@;
                        proof {
                            assert(self@.albums[a as int] == self.albums@[a as int]@);
                        }
                        self.albums[a].insert_in_order(&self.items, identifier);
                        proof {
                            lemma_names(self.items@);
                            assert(self@.albums =~= lib.albums.update(
                                a as int,
                                old(self)@.albums[a as int].with_items(
                                    insert_sorted(old(self)@.albums[a as int].items_ordered, names(self@.items), identifier),
                                    false,
                                ),
                            ));
                        }
                    } else {
                        self.albums[a].append(identifier);
                        proof {
                            assert(self@.albums =~= stage.albums.update(
                                a as int,
                                old(self)@.albums[a as int].with_items(old(self)@.albums[a as int].items_ordered.push(identifier), true),
                            ));
                        }
                    }
                    proof {
                        assert forall|i: int| 0 <= i < self.albums@.len() implies (#[trigger] self.albums@[i]).well_formed() by {
                            if i != a {
                                assert(self.albums@[i] == albums_before[i]);
                            }
                        }
                    }
                }
            },
            None => {},
        }
    }

    /// Adds the image file at `path`, named by the final component of the
    /// path; returns its identifier.
    fn add_item_from_path_impl(&mut self, path: String, album: Option<usize>, ensure_order: bool) -> (r: LibraryImageIdentifier)
        requires
            old(self).well_formed(),
            album matches Some(a) ==> a < old(self)@.albums.len(),
        ensures
            final(self).well_formed(),
            r == LibraryImageIdentifier::Path(path),
            final(self)@ == old(self)@.add_path(path, album, ensure_order),
    {
        let metadata = LibraryImageMetaData { name: path_file_name(path.as_str()) };
        let id = LibraryImageIdentifier::Path(path);
        let item = LibraryItem { image: None, thumbnail: None, metadata, rating: ImageRating::new(None) };
        proof {
            assert(item@ == path_item::<I>(path@));
        }
        self.add_item(item, id.duplicate(), album, ensure_order);
        id
    }

    /// Adds the image file at `path`, in name order; returns its identifier.
    /// A file new to the library leaves the list in name order.
    pub fn add_single_item_from_path(&mut self, path: String, album: Option<usize>) -> (r: LibraryImageIdentifier)
        requires
            old(self).well_formed(),
            album matches Some(a) ==> a < old(self)@.albums.len(),
        ensures
            final(self).well_formed(),
            r == LibraryImageIdentifier::Path(path),
            final(self)@ == old(self)@.add_path(path, album, true),
            !old(self)@.items.dom().contains(r.spec_key()) ==> {
                &&& !final(self)@.dirty
                &&& sorted_by_name(final(self)@.order, names(final(self)@.items))
            },
            final(self)@.items.dom() == old(self)@.items.dom().insert(r.spec_key()),
            final(self)@.order.len() == old(self)@.order.len() + if old(self)@.items.dom().contains(r.spec_key()) {
                0int
            } else {
                1int
            },
    {
        proof {
            lemma_library_list(*old(self));
            lemma_key_set_len(old(self)@.order);
        }
        let r = self.add_item_from_path_impl(path, album, true);
        proof {
            lemma_library_list(*self);
            let k = r.spec_key();
            let d = old(self)@.items.dom();
            if !d.contains(k) {
                assert(d.insert(k).len() == d.len() + 1);
            } else {
                assert(d.insert(k) =~= d);
            }
        }
        r
    }

    /// Adds the image files at `paths`, each appended; returns their
    /// identifiers.
    pub fn add_items_from_paths(&mut self, paths: Vec<String>, album: Option<usize>) -> (r: Vec<LibraryImageIdentifier>)
        requires
            old(self).well_formed(),
            album matches Some(a) ==> a < old(self)@.albums.len(),
        ensures
            final(self).well_formed(),
            final(self)@ == old(self)@.add_paths(paths@, album),
            r@.len() == paths@.len(),
            forall|i: int| 0 <= i < paths@.len() ==> r@[i] == LibraryImageIdentifier::Path(#[trigger] paths@[i]),
    {
        let mut identifiers: Vec<LibraryImageIdentifier> = Vec::new();
        let mut i: usize = 0;
        while i < paths.len()
            invariant
                self.well_formed(),
                album matches Some(a) ==> a < self@.albums.len(),
                self@.albums.len() == old(self)@.albums.len(),
                i <= paths@.len(),
                self@ == old(self)@.add_paths(paths@.take(i as int), album),
                identifiers@.len() == i,
                forall|j: int| 0 <= j < i ==> identifiers@[j] == LibraryImageIdentifier::Path(#[trigger] paths@[j]),
            decreases paths@.len() - i,
        {
            let path = paths[i].clone();
            proof {
                assert(paths@.take(i + 1).drop_last() =~= paths@.take(i as int));
                assert(paths@.take(i + 1).last() == paths@[i as int]);
            }
            let identifier = self.add_item_from_path_impl(path, album, false);
            identifiers.push(identifier);
            i = i + 1;
        }
        proof {
            assert(paths@.take(paths@.len() as int) =~= paths@);
        }
        identifiers
    }

    /// Adds a temporary image (one with no file behind it), with its image
    /// and thumbnail already made, in name order; returns its identifier,
    /// which carries the next uuid.
    pub fn add_image_temp(&mut self, image: I, thumbnail: I, album: Option<usize>, metadata: LibraryImageMetaData) -> (r: LibraryImageIdentifier)
        requires
            old(self).well_formed(),
            album matches Some(a) ==> a < old(self)@.albums.len(),
            old(self)@.next_temp_uuid < u32::MAX,
        ensures
            final(self).well_formed(),
            r == LibraryImageIdentifier::Temp(old(self)@.next_temp_uuid),
            final(self)@ == (LibraryView { next_temp_uuid: (old(self)@.next_temp_uuid + 1) as u32, ..old(self)@ }).add_item(
                LibraryItemView {
                    image: Some(image),
                    thumbnail: Some(thumbnail),
                    name: opt_chars(metadata.name),
                    rating: ImageRating { num_stars: None },
                },
                r,
                album,
                true,
            ),
            !old(self)@.items.dom().contains(r.spec_key()),
            final(self)@.items.dom() == old(self)@.items.dom().insert(r.spec_key()),
            final(self)@.order.len() == old(self)@.order.len() + 1,
    {
        proof {
            lemma_library_list(*old(self));
            lemma_key_set_len(old(self)@.order);
        }
        let temp_image_id = LibraryImageIdentifier::Temp(self.next_temp_uuid);
        self.next_temp_uuid = self.next_temp_uuid + 1;
        let library_item = LibraryItem {
            image: Some(image),
            thumbnail: Some(thumbnail),
            metadata,
            rating: ImageRating::new(None),
        };
        proof {
            assert forall|k: IdKey| #[trigger] self.items@.dom().contains(k) && !k.0 implies k.1 < self.next_temp_uuid by {}
        }
        self.add_item(library_item, temp_image_id.duplicate(), album, true);
        proof {
            lemma_library_list(*self);
            assert(old(self)@.items.dom().insert(temp_image_id.spec_key()).len() == old(self)@.items.dom().len() + 1);
        }
        temp_image_id
    }

    /// Takes out of the library the images of files that were removed: each
    /// of `removed_paths` that is an image of the library, and every image
    /// under one of the others, taken as a removed directory. Returns the
    /// images taken out, each once, in no particular order.
    pub fn handle_removed_paths(&mut self, removed_paths: Vec<String>) -> (r: Vec<LibraryImageIdentifier>)
        requires
            old(self).well_formed(),
        ensures
            final(self).well_formed(),
            final(self)@ == old(self)@.remove_keys(r@),
            keys_unique(r@),
            key_set(r@) == removed_by_paths(old(self)@.items.dom(), removed_paths@),
    {
        let ghost dom = self.items@.dom();
        proof {
            assert(self@.items.dom() == dom);
            assert(forall|k: IdKey| #[trigger] dom.contains(k) && k.0 ==> k.1 == 0);
        }
        let mut removed_items: Vec<LibraryImageIdentifier> = Vec::new();
        let mut potential_removed_dir_paths: Vec<String> = Vec::new();
        let ghost mut origin: Seq<int> = Seq::empty();
        let ghost mut slot: Map<int, int> = Map::empty();
        let mut i: usize = 0;
        while i < removed_paths.len()
            invariant
                self.items.well_formed(),
                self.items@.dom() == dom,
                forall|k: IdKey| #[trigger] dom.contains(k) && k.0 ==> k.1 == 0,
                i <= removed_paths@.len(),
                forall|j: int| 0 <= j < removed_items@.len() ==> dom.contains(#[trigger] removed_items@[j].spec_key()),
                forall|k: IdKey| #[trigger] key_set(removed_items@).contains(k) <==> dom.contains(k) && k.0
                    && exists|m: int| 0 <= m < i && k.2 == #[trigger] removed_paths@[m]@,
                origin.len() == potential_removed_dir_paths@.len(),
                forall|j: int| 0 <= j < origin.len() ==> {
                    &&& 0 <= #[trigger] origin[j] < i
                    &&& potential_removed_dir_paths@[j] == removed_paths@[origin[j]]
                    &&& !dom.contains(LibraryImageIdentifier::Path(removed_paths@[origin[j]]).spec_key())
                },
                forall|m: int| 0 <= m < i && !dom.contains(LibraryImageIdentifier::Path(#[trigger] removed_paths@[m]).spec_key()) ==> {
                    &&& 0 <= slot[m] < potential_removed_dir_paths@.len()
                    &&& potential_removed_dir_paths@[slot[m]] == removed_paths@[m]
                },
            decreases removed_paths@.len() - i,
        {
            let path = removed_paths[i].clone();
            let identifier = LibraryImageIdentifier::Path(path);
            let ghost before = removed_items@;
            if self.items.contains_key(&identifier) {
                removed_items.push(identifier);
                proof {
                    lemma_insert_keys(before, before.len() as int, identifier);
                    assert(before.insert(before.len() as int, identifier) =~= removed_items@);
                }
            } else {
                proof {
                    slot = slot.insert(i as int, potential_removed_dir_paths@.len() as int);
                    origin = origin.push(i as int);
                }
                potential_removed_dir_paths.push(removed_paths[i].clone());
            }
            proof {
                assert forall|k: IdKey| #[trigger] key_set(removed_items@).contains(k) <==> dom.contains(k) && k.0
                    && exists|m: int| 0 <= m < i + 1 && k.2 == #[trigger] removed_paths@[m]@ by {
                    if dom.contains(k) && k.0 && k.2 == removed_paths@[i as int]@ {
                        assert(k == LibraryImageIdentifier::Path(removed_paths@[i as int]).spec_key());
                    }
                    if exists|m: int| 0 <= m < i + 1 && k.2 == #[trigger] removed_paths@[m]@ {
                        let m = choose|m: int| 0 <= m < i + 1 && k.2 == #[trigger] removed_paths@[m]@;
                        if m < i {
                            assert(exists|m: int| 0 <= m < i && k.2 == #[trigger] removed_paths@[m]@);
                        }
                    }
                }
            }
            i = i + 1;
        }
        let ghost first = removed_items@;
        let keys = self.items.keys();
        let mut n: usize = 0;
        while n < keys.len()
            invariant
                self.items.well_formed(),
                self.items@.dom() == dom,
                forall|k: IdKey| #[trigger] dom.contains(k) <==> exists|x: int| 0 <= x < keys@.len() && #[trigger] keys@[x].spec_key() == k,
                n <= keys@.len(),
                origin.len() == potential_removed_dir_paths@.len(),
                forall|j: int| 0 <= j < origin.len() ==> {
                    &&& 0 <= #[trigger] origin[j] < removed_paths@.len()
                    &&& potential_removed_dir_paths@[j] == removed_paths@[origin[j]]
                    &&& !dom.contains(LibraryImageIdentifier::Path(removed_paths@[origin[j]]).spec_key())
                },
                forall|m: int| 0 <= m < removed_paths@.len() && !dom.contains(LibraryImageIdentifier::Path(#[trigger] removed_paths@[m]).spec_key()) ==> {
                    &&& 0 <= slot[m] < potential_removed_dir_paths@.len()
                    &&& potential_removed_dir_paths@[slot[m]] == removed_paths@[m]
                },
                forall|j: int| 0 <= j < removed_items@.len() ==> dom.contains(#[trigger] removed_items@[j].spec_key()),
                forall|k: IdKey| #[trigger] key_set(removed_items@).contains(k) <==> key_set(first).contains(k) || (
                    k.0 && exists|x: int| 0 <= x < n && #[trigger] keys@[x].spec_key() == k
                        && exists|j: int| 0 <= j < potential_removed_dir_paths@.len()
                            && spec_path_starts_with(k.2, #[trigger] potential_removed_dir_paths@[j]@)),
            decreases keys@.len() - n,
        {
            let ghost before = removed_items@;
            let ghost kn = keys@[n as int].spec_key();
            match &keys[n] {
                LibraryImageIdentifier::Path(item_path) => {
                    let mut q: usize = 0;
                    while q < potential_removed_dir_paths.len()
                        invariant
                            q <= potential_removed_dir_paths@.len(),
                            forall|j: int| 0 <= j < q ==> !spec_path_starts_with(item_path@, #[trigger] potential_removed_dir_paths@[j]@),
                        ensures
                            q <= potential_removed_dir_paths@.len(),
                            forall|j: int| 0 <= j < q ==> !spec_path_starts_with(item_path@, #[trigger] potential_removed_dir_paths@[j]@),
                            q < potential_removed_dir_paths@.len() ==> spec_path_starts_with(item_path@, potential_removed_dir_paths@[q as int]@),
                        decreases potential_removed_dir_paths@.len() - q,
                    {
                        if path_starts_with(item_path.as_str(), potential_removed_dir_paths[q].as_str()) {
                            break;
                        }
                        q = q + 1;
                    }
                    if q < potential_removed_dir_paths.len() {
                        let id = keys[n].duplicate();
                        removed_items.push(id);
                        proof {
                            lemma_insert_keys(before, before.len() as int, id);
                            assert(before.insert(before.len() as int, id) =~= removed_items@);
                            assert(dom.contains(kn));
                        }
                    }
                },
                LibraryImageIdentifier::Temp(_) => {},
            }
            proof {
                assert forall|k: IdKey| #[trigger] key_set(removed_items@).contains(k) <==> key_set(first).contains(k) || (
                    k.0 && exists|x: int| 0 <= x < n + 1 && #[trigger] keys@[x].spec_key() == k
                        && exists|j: int| 0 <= j < potential_removed_dir_paths@.len()
                            && spec_path_starts_with(k.2, #[trigger] potential_removed_dir_paths@[j]@)) by {
                    if k == kn && k.0 && exists|j: int| 0 <= j < potential_removed_dir_paths@.len()
                            && spec_path_starts_with(k.2, #[trigger] potential_removed_dir_paths@[j]@) {
                        let j = choose|j: int| 0 <= j < potential_removed_dir_paths@.len()
                            && spec_path_starts_with(k.2, #[trigger] potential_removed_dir_paths@[j]@);
                        assert(exists|x: int| 0 <= x < n + 1 && #[trigger] keys@[x].spec_key() == k);
                    }
                    if k.0 && exists|x: int| 0 <= x < n + 1 && #[trigger] keys@[x].spec_key() == k {
                        let x = choose|x: int| 0 <= x < n + 1 && #[trigger] keys@[x].spec_key() == k;
                        if x < n {
                            assert(exists|x: int| 0 <= x < n && #[trigger] keys@[x].spec_key() == k);
                        }
                    }
                }
            }
            n = n + 1;
        }
        proof {
            assert forall|k: IdKey| #[trigger] key_set(removed_items@).contains(k) <==> removed_by_paths(dom, removed_paths@).contains(k) by {
                if key_set(removed_items@).contains(k) {
                    let j = choose|j: int| 0 <= j < removed_items@.len() && #[trigger] removed_items@[j].spec_key() == k;
                    assert(dom.contains(k));
                    if !key_set(first).contains(k) {
                        let j = choose|j: int| 0 <= j < potential_removed_dir_paths@.len()
                            && spec_path_starts_with(k.2, #[trigger] potential_removed_dir_paths@[j]@);
                        let m = origin[j];
                        assert(removed_by_path(dom, k, removed_paths@[m]@));
                    } else {
                        let m = choose|m: int| 0 <= m < removed_paths@.len() && k.2 == #[trigger] removed_paths@[m]@;
                        assert(removed_by_path(dom, k, removed_paths@[m]@));
                    }
                }
                if removed_by_paths(dom, removed_paths@).contains(k) {
                    let m = choose|m: int| 0 <= m < removed_paths@.len() && removed_by_path(dom, k, #[trigger] removed_paths@[m]@);
                    if k.2 == removed_paths@[m]@ {
                        assert(key_set(first).contains(k));
                    } else {
                        assert(!dom.contains(LibraryImageIdentifier::Path(removed_paths@[m]).spec_key()));
                        let j = slot[m];
                        let x = choose|x: int| 0 <= x < keys@.len() && #[trigger] keys@[x].spec_key() == k;
                        assert(spec_path_starts_with(k.2, potential_removed_dir_paths@[j]@));
                    }
                }
            }
            assert(key_set(removed_items@) =~= removed_by_paths(dom, removed_paths@));
            assert(key_set(removed_items@).intersect(dom) =~= key_set(removed_items@));
            lemma_library_remove_keys(old(self)@, removed_items@);
        }
        self.remove_items(&removed_items)
    }

    /// Records a new value of an image's rating.
    pub fn set_rating(&mut self, identifier: &LibraryImageIdentifier, rating: ImageRating)
        requires
            old(self).well_formed(),
            old(self)@.items.dom().contains(identifier.spec_key()),
        ensures
            final(self).well_formed(),
            final(self)@ == old(self)@.with_items(old(self)@.items.insert(
                identifier.spec_key(),
                LibraryItemView { rating, ..old(self)@.items[identifier.spec_key()] },
            )),
    {
        let ghost old_items = self.items@;
        let item = self.items.get_mut(identifier);
        item.rating = rating;
        proof {
            assert(self.items@.dom() =~= old_items.dom());
            assert(item_name(self.items@) =~= item_name(old_items));
            assert forall|k: IdKey| #[trigger] self.items@.dom().contains(k) implies
                self.items@[k].metadata.name == old_items[k].metadata.name by {}
            assert(self@.items =~= old(self)@.items.insert(
                identifier.spec_key(),
                LibraryItemView { rating, ..old(self)@.items[identifier.spec_key()] },
            ));
        }
    }

    /// Drops the image and thumbnail loaded for an image file of the library.
    fn drop_loaded_of(&mut self, identifier: &LibraryImageIdentifier)
        requires
            old(self).well_formed(),
            identifier is Path,
            old(self)@.items.dom().contains(identifier.spec_key()),
        ensures
            final(self).well_formed(),
            final(self)@ == old(self)@.with_items(old(self)@.items.insert(
                identifier.spec_key(),
                LibraryItemView { image: None, thumbnail: None, ..old(self)@.items[identifier.spec_key()] },
            )),
    {
        let ghost old_items = self.items@;
        let item = self.items.get_mut(identifier);
        item.image = None;
        item.thumbnail = None;
        proof {
            assert(self.items@.dom() =~= old_items.dom());
            assert(item_name(self.items@) =~= item_name(old_items));
            assert forall|k: IdKey| #[trigger] self.items@.dom().contains(k) implies
                self.items@[k].metadata.name == old_items[k].metadata.name by {}
            assert(self@.items =~= old(self)@.items.insert(
                identifier.spec_key(),
                LibraryItemView { image: None, thumbnail: None, ..old(self)@.items[identifier.spec_key()] },
            ));
        }
    }

    /// Records the thumbnail made for an image of the library.
    pub fn store_thumbnail(&mut self, identifier: &LibraryImageIdentifier, thumbnail: I)
        requires
            old(self).well_formed(),
            old(self)@.items.dom().contains(identifier.spec_key()),
        ensures
            final(self).well_formed(),
            final(self)@ == old(self)@.with_items(old(self)@.items.insert(
                identifier.spec_key(),
                LibraryItemView { thumbnail: Some(thumbnail), ..old(self)@.items[identifier.spec_key()] },
            )),
    {
        let ghost old_items = self.items@;
        let item = self.items.get_mut(identifier);
        item.thumbnail = Some(thumbnail);
        proof {
            assert(self.items@.dom() =~= old_items.dom());
            assert(item_name(self.items@) =~= item_name(old_items));
            assert forall|k: IdKey| #[trigger] self.items@.dom().contains(k) implies
                self.items@[k].metadata.name == old_items[k].metadata.name by {}
            assert(self@.items =~= old(self)@.items.insert(
                identifier.spec_key(),
                LibraryItemView { thumbnail: Some(thumbnail), ..old(self)@.items[identifier.spec_key()] },
            ));
        }
    }

    /// Records the image loaded for an image of the library, which is then
    /// no longer counted unavailable.
    pub fn store_loaded_image(&mut self, identifier: &LibraryImageIdentifier, image: I)
        requires
            old(self).well_formed(),
            old(self)@.items.dom().contains(identifier.spec_key()),
        ensures
            final(self).well_formed(),
            final(self)@ == (LibraryView {
                items: old(self)@.items.insert(
                    identifier.spec_key(),
                    LibraryItemView { image: Some(image), ..old(self)@.items[identifier.spec_key()] },
                ),
                unavailable: old(self)@.unavailable.remove(identifier.spec_key()),
                ..old(self)@
            }),
    {
        let ghost old_items = self.items@;
        let item = self.items.get_mut(identifier);
        item.image = Some(image);
        self.unavailable_items.remove(identifier);
        proof {
            assert(self.items@.dom() =~= old_items.dom());
            assert(item_name(self.items@) =~= item_name(old_items));
            assert forall|k: IdKey| #[trigger] self.items@.dom().contains(k) implies
                self.items@[k].metadata.name == old_items[k].metadata.name by {}
            assert(self@.items =~= old(self)@.items.insert(
                identifier.spec_key(),
                LibraryItemView { image: Some(image), ..old(self)@.items[identifier.spec_key()] },
            ));
        }
    }

    /// Counts an image unavailable: its file could not be read.
    pub fn mark_unavailable(&mut self, identifier: &LibraryImageIdentifier)
        requires
            old(self).well_formed(),
        ensures
            final(self).well_formed(),
            final(self)@ == (LibraryView { unavailable: old(self)@.unavailable.insert(identifier.spec_key()), ..old(self)@ }),
    {
        self.unavailable_items.insert(identifier.duplicate(), ());
    }

    /// The image loaded for an image of the library, if any.
    pub fn loaded_image(&self, identifier: &LibraryImageIdentifier) -> (r: Option<&I>)
        requires
            self.well_formed(),
        ensures
            r == (if self@.items.dom().contains(identifier.spec_key()) {
                match self@.items[identifier.spec_key()].image {
                    Some(i) => Some(&i),
                    None => None,
                }
            } else {
                None
            }),
    {
        match self.items.get(identifier) {
            Some(item) => match &item.image {
                Some(i) => Some(i),
                None => None,
            },
            None => None,
        }
    }

    /// The thumbnail of an image of the library, if one is there.
    pub fn loaded_thumbnail(&self, identifier: &LibraryImageIdentifier) -> (r: Option<&I>)
        requires
            self.well_formed(),
        ensures
            r == (if self@.items.dom().contains(identifier.spec_key()) {
                match self@.items[identifier.spec_key()].thumbnail {
                    Some(i) => Some(&i),
                    None => None,
                }
            } else {
                None
            }),
    {
        match self.items.get(identifier) {
            Some(item) => match &item.thumbnail {
                Some(i) => Some(i),
                None => None,
            },
            None => None,
        }
    }

    /// The next step of loading the image `identifier`; a temporary image
    /// always has its image.
    pub fn next_load_action(&self, identifier: &LibraryImageIdentifier, thumbnail_file_tried: bool) -> (r: LoadAction)
        requires
            self.well_formed(),
        ensures
            r == next_load_action_of(self@, *identifier, thumbnail_file_tried),
            self@.items.dom().contains(identifier.spec_key()) && identifier is Temp ==> self@.items[identifier.spec_key()].image is Some,
    {
        proof {
            assert(self@.items.dom() == self.items@.dom());
        }
        match self.items.get(identifier) {
            None => LoadAction::NotInLibrary,
            Some(item) => match identifier {
                LibraryImageIdentifier::Path(p) => if item.thumbnail.is_none() && !thumbnail_file_tried {
                    LoadAction::ReadThumbnailFile(p.clone())
                } else if item.image.is_none() {
                    LoadAction::ReadImageFile(p.clone())
                } else if item.thumbnail.is_none() {
                    LoadAction::MakeThumbnail
                } else {
                    LoadAction::Ready
                },
                LibraryImageIdentifier::Temp(_) => if item.thumbnail.is_none() {
                    LoadAction::MakeThumbnail
                } else {
                    LoadAction::Ready
                },
            },
        }
    }

    /// When an image was edited, its thumbnail is the one made from the
    /// edited image.
    pub fn update_thumbnail_for_editted_image(&mut self, identifier: &LibraryImageIdentifier, thumbnail: I)
        requires
            old(self).well_formed(),
        ensures
            final(self).well_formed(),
            final(self)@ == if old(self)@.items.dom().contains(identifier.spec_key()) {
                old(self)@.with_items(old(self)@.items.insert(
                    identifier.spec_key(),
                    LibraryItemView { thumbnail: Some(thumbnail), ..old(self)@.items[identifier.spec_key()] },
                ))
            } else {
                old(self)@
            },
    {
        proof {
            assert(self@.items.dom() == self.items@.dom());
        }
        if self.items.contains_key(identifier) {
            self.store_thumbnail(identifier, thumbnail);
        }
    }

    /// Files were added or changed: for those the library holds, the loaded
    /// image and thumbnail are dropped; the others are added, each appended.
    /// Returns the paths of the files the library held, whose thumbnails on
    /// disk are out of date.
    pub fn handle_added_or_modified_images(&mut self, images: &Vec<String>, associatd_album: Option<usize>) -> (r: Vec<String>)
        requires
            old(self).well_formed(),
            associatd_album matches Some(a) ==> a < old(self)@.albums.len(),
        ensures
            final(self).well_formed(),
            final(self)@ == old(self)@.with_items(drop_loaded(old(self)@.items, images@)).add_paths(
                paths_not_in(old(self)@.items, images@),
                associatd_album,
            ),
            r@ == paths_in(old(self)@.items, images@),
    {
        let mut paths_to_add: Vec<String> = Vec::new();
        let mut stale: Vec<String> = Vec::new();
        let mut i: usize = 0;
        proof {
            assert(drop_loaded(old(self)@.items, images@.take(0)) =~= old(self)@.items);
            assert(old(self)@.with_items(old(self)@.items) == old(self)@);
        }
        while i < images.len()
            invariant
                self.well_formed(),
                i <= images@.len(),
                self@ == old(self)@.with_items(drop_loaded(old(self)@.items, images@.take(i as int))),
                paths_to_add@ == paths_not_in(old(self)@.items, images@.take(i as int)),
                stale@ == paths_in(old(self)@.items, images@.take(i as int)),
            decreases images@.len() - i,
        {
            let identifier = LibraryImageIdentifier::Path(images[i].clone());
            let ghost t = images@.take(i + 1);
            proof {
                assert(t.drop_last() =~= images@.take(i as int));
                assert(t.last() == images@[i as int]);
                assert(self@.items.dom() == self.items@.dom());
            }
            if self.items.contains_key(&identifier) {
                self.drop_loaded_of(&identifier);
                stale.push(images[i].clone());
            } else {
                paths_to_add.push(images[i].clone());
            }
            proof {
                let k = identifier.spec_key();
                let before = drop_loaded(old(self)@.items, images@.take(i as int));
                let after = drop_loaded(old(self)@.items, t);
                assert forall|k2: IdKey| #[trigger] after.dom().contains(k2) implies after[k2] == (
                    if k2 == k { LibraryItemView { image: None, thumbnail: None, ..before[k2] } } else { before[k2] }) by {
                    if exists|m: int| 0 <= m < t.len() && #[trigger] LibraryImageIdentifier::Path(t[m]).spec_key() == k2 {
                        let m = choose|m: int| 0 <= m < t.len() && #[trigger] LibraryImageIdentifier::Path(t[m]).spec_key() == k2;
                        if m < i {
                            assert(LibraryImageIdentifier::Path(images@.take(i as int)[m]).spec_key() == k2);
                        }
                    }
                    if exists|m: int| 0 <= m < i && #[trigger] LibraryImageIdentifier::Path(images@.take(i as int)[m]).spec_key() == k2 {
                        let m = choose|m: int| 0 <= m < i && #[trigger] LibraryImageIdentifier::Path(images@.take(i as int)[m]).spec_key() == k2;
                        assert(LibraryImageIdentifier::Path(t[m]).spec_key() == k2);
                    }
                    if k2 == k {
                        assert(LibraryImageIdentifier::Path(t[i as int]).spec_key() == k2);
                    }
                }
                if old(self)@.items.dom().contains(k) {
                    assert(after =~= before.insert(k, LibraryItemView { image: None, thumbnail: None, ..before[k] }));
                } else {
                    assert(after =~= before);
                }
            }
            i = i + 1;
        }
        proof {
            assert(images@.take(images@.len() as int) =~= images@);
        }
        let _ = self.add_items_from_paths(paths_to_add, associatd_album);
        stale
    }

    /// Lists the album `album_index` anew from its images added by hand and
    /// the files `images_in_dir` found in its directory.
    pub fn enumerate_album_images(&mut self, album_index: usize, images_in_dir: Vec<String>)
        requires
            old(self).well_formed(),
            album_index < old(self)@.albums.len(),
            temps_known(old(self)@.items, old(self)@.albums[album_index as int]),
        ensures
            final(self).well_formed(),
            final(self)@ == old(self)@.enumerate_album(album_index, images_in_dir@),
    {
        let ghost av = self@.albums[album_index as int];
        proof {
            assert(av == self.albums@[album_index as int]@);
        }
        let mut all_images = self.albums[album_index].copy_additional_images();
        if self.albums[album_index].has_directory() {
            let mut i: usize = 0;
            while i < images_in_dir.len()
                invariant
                    i <= images_in_dir@.len(),
                    all_images@ == av.additional_images + images_in_dir@.take(i as int).map_values(|p: String| LibraryImageIdentifier::Path(p)),
                decreases images_in_dir@.len() - i,
            {
                all_images.push(LibraryImageIdentifier::Path(images_in_dir[i].clone()));
                proof {
                    assert(images_in_dir@.take(i + 1).map_values(|p: String| LibraryImageIdentifier::Path(p))
                        =~= images_in_dir@.take(i as int).map_values(|p: String| LibraryImageIdentifier::Path(p)).push(LibraryImageIdentifier::Path(images_in_dir@[i as int])));
                }
                i = i + 1;
            }
            proof {
                assert(images_in_dir@.take(i as int) =~= images_in_dir@);
            }
        } else {
            proof {
                assert(all_images@ == av.additional_images);
            }
        }
        let ghost all = all_images@;
        proof {
            assert(all == album_images(av, images_in_dir@));
        }
        let listing = copy_identifiers(&all_images);
        self.albums[album_index].set_listing(listing);
        proof {
            assert forall|i: int| 0 <= i < self.albums@.len() implies (#[trigger] self.albums@[i]).well_formed() by {
                if i != album_index {
                    assert(self.albums@[i] == old(self).albums@[i]);
                }
            }
            assert(self@.albums =~= old(self)@.albums.update(album_index as int, av.with_items(all, av.items_order_dirty)));
            assert(self@ == old(self)@.with_albums(old(self)@.albums.update(album_index as int, av.with_items(all, av.items_order_dirty))));
        }
        let ghost listed = self@;
        let mut paths_to_add: Vec<String> = Vec::new();
        let mut i: usize = 0;
        while i < all_images.len()
            invariant
                self.well_formed(),
                self@ == listed,
                all_images@ == all,
                i <= all.len(),
                listed.items == old(self)@.items,
                forall|j: int| 0 <= j < all.len() && (#[trigger] all[j]) is Temp ==> old(self)@.items.dom().contains(all[j].spec_key()),
                paths_to_add@ == files_not_in(old(self)@.items, all.take(i as int)),
            decreases all.len() - i,
        {
            proof {
                assert(all.take(i + 1).drop_last() =~= all.take(i as int));
                assert(all.take(i + 1).last() == all[i as int]);
                assert(self@.items.dom() == self.items@.dom());
            }
            if !self.items.contains_key(&all_images[i]) {
                match &all_images[i] {
                    LibraryImageIdentifier::Path(p) => {
                        paths_to_add.push(p.clone());
                    },
                    LibraryImageIdentifier::Temp(_) => {
                        proof {
                            assert(all[i as int] is Temp);
                        }
                        unreached()
                    },
                }
            }
            i = i + 1;
        }
        proof {
            assert(all.take(all.len() as int) =~= all);
        }
        proof {
            lemma_add_paths_albums(listed, paths_to_add@, Some(album_index));
        }
        let _ = self.add_items_from_paths(paths_to_add, Some(album_index));
        self.ensure_items_order_for_album(album_index);
    }

    /// Adds the album of the directory `dir_path`, whose image files are
    /// `images_in_dir`, and lists it; an album of that directory that is there
    /// already is listed anew instead. Returns the album's index.
    pub fn add_album_from_directory(&mut self, dir_path: String, images_in_dir: Vec<String>) -> (r: usize)
        requires
            old(self).well_formed(),
            album_of_directory(old(self)@.albums, dir_path@) matches Some(j)
                ==> temps_known(old(self)@.items, old(self)@.albums[j]),
        ensures
            final(self).well_formed(),
            match album_of_directory(old(self)@.albums, dir_path@) {
                Some(j) => r == j && final(self)@ == old(self)@.enumerate_album(r, images_in_dir@),
                None => r == old(self)@.albums.len() && final(self)@ == old(self)@.with_albums(old(self)@.albums.push(AlbumView {
                    name: directory_album_name(dir_path@),
                    directory: Some(dir_path@),
                    additional_images: Seq::empty(),
                    items_ordered: Seq::empty(),
                    items_order_dirty: false,
                })).enumerate_album(r, images_in_dir@),
            },
    {
        let mut i: usize = 0;
        while i < self.albums.len()
            invariant
                self.well_formed(),
                self@ == old(self)@,
                i <= self@.albums.len(),
                album_of_directory(self@.albums.take(i as int), dir_path@) is None,
                album_of_directory(old(self)@.albums, dir_path@) matches Some(j)
                    ==> temps_known(old(self)@.items, old(self)@.albums[j]),
            decreases self@.albums.len() - i,
        {
            proof {
                assert(self@.albums[i as int] == self.albums@[i as int]@);
                assert(self@.albums.take(i + 1).drop_last() =~= self@.albums.take(i as int));
            }
            let same = self.albums[i].is_of_directory(&dir_path);
            if same {
                proof {
                    lemma_album_of_directory_prefix(self@.albums, dir_path@, i as int);
                    assert(album_of_directory(old(self)@.albums, dir_path@) == Some(i as int));
                    assert(temps_known(old(self)@.items, old(self)@.albums[i as int]));
                }
                self.enumerate_album_images(i, images_in_dir);
                return i;
            }
            i = i + 1;
        }
        proof {
            assert(self@.albums.take(i as int) =~= self@.albums);
        }
        let mut name = String::from_str("New Album");
        match path_file_name(dir_path.as_str()) {
            Some(directory_name) => {
                name = directory_name;
            },
            None => {},
        }
        proof {
            reveal_strlit("New Album");
        }
        let album = Album::new(name, Some(dir_path), Vec::new());
        let album_index = self.albums.len();
        self.albums.push(album);
        proof {
            assert(self@.albums =~= old(self)@.albums.push(album@));
            assert(temps_known(self@.items, self@.albums[album_index as int]));
        }
        self.enumerate_album_images(album_index, images_in_dir);
        album_index
    }

    /// Whether every image counted unavailable is still in the library: the
    /// condition under which `get_persistent_state` can take them out (an
    /// image counted unavailable stays counted after it is taken out, so a
    /// second save without reloading it does not meet it).
    pub fn unavailable_images_in_library(&self) -> (r: bool)
        requires
            self.well_formed(),
        ensures
            r == self@.unavailable.subset_of(self@.items.dom()),
    {
        let unavailable = self.unavailable_items.keys();
        let mut i: usize = 0;
        while i < unavailable.len()
            invariant
                self.well_formed(),
                i <= unavailable@.len(),
                forall|k: IdKey| #[trigger] self@.unavailable.contains(k) <==> exists|j: int|
                    0 <= j < unavailable@.len() && #[trigger] unavailable@[j].spec_key() == k,
                forall|j: int| 0 <= j < i ==> self@.items.dom().contains(#[trigger] unavailable@[j].spec_key()),
            decreases unavailable@.len() - i,
        {
            proof {
                assert(self@.items.dom() == self.items@.dom());
            }
            if !self.items.contains_key(&unavailable[i]) {
                proof {
                    assert(self@.unavailable.contains(unavailable@[i as int].spec_key()));
                }
                return false;
            }
            i = i + 1;
        }
        proof {
            assert forall|k: IdKey| #[trigger] self@.unavailable.contains(k) implies self@.items.dom().contains(k) by {
                let j = choose|j: int| 0 <= j < unavailable@.len() && #[trigger] unavailable@[j].spec_key() == k;
                assert(self@.items.dom().contains(unavailable@[j].spec_key()));
            }
        }
        true
    }

    /// What is saved of the library, made by the build `version`. The images
    /// found unavailable are taken out of the library first, and the list is
    /// put in name order; the saved images are the files of the list, in
    /// order, with their ratings. Also returns the images taken out, each
    /// once, in no particular order.
    pub fn get_persistent_state(&mut self, version: Version) -> (r: (LibraryPersistentState, Vec<LibraryImageIdentifier>))
        requires
            old(self).well_formed(),
            old(self)@.unavailable.subset_of(old(self)@.items.dom()),
        ensures
            key_set(r.1@) == old(self)@.unavailable,
            final(self).well_formed(),
            final(self)@ == old(self)@.remove_keys(r.1@).ordered(),
            keys_unique(r.1@),
            key_set(r.1@) == old(self)@.unavailable.intersect(old(self)@.items.dom()),
            r.0.version == version,
            r.0.items@.len() == saved_items(final(self)@.order, final(self)@.items).len(),
            forall|i: int| 0 <= i < r.0.items@.len() ==> {
                &&& (#[trigger] r.0.items@[i]).path@ == saved_items(final(self)@.order, final(self)@.items)[i].0
                &&& r.0.items@[i].rating == saved_items(final(self)@.order, final(self)@.items)[i].1
            },
            r.0.albums@.len() == final(self)@.albums.len(),
            forall|i: int| 0 <= i < r.0.albums@.len() ==> {
                &&& (#[trigger] r.0.albums@[i]).name@ == final(self)@.albums[i].name
                &&& opt_string_view(r.0.albums@[i].directory) == final(self)@.albums[i].directory
                &&& r.0.albums@[i].additional_images@ == final(self)@.albums[i].additional_images
            },
    {
        // these items are found to be unavailable, so remove them from the library
        let unavailable = self.unavailable_items.keys();
        proof {
            assert(key_set(unavailable@) =~= old(self)@.unavailable);
            lemma_library_remove_keys(old(self)@, unavailable@);
            assert(key_set(unavailable@).intersect(old(self)@.items.dom()) =~= old(self)@.unavailable.intersect(old(self)@.items.dom()));
        }
        let removed = self.remove_items(&unavailable);
        self.ensure_items_order();
        let ghost order = self.items_ordered@;
        let ghost items = self@.items;
        let mut persistent_items: Vec<LibraryPersistentStateItem> = Vec::new();
        let mut i: usize = 0;
        while i < self.items_ordered.len()
            invariant
                self.well_formed(),
                self.items_ordered@ == order,
                self@.items == items,
                self@.order == order,
                i <= order.len(),
                persistent_items@.len() == saved_items(order.take(i as int), items).len(),
                forall|j: int| 0 <= j < persistent_items@.len() ==> {
                    &&& (#[trigger] persistent_items@[j]).path@ == saved_items(order.take(i as int), items)[j].0
                    &&& persistent_items@[j].rating == saved_items(order.take(i as int), items)[j].1
                },
            decreases order.len() - i,
        {
            proof {
                assert(order.take(i + 1).drop_last() =~= order.take(i as int));
                assert(order.take(i + 1).last() == order[i as int]);
                assert(key_set(order).contains(order[i as int].spec_key()));
                assert(self@.items.dom() == self.items@.dom());
            }
            match &self.items_ordered[i] {
                LibraryImageIdentifier::Path(path) => {
                    let rating = match self.items.get(&self.items_ordered[i]) {
                        Some(item) => item.rating,
                        None => unreached(),
                    };
                    persistent_items.push(LibraryPersistentStateItem { path: path.clone(), rating });
                },
                LibraryImageIdentifier::Temp(_) => {},
            }
            i = i + 1;
        }
        proof {
            assert(order.take(order.len() as int) =~= order);
        }
        let mut persistent_albums: Vec<AlbumPersistentState> = Vec::new();
        let mut j: usize = 0;
        while j < self.albums.len()
            invariant
                j <= self.albums@.len(),
                persistent_albums@.len() == j,
                forall|x: int| 0 <= x < j ==> {
                    &&& (#[trigger] persistent_albums@[x]).name@ == self.albums@[x]@.name
                    &&& opt_string_view(persistent_albums@[x].directory) == self.albums@[x]@.directory
                    &&& persistent_albums@[x].additional_images@ == self.albums@[x]@.additional_images
                },
            decreases self.albums@.len() - j,
        {
            persistent_albums.push(self.albums[j].get_persistent_state());
            j = j + 1;
        }
        (LibraryPersistentState { version, items: persistent_items, albums: persistent_albums }, removed)
    }

    /// Loads a saved state: its images are added, each appended and given its
    /// saved rating; its albums are added; then every album is listed anew,
    /// album `j` from the files `album_listings[j]` of its directory, and the
    /// list is put in name order.
    pub fn load_persistent_state(&mut self, state: LibraryPersistentState, album_listings: Vec<Vec<String>>)
        requires
            old(self).well_formed(),
            album_listings@.len() == old(self)@.albums.len() + state.albums@.len(),
            forall|j: int| 0 <= j < old(self)@.albums.len() ==> temps_known(old(self)@.items, #[trigger] old(self)@.albums[j]),
            forall|j: int| 0 <= j < state.albums@.len() ==> temps_known(old(self)@.items, saved_album(#[trigger] state.albums@[j])),
        ensures
            final(self).well_formed(),
            final(self)@ == ({
                let v1 = old(self)@.add_saved_items(state.items@);
                let v2 = v1.with_albums(v1.albums + state.albums@.map_values(|st: AlbumPersistentState| saved_album(st)));
                v2.enumerate_albums(album_listings@, v2.albums.len()).ordered()
            }),
    {
        let mut i: usize = 0;
        while i < state.items.len()
            invariant
                self.well_formed(),
                i <= state.items@.len(),
                self@ == old(self)@.add_saved_items(state.items@.take(i as int)),
            decreases state.items@.len() - i,
        {
            proof {
                assert(state.items@.take(i + 1).drop_last() =~= state.items@.take(i as int));
                assert(state.items@.take(i + 1).last() == state.items@[i as int]);
            }
            let identifier = self.add_item_from_path_impl(state.items[i].path.clone(), None, false);
            self.set_rating(&identifier, state.items[i].rating);
            i = i + 1;
        }
        proof {
            assert(state.items@.take(state.items@.len() as int) =~= state.items@);
            lemma_add_saved_items_frame(old(self)@, state.items@);
        }
        let ghost v1 = self@;
        let mut j: usize = 0;
        while j < state.albums.len()
            invariant
                self.well_formed(),
                j <= state.albums@.len(),
                self@ == v1.with_albums(v1.albums + state.albums@.take(j as int).map_values(|st: AlbumPersistentState| saved_album(st))),
            decreases state.albums@.len() - j,
        {
            let st = &state.albums[j];
            let directory = match &st.directory {
                Some(d) => Some(d.clone()),
                None => None,
            };
            let album = Album::new(st.name.clone(), directory, copy_identifiers(&st.additional_images));
            proof {
                assert(opt_string_view(directory) == opt_string_view(state.albums@[j as int].directory));
                assert(album@ == saved_album(state.albums@[j as int]));
            }
            let ghost before = self@.albums;
            let ghost raw_before = self.albums@;
            self.albums.push(album);
            proof {
                assert(before =~= raw_before.map_values(|a: Album| a@));
                assert(self@.albums =~= before.push(album@));
                assert(state.albums@.take(j + 1).map_values(|st: AlbumPersistentState| saved_album(st))
                    =~= state.albums@.take(j as int).map_values(|st: AlbumPersistentState| saved_album(st)).push(saved_album(state.albums@[j as int])));
                assert(self@.albums =~= v1.albums + state.albums@.take(j + 1).map_values(|st: AlbumPersistentState| saved_album(st)));
            }
            j = j + 1;
        }
        proof {
            assert(state.albums@.take(state.albums@.len() as int) =~= state.albums@);
        }
        let ghost v2 = self@;
        let mut album_index: usize = 0;
        while album_index < self.albums.len()
            invariant
                self.well_formed(),
                album_listings@.len() == v2.albums.len(),
                album_index <= v2.albums.len(),
                self@ == v2.enumerate_albums(album_listings@, album_index as nat),
                self@.albums.len() == v2.albums.len(),
                forall|b: int| album_index <= b < v2.albums.len() ==> #[trigger] self@.albums[b] == v2.albums[b],
                old(self)@.items.dom().subset_of(self@.items.dom()),
                forall|b: int| 0 <= b < v2.albums.len() ==> temps_known(old(self)@.items, #[trigger] v2.albums[b]),
            decreases v2.albums.len() - album_index,
        {
            let listing = copy_strings(&album_listings[album_index]);
            proof {
                assert(temps_known(self@.items, self@.albums[album_index as int]));
                lemma_enumerate_album_frame(self@, album_index, listing@);
            }
            self.enumerate_album_images(album_index, listing);
            album_index = album_index + 1;
        }
        self.ensure_items_order();
    }

    /// Adds an image of the library to an album by hand, unless the album
    /// lists it already.
    pub fn add_existing_item_into_album(&mut self, image: &LibraryImageIdentifier, album: usize)
        requires
            old(self).well_formed(),
            album < old(self)@.albums.len(),
        ensures
            final(self).well_formed(),
            final(self)@ == old(self)@.with_albums(old(self)@.albums.update(
                album as int,
                old(self)@.albums[album as int].with_existing(names(old(self)@.items), *image),
            )),
    {
        proof {
            lemma_names(self.items@);
            assert(self@.albums[album as int] == self.albums@[album as int]@);
        }
        self.albums[album].add_existing_image(&self.items, image);
        proof {
            assert forall|i: int| 0 <= i < self.albums@.len() implies (#[trigger] self.albums@[i]).well_formed() by {
                if i != album {
                    assert(self.albums@[i] == old(self).albums@[i]);
                }
            }
            assert(self@.albums =~= old(self)@.albums.update(
                album as int,
                old(self)@.albums[album as int].with_existing(names(old(self)@.items), *image),
            ));
        }
    }

    /// Takes `image` out of the album: out of the images added by hand, and
    /// out of the list.
    pub fn remove_image_from_album(&mut self, album_index: usize, image: &LibraryImageIdentifier)
        requires
            old(self).well_formed(),
            album_index < old(self)@.albums.len(),
        ensures
            final(self).well_formed(),
            final(self)@ == old(self)@.with_albums(old(self)@.albums.update(
                album_index as int,
                old(self)@.albums[album_index as int].without(image.spec_key()),
            )),
    {
        proof {
            assert(self@.albums[album_index as int] == self.albums@[album_index as int]@);
        }
        self.albums[album_index].remove_image(image);
        proof {
            assert forall|i: int| 0 <= i < self.albums@.len() implies (#[trigger] self.albums@[i]).well_formed() by {
                if i != album_index {
                    assert(self.albums@[i] == old(self).albums@[i]);
                }
            }
            assert(self@.albums =~= old(self)@.albums.update(
                album_index as int,
                old(self)@.albums[album_index as int].without(image.spec_key()),
            ));
        }
    }

    /// Takes an image of the library out of it, out of its list and out of
    /// every album.
    fn remove_one(&mut self, identifier: &LibraryImageIdentifier)
        requires
            old(self).well_formed(),
            old(self)@.items.dom().contains(identifier.spec_key()),
        ensures
            final(self).well_formed(),
            final(self)@ == old(self)@.remove_key(identifier.spec_key()),
    {
        let ghost k = identifier.spec_key();
        let ghost s = self.items_ordered@;
        let ghost old_items = self.items@;
        proof {
            lemma_index_map(s);
        }
        self.items.remove(identifier);
        let index = match self.item_indices.get(identifier) {
            Some(i) => *i,
            None => unreached(),
        };
        self.items_ordered.remove(index);
        rebuild_indices(&self.items_ordered, &mut self.item_indices);
        proof {
            lemma_remove_keys(s, index as int);
            let t = self.items_ordered@;
            assert(t == s.remove(index as int));
            if !self.items_order_dirty {
                assert forall|i: int, j: int| 0 <= i < j < t.len() implies
                    !name_lt(#[trigger] item_name(self.items@)(t[j]), #[trigger] item_name(self.items@)(t[i])) by {
                    let si = if i < index { i } else { i + 1 };
                    let sj = if j < index { j } else { j + 1 };
                    assert(t[i] == s[si]);
                    assert(t[j] == s[sj]);
                    assert(s[si].spec_key() != k);
                    assert(s[sj].spec_key() != k);
                    assert(!name_lt(item_name(old_items)(s[sj]), item_name(old_items)(s[si])));
                }
            }
            assert(self@.items =~= old(self)@.items.remove(k));
        }
        remove_from_albums(&mut self.albums, identifier);
        proof {
            assert(self@.albums =~= old(self)@.albums.map_values(|av: AlbumView| av.without(k)));
        }
    }

    /// Takes the images `items_to_remove` out of the library in turn, those
    /// it holds; returns these.
    fn remove_items(&mut self, items_to_remove: &Vec<LibraryImageIdentifier>) -> (r: Vec<LibraryImageIdentifier>)
        requires
            old(self).well_formed(),
        ensures
            final(self).well_formed(),
            final(self)@ == old(self)@.remove_keys(items_to_remove@),
            r@ == old(self)@.removed(items_to_remove@),
    {
        let mut removed: Vec<LibraryImageIdentifier> = Vec::new();
        let mut i: usize = 0;
        while i < items_to_remove.len()
            invariant
                self.well_formed(),
                i <= items_to_remove@.len(),
                self@ == old(self)@.remove_keys(items_to_remove@.take(i as int)),
                removed@ == old(self)@.removed(items_to_remove@.take(i as int)),
            decreases items_to_remove@.len() - i,
        {
            let identifier = &items_to_remove[i];
            proof {
                let t = items_to_remove@.take(i + 1);
                assert(t.drop_last() =~= items_to_remove@.take(i as int));
                assert(t.last() == items_to_remove@[i as int]);
                assert(self@.items.dom() == self.items@.dom());
            }
            if self.items.contains_key(identifier) {
                self.remove_one(identifier);
                removed.push(identifier.duplicate());
            }
            i = i + 1;
        }
        proof {
            assert(items_to_remove@.take(items_to_remove@.len() as int) =~= items_to_remove@);
        }
        removed
    }

    /// The rating of an image of the library.
    pub fn get_rating(&self, identifier: &LibraryImageIdentifier) -> (r: ImageRating)
        requires
            self.well_formed(),
            self@.items.dom().contains(identifier.spec_key()),
        ensures
            r == self@.items[identifier.spec_key()].rating,
    {
        match self.items.get(identifier) {
            Some(item) => item.rating,
            None => unreached(),
        }
    }

    /// The metadata of an image of the library.
    pub fn get_metadata(&self, identifier: &LibraryImageIdentifier) -> (r: LibraryImageMetaData)
        requires
            self.well_formed(),
            self@.items.dom().contains(identifier.spec_key()),
        ensures
            opt_chars(r.name) == self@.items[identifier.spec_key()].name,
    {
        match self.items.get(identifier) {
            Some(item) => LibraryImageMetaData {
                name: match &item.metadata.name {
                    Some(n) => Some(n.clone()),
                    None => None,
                },
            },
            None => unreached(),
        }
    }
}

/// A file of the library of key `k` is removed with `path`: it is at that
/// path, or under it, when no image of the library is at that path.
pub open spec fn removed_by_path(dom: Set<IdKey>, k: IdKey, path: Seq<char>) -> bool {
    k.2 == path || (!dom.contains((true, 0u32, path)) && spec_path_starts_with(k.2, path))
}

/// The images of the library that go with the removal of `removed_paths`.
pub open spec fn removed_by_paths(dom: Set<IdKey>, removed_paths: Seq<String>) -> Set<IdKey> {
    Set::new(|k: IdKey| dom.contains(k) && k.0 && exists|m: int| 0 <= m < removed_paths.len()
        && removed_by_path(dom, k, #[trigger] removed_paths[m]@))
}

/// A copy of a list of strings.
fn copy_strings(v: &Vec<String>) -> (r: Vec<String>)
    ensures
        r@ == v@,
{
    let mut r: Vec<String> = Vec::new();
    let mut i: usize = 0;
    while i < v.len()
        invariant
            i <= v@.len(),
            r@ == v@.take(i as int),
        decreases v@.len() - i,
    {
        r.push(v[i].clone());
        proof {
            assert(v@.take(i + 1) =~= v@.take(i as int).push(v@[i as int]));
        }
        i = i + 1;
    }
    proof {
        assert(v@.take(i as int) =~= v@);
    }
    r
}

/// The list of a library names each of its images exactly once, and is in
/// name order unless images were appended since it was last ordered.
pub proof fn lemma_library_list<I>(lib: Library<I>)
    requires
        lib.well_formed(),
    ensures
        key_set(lib@.order) == lib@.items.dom(),
        keys_unique(lib@.order),
        lib@.order.len() == lib@.items.dom().len(),
        !lib@.dirty ==> sorted_by_name(lib@.order, names(lib@.items)),
{
    lemma_names(lib.items@);
    assert(lib@.items.dom() =~= lib.items@.dom());
    lemma_key_set_len(lib.items_ordered@);
}

/// Takes `identifier` out of every album.
fn remove_from_albums(albums: &mut Vec<Album>, identifier: &LibraryImageIdentifier)
    requires
        forall|i: int| 0 <= i < old(albums)@.len() ==> (#[trigger] old(albums)@[i]).well_formed(),
    ensures
        final(albums)@.len() == old(albums)@.len(),
        forall|i: int| 0 <= i < final(albums)@.len() ==> (#[trigger] final(albums)@[i]).well_formed(),
        forall|i: int| 0 <= i < final(albums)@.len() ==> (#[trigger] final(albums)@[i])@ == old(albums)@[i]@.without(identifier.spec_key()),
{
    let mut j: usize = 0;
    while j < albums.len()
        invariant
            j <= albums@.len(),
            albums@.len() == old(albums)@.len(),
            forall|i: int| 0 <= i < albums@.len() ==> (#[trigger] albums@[i]).well_formed(),
            forall|i: int| 0 <= i < j ==> (#[trigger] albums@[i])@ == old(albums)@[i]@.without(identifier.spec_key()),
            forall|i: int| j <= i < albums@.len() ==> #[trigger] albums@[i] == old(albums)@[i],
        decreases albums@.len() - j,
    {
        let ghost before = albums@;
        albums[j].remove_image(identifier);
        proof {
            assert forall|i: int| 0 <= i < albums@.len() && i != j implies #[trigger] albums@[i] == before[i] by {}
        }
        j = j + 1;
    }
}

/// The album after the library's ordering step for it: the list is sorted by
/// name only when the album is not marked as having appended images; an
/// album so marked keeps its list as it is. (The step tests the flag this
/// way round, so a marked album stays unsorted.)
pub open spec fn album_resorted_when_clean<I>(av: AlbumView, items: Map<IdKey, LibraryItemView<I>>) -> AlbumView {
    if av.items_order_dirty {
        av
    } else {
        av.with_items(sort_by_name(av.items_ordered, names(items)), false)
    }
}

} // verus!
