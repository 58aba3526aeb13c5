use salon::library::album::Album;
use salon::library::catalog::{Library, LoadAction};
use salon::library::identifier::LibraryImageIdentifier;
use salon::library::metadata::{
    AlbumPersistentState, LibraryImageMetaData, LibraryPersistentState, LibraryPersistentStateItem, Version,
};
use salon::library::rating::ImageRating;

fn path(p: &str) -> LibraryImageIdentifier {
    LibraryImageIdentifier::Path(p.to_string())
}

fn order(lib: &mut Library<u32>) -> Vec<String> {
    let mut names = Vec::new();
    for i in 0..lib.num_images_total() {
        match lib.get_identifier_at_index(i) {
            LibraryImageIdentifier::Path(p) => names.push(p.clone()),
            LibraryImageIdentifier::Temp(u) => names.push(format!("temp:{}", u)),
        }
    }
    names
}

fn album_order(lib: &mut Library<u32>, album: usize) -> Vec<String> {
    let mut names = Vec::new();
    for i in 0..lib.num_images_in_album(album) {
        match lib.get_identifier_at_index_for_album(i, album) {
            LibraryImageIdentifier::Path(p) => names.push(p.clone()),
            LibraryImageIdentifier::Temp(u) => names.push(format!("temp:{}", u)),
        }
    }
    names
}

#[test]
fn new_library_is_empty() {
    let lib: Library<u32> = Library::new();
    assert_eq!(lib.num_images_total(), 0);
    assert_eq!(lib.albums().len(), 0);
}

#[test]
fn single_items_are_kept_in_name_order() {
    let mut lib: Library<u32> = Library::new();
    lib.add_single_item_from_path("/p/b.jpg".to_string(), None);
    lib.add_single_item_from_path("/p/c.jpg".to_string(), None);
    lib.add_single_item_from_path("/p/a.jpg".to_string(), None);
    assert_eq!(lib.num_images_total(), 3);
    assert_eq!(order(&mut lib), vec!["/p/a.jpg", "/p/b.jpg", "/p/c.jpg"]);
}

#[test]
fn appended_items_are_ordered_when_read() {
    let mut lib: Library<u32> = Library::new();
    let ids = lib.add_items_from_paths(vec!["/p/z.jpg".to_string(), "/q/y.jpg".to_string(), "/r/x.jpg".to_string()], None);
    assert_eq!(ids.len(), 3);
    assert!(ids[0].equals(&path("/p/z.jpg")));
    assert_eq!(order(&mut lib), vec!["/r/x.jpg", "/q/y.jpg", "/p/z.jpg"]);
}

#[test]
fn names_come_from_the_final_path_component() {
    let mut lib: Library<u32> = Library::new();
    let id = lib.add_single_item_from_path("/photos/holiday/beach.png".to_string(), None);
    assert_eq!(lib.get_metadata(&id).name, Some("beach.png".to_string()));
}

#[test]
fn adding_a_path_twice_keeps_one_image_and_replaces_it() {
    let mut lib: Library<u32> = Library::new();
    let id = lib.add_single_item_from_path("/p/a.jpg".to_string(), None);
    lib.set_rating(&id, ImageRating::new(Some(4)));
    assert_eq!(lib.get_rating(&id).num_stars, Some(4));
    lib.add_single_item_from_path("/p/a.jpg".to_string(), None);
    assert_eq!(lib.num_images_total(), 1);
    assert_eq!(lib.get_rating(&id).num_stars, None);
}

#[test]
fn temporary_images_get_increasing_uuids_and_sort_by_name() {
    let mut lib: Library<u32> = Library::new();
    lib.add_single_item_from_path("/p/a.jpg".to_string(), None);
    let t0 = lib.add_image_temp(10, 11, None, LibraryImageMetaData { name: Some("0.png".to_string()) });
    let t1 = lib.add_image_temp(20, 21, None, LibraryImageMetaData { name: None });
    assert!(t0.equals(&LibraryImageIdentifier::Temp(0)));
    assert!(t1.equals(&LibraryImageIdentifier::Temp(1)));
    assert_eq!(order(&mut lib), vec!["temp:1", "temp:0", "/p/a.jpg"]);
    assert_eq!(lib.loaded_image(&t0), Some(&10));
    assert_eq!(lib.loaded_thumbnail(&t1), Some(&21));
}

#[test]
fn ratings_are_recorded() {
    let mut lib: Library<u32> = Library::new();
    let id = lib.add_single_item_from_path("/p/a.jpg".to_string(), None);
    assert_eq!(lib.get_rating(&id).num_stars, None);
    lib.set_rating(&id, ImageRating::new(Some(ImageRating::MAX_STARS)));
    assert_eq!(lib.get_rating(&id).num_stars, Some(5));
}

#[test]
fn albums_take_images_by_hand_once() {
    let mut lib: Library<u32> = Library::new();
    lib.create_new_album("Trip".to_string());
    let a = lib.add_single_item_from_path("/p/a.jpg".to_string(), None);
    let b = lib.add_single_item_from_path("/p/b.jpg".to_string(), None);
    lib.add_existing_item_into_album(&b, 0);
    lib.add_existing_item_into_album(&a, 0);
    lib.add_existing_item_into_album(&a, 0);
    assert_eq!(lib.num_images_in_album(0), 2);
    assert_eq!(album_order(&mut lib, 0), vec!["/p/a.jpg", "/p/b.jpg"]);
    assert_eq!(lib.albums()[0].get_persistent_state().additional_images.len(), 2);
    assert!(lib.albums()[0].contains_image(&a));
    lib.remove_image_from_album(0, &a);
    assert_eq!(lib.num_images_in_album(0), 1);
    assert!(!lib.albums()[0].contains_image(&a));
    assert_eq!(lib.albums()[0].get_persistent_state().additional_images.len(), 1);
    assert_eq!(lib.num_images_total(), 2);
}

#[test]
fn albums_without_directory_can_be_deleted() {
    let mut lib: Library<u32> = Library::new();
    lib.create_new_album("One".to_string());
    lib.create_new_album("Two".to_string());
    lib.delete_album(0);
    assert_eq!(lib.albums().len(), 1);
    assert_eq!(lib.albums()[0].name, "Two");
}

#[test]
fn directory_album_lists_its_files_in_name_order() {
    let mut lib: Library<u32> = Library::new();
    let index = lib.add_album_from_directory(
        "/photos/trip".to_string(),
        vec!["/photos/trip/b.jpg".to_string(), "/photos/trip/a.jpg".to_string()],
    );
    assert_eq!(index, 0);
    assert_eq!(lib.albums()[0].name, "trip");
    assert_eq!(lib.albums()[0].directory, Some("/photos/trip".to_string()));
    assert_eq!(lib.num_images_total(), 2);
    assert_eq!(album_order(&mut lib, 0), vec!["/photos/trip/a.jpg", "/photos/trip/b.jpg"]);
    // the same directory again lists the album anew
    let again = lib.add_album_from_directory("/photos/trip".to_string(), vec!["/photos/trip/c.jpg".to_string()]);
    assert_eq!(again, 0);
    assert_eq!(lib.albums().len(), 1);
    assert_eq!(lib.num_images_total(), 3);
    assert_eq!(album_order(&mut lib, 0), vec!["/photos/trip/c.jpg"]);
}

#[test]
fn directory_album_of_a_root_is_called_new_album() {
    let mut lib: Library<u32> = Library::new();
    lib.add_album_from_directory("/".to_string(), vec![]);
    assert_eq!(lib.albums()[0].name, "New Album");
}

#[test]
fn removed_directory_takes_its_images_out() {
    let mut lib: Library<u32> = Library::new();
    lib.add_album_from_directory(
        "/photos/trip".to_string(),
        vec!["/photos/trip/a.jpg".to_string(), "/photos/trip/sub/b.jpg".to_string()],
    );
    lib.add_single_item_from_path("/photos/tripx/c.jpg".to_string(), None);
    lib.add_single_item_from_path("/other/d.jpg".to_string(), None);
    let removed = lib.handle_removed_paths(vec!["/photos/trip".to_string(), "/other/d.jpg".to_string()]);
    assert_eq!(removed.len(), 3);
    assert_eq!(lib.num_images_total(), 1);
    assert_eq!(order(&mut lib), vec!["/photos/tripx/c.jpg"]);
    assert_eq!(lib.num_images_in_album(0), 0);
}

#[test]
fn removing_unknown_paths_changes_nothing() {
    let mut lib: Library<u32> = Library::new();
    lib.add_single_item_from_path("/p/a.jpg".to_string(), None);
    let removed = lib.handle_removed_paths(vec!["/q/b.jpg".to_string()]);
    assert_eq!(removed.len(), 0);
    assert_eq!(lib.num_images_total(), 1);
}

#[test]
fn modified_images_drop_what_was_loaded_and_new_ones_are_added() {
    let mut lib: Library<u32> = Library::new();
    let a = lib.add_single_item_from_path("/p/a.jpg".to_string(), None);
    lib.store_loaded_image(&a, 7);
    lib.store_thumbnail(&a, 8);
    let stale = lib.handle_added_or_modified_images(&vec!["/p/a.jpg".to_string(), "/p/b.jpg".to_string()], None);
    assert_eq!(stale, vec!["/p/a.jpg".to_string()]);
    assert_eq!(lib.loaded_image(&a), None);
    assert_eq!(lib.loaded_thumbnail(&a), None);
    assert_eq!(lib.num_images_total(), 2);
}

#[test]
fn loading_goes_thumbnail_file_then_image_file() {
    let mut lib: Library<u32> = Library::new();
    let a = lib.add_single_item_from_path("/p/a.jpg".to_string(), None);
    assert!(matches!(lib.next_load_action(&a, false), LoadAction::ReadThumbnailFile(p) if p == "/p/a.jpg"));
    assert!(matches!(lib.next_load_action(&a, true), LoadAction::ReadImageFile(p) if p == "/p/a.jpg"));
    lib.store_loaded_image(&a, 1);
    assert!(matches!(lib.next_load_action(&a, true), LoadAction::MakeThumbnail));
    lib.store_thumbnail(&a, 2);
    assert!(matches!(lib.next_load_action(&a, false), LoadAction::Ready));
    assert!(matches!(lib.next_load_action(&path("/none.jpg"), false), LoadAction::NotInLibrary));
}

#[test]
fn edited_image_gets_a_new_thumbnail() {
    let mut lib: Library<u32> = Library::new();
    let a = lib.add_single_item_from_path("/p/a.jpg".to_string(), None);
    lib.update_thumbnail_for_editted_image(&a, 99);
    assert_eq!(lib.loaded_thumbnail(&a), Some(&99));
    lib.update_thumbnail_for_editted_image(&path("/p/none.jpg"), 5);
    assert_eq!(lib.num_images_total(), 1);
}

#[test]
fn saving_drops_unavailable_images_and_keeps_ratings() {
    let mut lib: Library<u32> = Library::new();
    let b = lib.add_single_item_from_path("/p/b.jpg".to_string(), None);
    let a = lib.add_single_item_from_path("/p/a.jpg".to_string(), None);
    let c = lib.add_single_item_from_path("/p/c.jpg".to_string(), None);
    lib.add_image_temp(1, 2, None, LibraryImageMetaData { name: Some("t.png".to_string()) });
    lib.set_rating(&b, ImageRating::new(Some(3)));
    lib.mark_unavailable(&c);
    lib.create_new_album("Favourites".to_string());
    lib.add_existing_item_into_album(&a, 0);
    let version = Version { major: 1, minor: 2, patch: 3 };
    assert!(lib.unavailable_images_in_library());
    let (state, removed) = lib.get_persistent_state(version);
    assert_eq!(removed.len(), 1);
    assert!(removed[0].equals(&c));
    assert_eq!(state.version, version);
    assert_eq!(state.items.len(), 2);
    assert_eq!(state.items[0].path, "/p/a.jpg");
    assert_eq!(state.items[0].rating.num_stars, None);
    assert_eq!(state.items[1].path, "/p/b.jpg");
    assert_eq!(state.items[1].rating.num_stars, Some(3));
    assert_eq!(state.albums.len(), 1);
    assert_eq!(state.albums[0].name, "Favourites");
    assert_eq!(state.albums[0].additional_images.len(), 1);
    assert_eq!(lib.num_images_total(), 3);
    // the image stays counted unavailable after it was taken out
    assert!(!lib.unavailable_images_in_library());
}

#[test]
fn loading_a_saved_state_restores_images_ratings_and_albums() {
    let mut lib: Library<u32> = Library::new();
    let state = LibraryPersistentState {
        version: Version { major: 0, minor: 1, patch: 0 },
        items: vec![
            LibraryPersistentStateItem { path: "/p/b.jpg".to_string(), rating: ImageRating::new(Some(2)) },
            LibraryPersistentStateItem { path: "/p/a.jpg".to_string(), rating: ImageRating::new(None) },
        ],
        albums: vec![AlbumPersistentState {
            name: "Dir".to_string(),
            directory: Some("/d".to_string()),
            additional_images: vec![path("/p/b.jpg")],
        }],
    };
    lib.load_persistent_state(state, vec![vec!["/d/z.jpg".to_string()]]);
    assert_eq!(lib.num_images_total(), 3);
    assert_eq!(order(&mut lib), vec!["/p/a.jpg", "/p/b.jpg", "/d/z.jpg"]);
    assert_eq!(lib.get_rating(&path("/p/b.jpg")).num_stars, Some(2));
    assert_eq!(lib.albums().len(), 1);
    assert_eq!(album_order(&mut lib, 0), vec!["/p/b.jpg", "/d/z.jpg"]);
}

#[test]
fn empty_saved_state_has_the_version() {
    let state = LibraryPersistentState::new(Version { major: 2, minor: 0, patch: 1 });
    assert_eq!(state.version, Version { major: 2, minor: 0, patch: 1 });
    assert!(state.items.is_empty());
    assert!(state.albums.is_empty());
}

#[test]
fn album_from_saved_state_lists_nothing_yet() {
    let album = Album::from_persistent_state(AlbumPersistentState {
        name: "A".to_string(),
        directory: None,
        additional_images: vec![path("/x.jpg")],
    });
    assert_eq!(album.num_images(), 0);
    assert_eq!(album.name, "A");
    let saved = album.get_persistent_state();
    assert_eq!(saved.additional_images.len(), 1);
    assert!(saved.additional_images[0].equals(&path("/x.jpg")));
}

#[test]
fn albums_can_be_changed_in_place() {
    let mut lib: Library<u32> = Library::new();
    lib.albums_mut().push(Album::new("Made".to_string(), None, Vec::new()));
    assert_eq!(lib.albums().len(), 1);
    assert_eq!(lib.albums()[0].name, "Made");
}

#[test]
fn files_appended_to_an_album_stay_after_the_ordered_ones() {
    let mut lib: Library<u32> = Library::new();
    lib.add_album_from_directory(
        "/photos/trip".to_string(),
        vec!["/photos/trip/b.jpg".to_string(), "/photos/trip/a.jpg".to_string()],
    );
    lib.handle_added_or_modified_images(&vec!["/photos/trip/0.jpg".to_string()], Some(0));
    assert_eq!(album_order(&mut lib, 0), vec!["/photos/trip/a.jpg", "/photos/trip/b.jpg", "/photos/trip/0.jpg"]);
    assert_eq!(order(&mut lib), vec!["/photos/trip/0.jpg", "/photos/trip/a.jpg", "/photos/trip/b.jpg"]);
}

#[test]
fn removed_files_leave_the_albums_that_list_them() {
    let mut lib: Library<u32> = Library::new();
    lib.create_new_album("Picks".to_string());
    let a = lib.add_single_item_from_path("/p/a.jpg".to_string(), Some(0));
    lib.add_existing_item_into_album(&a, 0);
    assert_eq!(lib.num_images_in_album(0), 1);
    let removed = lib.handle_removed_paths(vec!["/p/a.jpg".to_string()]);
    assert_eq!(removed.len(), 1);
    assert_eq!(lib.num_images_in_album(0), 0);
    assert_eq!(lib.num_images_total(), 0);
}
