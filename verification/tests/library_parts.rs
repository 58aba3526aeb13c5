use salon::library::identifier::LibraryImageIdentifier;
use salon::library::identifier_map::IdentifierMap;
use salon::library::image_cache::ImageCache;
use salon::library::local_library::LocalLibrary;
use salon::library::metadata::AddImageResult;
use salon::library::ordering::{name_less, string_less};
use salon::library::thumbnail::{get_thumbnail_path_for_image_path, join_path};
use salon::library::utils::{is_supported_extension, is_supported_image_file};

#[test]
fn supported_image_files_by_extension() {
    assert!(is_supported_image_file("/photos/a.jpg"));
    assert!(is_supported_image_file("/photos/a.JPG"));
    assert!(is_supported_image_file("b.jpeg"));
    assert!(is_supported_image_file("c.PnG"));
    assert!(!is_supported_image_file("d.gif"));
    assert!(!is_supported_image_file("/photos/noext"));
    assert!(!is_supported_image_file("/photos/.jpg"));
    assert!(!is_supported_image_file(""));
}

#[test]
fn supported_extensions_are_lower_case() {
    assert!(is_supported_extension(&"jpg".to_string()));
    assert!(is_supported_extension(&"png".to_string()));
    assert!(!is_supported_extension(&"JPG".to_string()));
    assert!(!is_supported_extension(&"tiff".to_string()));
}

#[test]
fn identifier_paths_and_kinds() {
    let p = LibraryImageIdentifier::Path("/a/b.jpg".to_string());
    let t = LibraryImageIdentifier::Temp(3);
    assert_eq!(p.get_path(), Some("/a/b.jpg".to_string()));
    assert_eq!(t.get_path(), None);
    assert!(t.is_temp());
    assert!(!p.is_temp());
    assert!(p.equals(&p.duplicate()));
    assert!(!p.equals(&t));
    assert!(!t.equals(&LibraryImageIdentifier::Temp(4)));
}

#[test]
fn identifier_map_holds_one_value_per_identifier() {
    let mut m: IdentifierMap<u32> = IdentifierMap::new();
    let a = LibraryImageIdentifier::Path("/a".to_string());
    let b = LibraryImageIdentifier::Temp(1);
    assert_eq!(m.insert(a.duplicate(), 1), None);
    assert_eq!(m.insert(b.duplicate(), 2), None);
    assert_eq!(m.insert(a.duplicate(), 3), Some(1));
    assert_eq!(m.len(), 2);
    assert_eq!(m.get(&a), Some(&3));
    *m.get_mut(&b) = 5;
    assert_eq!(m.get(&b), Some(&5));
    assert!(m.contains_key(&b));
    assert_eq!(m.keys().len(), 2);
    assert_eq!(m.remove(&a), Some(3));
    assert_eq!(m.remove(&a), None);
    assert!(!m.contains_key(&a));
    assert_eq!(m.len(), 1);
}

#[test]
fn names_compare_as_optional_strings() {
    assert!(string_less(&"a".to_string(), &"b".to_string()));
    assert!(string_less(&"ab".to_string(), &"b".to_string()));
    assert!(string_less(&"a".to_string(), &"ab".to_string()));
    assert!(!string_less(&"b".to_string(), &"b".to_string()));
    assert!(string_less(&"B".to_string(), &"a".to_string()));
    assert!(name_less(&None, &Some("a".to_string())));
    assert!(!name_less(&Some("a".to_string()), &None));
    assert!(!name_less(&None, &None));
    assert!(!name_less(&Some("b".to_string()), &Some("a".to_string())));
}

#[test]
fn local_library_adds_each_file_once() {
    let mut lib: LocalLibrary<u32> = LocalLibrary::new();
    assert!(matches!(lib.add("/x/a.jpg", true), AddImageResult::AddedNewImage(0)));
    assert!(matches!(lib.add("/x/b.jpg", true), AddImageResult::AddedNewImage(1)));
    assert!(matches!(lib.add("/x/a.jpg", true), AddImageResult::ImageAlreadyExists(0)));
    assert!(matches!(lib.add("/x//b.jpg", true), AddImageResult::ImageAlreadyExists(1)));
    assert_eq!(lib.num_images(), 2);
    assert_eq!(lib.path(1), "/x/b.jpg");
}

#[test]
fn local_library_refuses_missing_files() {
    let mut lib: LocalLibrary<u32> = LocalLibrary::new();
    match lib.add("/missing.jpg", false) {
        AddImageResult::Error(msg) => assert_eq!(msg, "cannot open /missing.jpg"),
        _ => panic!("expected an error"),
    }
    assert_eq!(lib.num_images(), 0);
}

#[test]
fn local_library_keeps_loaded_images() {
    let mut lib: LocalLibrary<u32> = LocalLibrary::new();
    lib.add("/x/a.jpg", true);
    assert_eq!(lib.cached_image(0), None);
    lib.store_image(0, 42);
    assert_eq!(lib.cached_image(0), Some(&42));
}

#[test]
fn paths_are_joined_with_one_separator() {
    assert_eq!(join_path("/store", "library"), "/store/library");
    assert_eq!(join_path("/store/", "library"), "/store/library");
    assert_eq!(join_path("", "library"), "library");
}

#[test]
fn thumbnail_path_is_under_the_digest_of_the_file() {
    let p = get_thumbnail_path_for_image_path(Some(b"abc".as_slice()), Some("/store"));
    assert_eq!(
        p,
        Some("/store/library/ba7816bf8f01cfea414140de5dae2223b00361a396177a9cb410ff61f20015ad/thumbnail.jpg".to_string())
    );
    assert_eq!(get_thumbnail_path_for_image_path(None, Some("/store")), None);
    assert_eq!(get_thumbnail_path_for_image_path(Some(b"abc".as_slice()), None), None);
}

fn path_id(p: &str) -> LibraryImageIdentifier {
    LibraryImageIdentifier::Path(p.to_string())
}

#[test]
fn image_cache_keeps_temporary_images_and_evicts_files() {
    let mut cache = ImageCache::new(2);
    assert_eq!(cache.set(LibraryImageIdentifier::Temp(7), 70), None);
    assert_eq!(cache.set(path_id("/a.jpg"), 1), None);
    assert_eq!(cache.set(path_id("/b.jpg"), 2), None);
    assert_eq!(cache.get(&path_id("/a.jpg")), Some(1));
    // the cache of files is full: the least recently used file leaves
    assert_eq!(cache.set(path_id("/c.jpg"), 3), Some(2));
    assert!(!cache.contains(&path_id("/b.jpg")));
    assert!(cache.contains(&path_id("/a.jpg")));
    assert!(cache.contains(&path_id("/c.jpg")));
    // temporary images are never dropped by the cache
    assert_eq!(cache.get(&LibraryImageIdentifier::Temp(7)), Some(70));
    assert_eq!(cache.set(LibraryImageIdentifier::Temp(8), 80), None);
    assert_eq!(cache.get(&LibraryImageIdentifier::Temp(7)), Some(70));
}

#[test]
fn image_cache_replaces_and_removes() {
    let mut cache = ImageCache::new(3);
    assert_eq!(cache.set(path_id("/a.jpg"), 1), None);
    assert_eq!(cache.set(path_id("/a.jpg"), 5), Some(1));
    assert_eq!(cache.get(&path_id("/a.jpg")), Some(5));
    assert_eq!(cache.set(LibraryImageIdentifier::Temp(1), 9), None);
    assert_eq!(cache.set(LibraryImageIdentifier::Temp(1), 10), Some(9));
    assert_eq!(cache.remove(&LibraryImageIdentifier::Temp(1)), Some(10));
    assert_eq!(cache.remove(&LibraryImageIdentifier::Temp(1)), None);
    assert_eq!(cache.remove(&path_id("/a.jpg")), Some(5));
    assert!(!cache.contains(&path_id("/a.jpg")));
    assert_eq!(cache.get(&path_id("/missing.jpg")), None);
}

#[test]
fn image_cache_evicts_the_least_recently_used_file() {
    let mut cache = ImageCache::new(2);
    assert_eq!(cache.set(path_id("/a.jpg"), 1), None);
    assert_eq!(cache.set(path_id("/b.jpg"), 2), None);
    // without a look-up, the file set first is the least recently used
    assert_eq!(cache.set(path_id("/c.jpg"), 3), Some(1));
    // contains does not change the order of use
    assert!(cache.contains(&path_id("/b.jpg")));
    assert_eq!(cache.set(path_id("/d.jpg"), 4), Some(2));
    assert_eq!(cache.get(&path_id("/c.jpg")), Some(3));
    assert_eq!(cache.get(&path_id("/d.jpg")), Some(4));
}
