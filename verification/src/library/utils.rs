//! Which files the library accepts as images.
use vstd::prelude::*;

verus! {

/// The extension of a path, as `std::path::Path::extension` finds it.
pub uninterp spec fn spec_path_extension(path: Seq<char>) -> Option<Seq<char>>;

/// The final component of a path, as `std::path::Path::file_name` finds it.
pub uninterp spec fn spec_path_file_name(path: Seq<char>) -> Option<Seq<char>>;

/// Whether `base` is a prefix of `path`, component by component, as
/// `std::path::Path::starts_with` decides it.
pub uninterp spec fn spec_path_starts_with(path: Seq<char>, base: Seq<char>) -> bool;

/// Two paths are equal component by component, as `std::path::Path`'s `==`
/// decides it.
pub uninterp spec fn spec_paths_equal(a: Seq<char>, b: Seq<char>) -> bool;

/// A string in lower case, as `str::to_lowercase` makes it.
pub uninterp spec fn spec_to_lowercase(s: Seq<char>) -> Seq<char>;

/// Calls `std::path::Path::extension` on the path `path`: the part of the
/// final component after its last `.`, if any. The contract names the result
/// and claims nothing else of it.
#[verifier::external_body]
fn path_extension(path: &str) -> (r: Option<String>)
    ensures
        match r {
            Some(e) => spec_path_extension(path@) == Some(e@),
            None => spec_path_extension(path@) is None,
        },
{
    std::path::Path::new(path).extension().and_then(|e| e.to_str()).map(|e| e.to_string())
}

/// Calls `std::path::Path::file_name` on the path `path`: its final
/// component, unless the path ends in `..` or is a root or a prefix. The
/// contract names the result and claims nothing else of it.
#[verifier::external_body]
pub(crate) fn path_file_name(path: &str) -> (r: Option<String>)
    ensures
        match r {
            Some(n) => spec_path_file_name(path@) == Some(n@),
            None => spec_path_file_name(path@) is None,
        },
{
    std::path::Path::new(path).file_name().and_then(|n| n.to_str()).map(|n| n.to_string())
}

/// Calls `std::path::Path::starts_with`: whether `base` is a prefix of
/// `path`, comparing whole components only. The contract names the result and
/// claims nothing else of it.
#[verifier::external_body]
pub(crate) fn path_starts_with(path: &str, base: &str) -> (r: bool)
    ensures
        r == spec_path_starts_with(path@, base@),
{
    std::path::Path::new(path).starts_with(base)
}

/// Calls `==` on `std::path::Path`: whether the two paths have the same
/// components. The contract names the result and claims nothing else of it.
#[verifier::external_body]
pub(crate) fn paths_equal(a: &str, b: &str) -> (r: bool)
    ensures
        r == spec_paths_equal(a@, b@),
{
    std::path::Path::new(a) == std::path::Path::new(b)
}

/// Calls `str::to_lowercase`. The contract names the result and claims
/// nothing else of it.
#[verifier::external_body]
fn to_lowercase(s: &str) -> (r: String)
    ensures
        r@ == spec_to_lowercase(s@),
{
    s.to_lowercase()
}

/// The lower-case extensions of the image files the library reads.
pub open spec fn spec_is_supported_extension(ext: Seq<char>) -> bool {
    ext == "jpg"@ || ext == "jpeg"@ || ext == "png"@
}

pub open spec fn spec_is_supported_image_file(path: Seq<char>) -> bool {
    match spec_path_extension(path) {
        Some(ext) => spec_is_supported_extension(spec_to_lowercase(ext)),
        None => false,
    }
}

/// The extension, already in lower case, is one of `jpg`, `jpeg` and `png`.
pub fn is_supported_extension(ext_str: &String) -> (r: bool)
    ensures
        r == spec_is_supported_extension(ext_str@),
{
    let jpg = String::from_str("jpg");
    let jpeg = String::from_str("jpeg");
    let png = String::from_str("png");
    *ext_str == jpg || *ext_str == jpeg || *ext_str == png
}

/// The file's extension, in lower case, is `jpg`, `jpeg` or `png`.
pub fn is_supported_image_file(path: &str) -> (r: bool)
    ensures
        r == spec_is_supported_image_file(path@),
{
    if let Some(ext) = path_extension(path) {
        let ext_str = to_lowercase(ext.as_str());
        if is_supported_extension(&ext_str) {
            return true;
        }
    }
    false
}

} // verus!
