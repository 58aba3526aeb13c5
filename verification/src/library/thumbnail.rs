//! Where the thumbnail of an image file is kept: under the persistent
//! storage directory, in a folder named by the SHA-256 digest of the file.
use vstd::prelude::*;

use crate::library::ordering::chars_of;

verus! {

/// The SHA-256 digest of `bytes`, written in lower-case hexadecimal.
pub uninterp spec fn spec_sha256_hex(bytes: Seq<u8>) -> Seq<char>;

/// A lower-case hexadecimal digit.
pub open spec fn is_lower_hex(c: char) -> bool {
    ('0' <= c && c <= '9') || ('a' <= c && c <= 'f')
}

/// Calls `sha256::digest_bytes`: the SHA-256 digest of `bytes`, which
/// `hex::encode` writes as 64 lower-case hexadecimal digits. The contract
/// names the digest and states its form.
#[verifier::external_body]
fn sha256_hex(bytes: &[u8]) -> (r: String)
    ensures
        r@ == spec_sha256_hex(bytes@),
        r@.len() == 64,
        forall|i: int| 0 <= i < r@.len() ==> is_lower_hex(#[trigger] r@[i]),
{
    sha256::digest_bytes(bytes)
}

/// `name`, a relative path, put under the directory `dir`: a separator goes
/// between them unless `dir` is empty or already ends with one.
pub open spec fn spec_join(dir: Seq<char>, name: Seq<char>) -> Seq<char> {
    if dir.len() == 0 || dir.last() == '/' {
        dir + name
    } else {
        dir + seq!['/'] + name
    }
}

/// Puts the relative path `name` under the directory `dir`.
pub fn join_path(dir: &str, name: &str) -> (r: String)
    ensures
        r@ == spec_join(dir@, name@),
{
    let chars = chars_of(dir);
    let mut r = String::from_str(dir);
    if chars.len() > 0 && chars[chars.len() - 1] != '/' {
        r.append("/");
        proof {
            reveal_strlit("/");
            assert("/"@ =~= seq!['/']);
        }
    }
    r.append(name);
    proof {
        assert(spec_join(dir@, name@) =~= r@);
    }
    r
}

/// Where the thumbnail of the image file whose contents are `image_bytes` is
/// kept, under the storage directory `storage_dir`.
pub open spec fn spec_thumbnail_path(storage_dir: Seq<char>, image_bytes: Seq<u8>) -> Seq<char> {
    spec_join(spec_join(spec_join(storage_dir, "library"@), spec_sha256_hex(image_bytes)), "thumbnail.jpg"@)
}

/// Where the thumbnail of an image file is kept: `None` unless the file's
/// contents `image_bytes` and the storage directory `storage_dir` are known.
pub fn get_thumbnail_path_for_image_path(image_bytes: Option<&[u8]>, storage_dir: Option<&str>) -> (r: Option<String>)
    ensures
        r is Some <==> image_bytes is Some && storage_dir is Some,
        r matches Some(p) ==> p@ == spec_thumbnail_path(storage_dir.unwrap()@, image_bytes.unwrap()@),
{
    match (image_bytes, storage_dir) {
        (Some(bytes), Some(dir)) => {
            let digest_str = sha256_hex(bytes);
            let library_dir = join_path(dir, "library");
            let digest_dir = join_path(library_dir.as_str(), digest_str.as_str());
            Some(join_path(digest_dir.as_str(), "thumbnail.jpg"))
        },
        _ => None,
    }
}

} // verus!
