//! How a decoded photo is turned upright: the Exif orientation recorded in
//! the file, and the flips and turns that undo it.
use vstd::prelude::*;

verus! {

#[verifier::external_type_specification]
#[verifier::external_body]
pub struct ExExifError(exif::Error);

/// What the Exif attributes of the image file `bytes` say of its
/// orientation: `None` when they cannot be read, else the first unsigned
/// integer of the Orientation field of the primary image, if there is one.
pub uninterp spec fn spec_exif_orientation_field(bytes: Seq<u8>) -> Option<Option<u32>>;

/// Reads the Exif attributes of the image file `bytes` with
/// `exif::Reader::read_from_container`, then takes `Exif::get_field` for the
/// Orientation tag of the primary image and `Value::get_uint(0)` of its value.
/// The contract names the outcome, a function of the bytes alone, and claims
/// nothing else of it.
#[verifier::external_body]
fn read_exif_orientation_field(bytes: &[u8]) -> (r: Result<Option<u32>, exif::Error>)
    ensures
        match r {
            Ok(v) => spec_exif_orientation_field(bytes@) == Some(v),
            Err(_) => spec_exif_orientation_field(bytes@) is None,
        },
{
    exif::Reader::new().read_from_container(&mut std::io::Cursor::new(bytes)).map(
        |exif| exif.get_field(exif::Tag::Orientation, exif::In::PRIMARY).and_then(|f| f.value.get_uint(0)),
    )
}

/// The orientation that a field value stands for: a value from 1 to 8 is
/// one of the eight Exif orientations; anything else, or no value, is 1 (upright).
pub open spec fn spec_orientation_of_field(field: Option<u32>) -> u32 {
    match field {
        Some(v) => if 1 <= v <= 8 {
            v
        } else {
            1
        },
        None => 1,
    }
}

/// The orientation that a field value stands for.
pub fn orientation_of_field(field: Option<u32>) -> (r: u32)
    ensures
        r == spec_orientation_of_field(field),
        1 <= r <= 8,
{
    match field {
        Some(v) => if 1 <= v && v <= 8 {
            v
        } else {
            1
        },
        None => 1,
    }
}

/// The Exif orientation of the image file `bytes`, whose Exif attributes can
/// be read.
pub fn image_orientation(bytes: &[u8]) -> (r: u32)
    requires
        spec_exif_orientation_field(bytes@) is Some,
    ensures
        r == spec_orientation_of_field(spec_exif_orientation_field(bytes@)->0),
        1 <= r <= 8,
{
    match read_exif_orientation_field(bytes) {
        Ok(field) => orientation_of_field(field),
        Err(_) => unreached(),
    }
}

/// The Exif orientation of the image file `bytes`, or `None` when its Exif
/// attributes cannot be read.
pub fn try_image_orientation(bytes: &[u8]) -> (r: Option<u32>)
    ensures
        r is Some <==> spec_exif_orientation_field(bytes@) is Some,
        r matches Some(o) ==> o == spec_orientation_of_field(spec_exif_orientation_field(bytes@)->0),
{
    match read_exif_orientation_field(bytes) {
        Ok(_) => Some(image_orientation(bytes)),
        Err(_) => None,
    }
}

/// A flip or turn of an image.
#[derive(Clone, Copy, PartialEq, Eq, Structural, Debug)]
pub enum ImageTransform {
    FlipHorizontal,
    FlipVertical,
    Rotate90,
    Rotate180,
    Rotate270,
}

/// The transforms that turn an image stored with Exif orientation `o` upright,
/// applied in order: orientation 2 is a horizontal mirror, 3 a half turn, 4 a
/// vertical mirror, 5 and 7 a quarter turn combined with a mirror, 6 and 8 a
/// quarter turn.
pub open spec fn spec_orientation_transforms(o: u32) -> Seq<ImageTransform> {
    if o == 2 {
        seq![ImageTransform::FlipHorizontal]
    } else if o == 3 {
        seq![ImageTransform::Rotate180]
    } else if o == 4 {
        seq![ImageTransform::FlipVertical]
    } else if o == 5 {
        seq![ImageTransform::Rotate90, ImageTransform::FlipHorizontal]
    } else if o == 6 {
        seq![ImageTransform::Rotate90]
    } else if o == 7 {
        seq![ImageTransform::Rotate270, ImageTransform::FlipHorizontal]
    } else if o == 8 {
        seq![ImageTransform::Rotate270]
    } else {
        seq![]
    }
}

/// The transforms that turn an image stored with Exif orientation
/// `orientation` upright, applied in order.
pub fn orientation_transforms(orientation: u32) -> (r: Vec<ImageTransform>)
    ensures
        r@ == spec_orientation_transforms(orientation),
{
    let mut r: Vec<ImageTransform> = Vec::new();
    if orientation == 2 {
        r.push(ImageTransform::FlipHorizontal);
    } else if orientation == 3 {
        r.push(ImageTransform::Rotate180);
    } else if orientation == 4 {
        r.push(ImageTransform::FlipVertical);
    } else if orientation == 5 {
        r.push(ImageTransform::Rotate90);
        r.push(ImageTransform::FlipHorizontal);
    } else if orientation == 6 {
        r.push(ImageTransform::Rotate90);
    } else if orientation == 7 {
        r.push(ImageTransform::Rotate270);
        r.push(ImageTransform::FlipHorizontal);
    } else if orientation == 8 {
        r.push(ImageTransform::Rotate270);
    }
    proof {
        assert(r@ =~= spec_orientation_transforms(orientation));
    }
    r
}

} // verus!
