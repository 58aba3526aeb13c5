use salon::runtime::ImageTransform::{FlipHorizontal, FlipVertical, Rotate180, Rotate270, Rotate90};
use salon::runtime::{orientation_of_field, orientation_transforms, try_image_orientation};

/// A little-endian TIFF file whose first directory holds one Orientation
/// entry of type SHORT with the value `o`.
fn tiff_with_orientation(o: u16) -> Vec<u8> {
    let mut v = vec![b'I', b'I', 42, 0, 8, 0, 0, 0];
    v.extend_from_slice(&[1, 0]);
    v.extend_from_slice(&[0x12, 0x01, 3, 0, 1, 0, 0, 0]);
    v.extend_from_slice(&o.to_le_bytes());
    v.extend_from_slice(&[0, 0]);
    v.extend_from_slice(&[0, 0, 0, 0]);
    v
}

#[test]
fn field_values_outside_one_to_eight_are_upright() {
    assert_eq!(orientation_of_field(Some(6)), 6);
    assert_eq!(orientation_of_field(Some(1)), 1);
    assert_eq!(orientation_of_field(Some(8)), 8);
    assert_eq!(orientation_of_field(Some(0)), 1);
    assert_eq!(orientation_of_field(Some(9)), 1);
    assert_eq!(orientation_of_field(None), 1);
}

#[test]
fn orientation_is_read_from_exif() {
    assert_eq!(try_image_orientation(&tiff_with_orientation(6)), Some(6));
    assert_eq!(try_image_orientation(&tiff_with_orientation(3)), Some(3));
    assert_eq!(try_image_orientation(&tiff_with_orientation(42)), Some(1));
}

#[test]
fn unreadable_files_have_no_orientation() {
    assert_eq!(try_image_orientation(b"not an image"), None);
}

#[test]
fn transforms_for_each_orientation() {
    assert_eq!(orientation_transforms(1), vec![]);
    assert_eq!(orientation_transforms(2), vec![FlipHorizontal]);
    assert_eq!(orientation_transforms(3), vec![Rotate180]);
    assert_eq!(orientation_transforms(4), vec![FlipVertical]);
    assert_eq!(orientation_transforms(5), vec![Rotate90, FlipHorizontal]);
    assert_eq!(orientation_transforms(6), vec![Rotate90]);
    assert_eq!(orientation_transforms(7), vec![Rotate270, FlipHorizontal]);
    assert_eq!(orientation_transforms(8), vec![Rotate270]);
    assert_eq!(orientation_transforms(9), vec![]);
}
