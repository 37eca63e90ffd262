use osnip::codec;
use osnip::pin_id::PinId;
use osnip::pixels::RgbaImage;
use osnip::thumbnail::{
    is_cleared, is_shrinkable, is_temp_file, path, render, scaled_size, temp_path,
};

fn fixture(w: u32, h: u32) -> RgbaImage {
    let mut raw: Vec<u8> = Vec::new();
    for _ in 0..w * h {
        raw.extend_from_slice(&[1, 2, 3, 255]);
    }
    RgbaImage::from_raw(w, h, raw).expect("fixture")
}

#[test]
fn scaled_size_fits_the_box_and_keeps_aspect() {
    assert_eq!(scaled_size(1024, 512), (256, 128));
    assert_eq!(scaled_size(512, 1024), (128, 256));
    assert_eq!(scaled_size(256, 256), (256, 256));
}

#[test]
fn scaled_size_does_not_upscale() {
    assert_eq!(scaled_size(40, 30), (40, 30));
}

#[test]
fn scaled_size_never_collapses_an_extreme_aspect_to_zero() {
    let (w, h) = scaled_size(4000, 1);
    assert_eq!(w, 256);
    assert!(h >= 1, "height rounded to {h}");
}

#[test]
fn scaled_size_agrees_with_double_precision() {
    for longest in [257u32, 300, 511, 512, 513, 1000, 1920, 2560, 3840, 4097, 65_535, 1_000_003] {
        let scale = 256.0 / f64::from(longest);
        for other in [0u32, 1, 2, 3, 100, 128, 200, 255, 256] {
            let w = ((f64::from(longest) * scale).round() as u32).max(1);
            let h = ((f64::from(other) * scale).round() as u32).max(1);
            assert_eq!(scaled_size(longest, other), (w, h));
            assert_eq!(scaled_size(other, longest), (h, w));
        }
    }
}

#[test]
fn write_produces_a_decodable_png_within_the_box() {
    let file = osnip::thumbnail::write(b"/tmp/thumbs", PinId::new(7), &fixture(1000, 500)).expect("write");
    assert_eq!(file.path, b"/tmp/thumbs/7.png".to_vec());
    let decoded = codec::decode(&file.png).expect("decode");
    assert_eq!((decoded.width(), decoded.height()), (256, 128));
}

#[test]
fn write_goes_through_a_temp_file_in_the_same_directory() {
    let file = osnip::thumbnail::write(b"/tmp/thumbs", PinId::new(1), &fixture(300, 300)).expect("write");
    assert_eq!(file.temp_path, b"/tmp/thumbs/.1.png.tmp".to_vec());
    assert!(is_temp_file(&file.temp_path));
    assert!(!is_temp_file(&file.path));
}

#[test]
fn write_overwrites_an_existing_thumbnail() {
    let id = PinId::new(2);
    let first = osnip::thumbnail::write(b"/tmp/thumbs", id, &fixture(1000, 500)).expect("first");
    let second = osnip::thumbnail::write(b"/tmp/thumbs", id, &fixture(500, 1000)).expect("second");
    assert_eq!(first.path, second.path);
    let decoded = codec::decode(&second.png).expect("decode");
    assert_eq!((decoded.width(), decoded.height()), (128, 256));
}

#[test]
fn a_small_image_is_its_own_thumbnail() {
    let small = fixture(10, 10);
    let thumb = render(&small).expect("thumbnail");
    assert_eq!((thumb.width(), thumb.height()), (10, 10));
    assert_eq!(thumb.as_raw(), small.as_raw());
}

#[test]
fn a_plain_image_stays_plain() {
    let thumb = render(&fixture(512, 256)).expect("thumbnail");
    assert_eq!((thumb.width(), thumb.height()), (256, 128));
    assert!(thumb.as_raw().chunks(4).all(|p| p == [1, 2, 3, 255]));
}

#[test]
fn clear_empties_the_directory() {
    let dir = b"/tmp/thumbs";
    assert!(is_cleared(&path(dir, PinId::new(1))));
    assert!(is_cleared(&path(dir, PinId::new(2))));
    assert!(is_cleared(&temp_path(dir, PinId::new(2))));
    assert!(!is_cleared(b"/tmp/thumbs/notes.txt"));
    assert!(!is_cleared(b"/tmp/thumbs/png"));
    assert!(!is_cleared(b"/tmp/thumbs/.png"));
}

#[test]
fn thumbnails_of_different_pins_do_not_share_a_file() {
    assert_ne!(path(b"/t", PinId::new(1)), path(b"/t", PinId::new(11)));
}

#[test]
fn ordinary_sizes_are_shrinkable() {
    assert!(is_shrinkable(1, 1));
    assert!(is_shrinkable(7680, 4320));
}

#[test]
fn lines_are_shrinkable_however_long() {
    for length in [16_777_217, 20_000_000, u32::MAX] {
        assert!(is_shrinkable(length, 1));
        assert!(is_shrinkable(1, length));
    }
    assert!(!is_shrinkable(u32::MAX, u32::MAX));
}

#[test]
fn narrow_images_are_shrinkable() {
    for (length, breadth) in [(717_000_000, 2), (16_000_000, 268), (u32::MAX, 1)] {
        assert!(is_shrinkable(length, breadth));
        assert!(is_shrinkable(breadth, length));
    }
}

#[test]
fn images_are_shrinkable_up_to_the_largest_sums() {
    assert!(is_shrinkable(256 * 4100, 256 * 4100));
    assert!(!is_shrinkable(256 * 4101, 256 * 4101));
    assert!(is_shrinkable(0, u32::MAX));
}

#[test]
fn a_very_long_line_has_a_thumbnail() {
    let thumb = render(&fixture(17_000_000, 1)).expect("thumbnail");
    assert_eq!((thumb.width(), thumb.height()), (256, 1));
    assert!(thumb.as_raw().chunks(4).all(|p| p == [1, 2, 3, 255]));
}
