use osnip::codec;
use osnip::image_ops::{flip_horizontal, flip_vertical, rotate_left, rotate_right};
use osnip::pixels::RgbaImage;

fn put(raw: &mut [u8], width: usize, x: usize, y: usize, pixel: [u8; 4]) {
    let at = (y * width + x) * 4;
    raw[at..at + 4].copy_from_slice(&pixel);
}

fn get(image: &RgbaImage, x: usize, y: usize) -> [u8; 4] {
    let at = (y * image.width() as usize + x) * 4;
    let raw = image.as_raw();
    [raw[at], raw[at + 1], raw[at + 2], raw[at + 3]]
}

fn fixture() -> RgbaImage {
    // Asymmetric in both axes so any swap or flip is detectable.
    let mut raw: Vec<u8> = Vec::new();
    for _ in 0..6 {
        raw.extend_from_slice(&[0, 0, 0, 255]);
    }
    put(&mut raw, 3, 0, 0, [1, 0, 0, 255]);
    put(&mut raw, 3, 2, 0, [2, 0, 0, 255]);
    put(&mut raw, 3, 0, 1, [3, 0, 0, 255]);
    put(&mut raw, 3, 2, 1, [4, 0, 0, 255]);
    RgbaImage::from_raw(3, 2, raw).expect("fixture")
}

#[test]
fn rotate_right_swaps_dimensions() {
    let img = fixture();
    let r = rotate_right(&img);
    assert_eq!(r.width(), img.height());
    assert_eq!(r.height(), img.width());
}

#[test]
fn rotate_right_moves_top_left_to_top_right() {
    let r = rotate_right(&fixture());
    assert_eq!(get(&r, 1, 0), [1, 0, 0, 255]);
    assert_eq!(get(&r, 1, 2), [2, 0, 0, 255]);
    assert_eq!(get(&r, 0, 0), [3, 0, 0, 255]);
    assert_eq!(get(&r, 0, 2), [4, 0, 0, 255]);
}

#[test]
fn rotate_left_moves_top_left_to_bottom_left() {
    let r = rotate_left(&fixture());
    assert_eq!((r.width(), r.height()), (2, 3));
    assert_eq!(get(&r, 0, 2), [1, 0, 0, 255]);
    assert_eq!(get(&r, 0, 0), [2, 0, 0, 255]);
}

#[test]
fn four_rotates_right_are_identity() {
    let img = fixture();
    let r = rotate_right(&rotate_right(&rotate_right(&rotate_right(&img))));
    assert_eq!((r.width(), r.height()), (img.width(), img.height()));
    assert_eq!(r.as_raw(), img.as_raw());
}

#[test]
fn rotate_left_then_right_is_identity() {
    let img = fixture();
    let r = rotate_right(&rotate_left(&img));
    assert_eq!(r.as_raw(), img.as_raw());
}

#[test]
fn half_turns_meet() {
    let img = fixture();
    let right = rotate_right(&rotate_right(&img));
    let left = rotate_left(&rotate_left(&img));
    assert_eq!(right.as_raw(), left.as_raw());
    let flipped = flip_vertical(&flip_horizontal(&img));
    assert_eq!(right.as_raw(), flipped.as_raw());
}

#[test]
fn double_flip_horizontal_is_identity() {
    let img = fixture();
    let r = flip_horizontal(&flip_horizontal(&img));
    assert_eq!(r.as_raw(), img.as_raw());
}

#[test]
fn double_flip_vertical_is_identity() {
    let img = fixture();
    let r = flip_vertical(&flip_vertical(&img));
    assert_eq!(r.as_raw(), img.as_raw());
}

#[test]
fn flip_horizontal_moves_top_left_to_top_right() {
    let img = fixture();
    let r = flip_horizontal(&img);
    assert_eq!(get(&r, 0, 0), [2, 0, 0, 255]);
    assert_eq!(get(&r, 2, 0), [1, 0, 0, 255]);
}

#[test]
fn flip_vertical_moves_top_left_to_bottom_left() {
    let img = fixture();
    let r = flip_vertical(&img);
    assert_eq!(get(&r, 0, 1), [1, 0, 0, 255]);
    assert_eq!(get(&r, 0, 0), [3, 0, 0, 255]);
}

#[test]
fn a_png_file_decodes_to_the_image_it_was_made_of() {
    let img = fixture();
    let png = codec::encode_png(&img).expect("encode");
    assert_eq!(&png[..8], &[0x89, b'P', b'N', b'G', 0x0d, 0x0a, 0x1a, 0x0a]);
    let back = codec::decode(&png).expect("decode");
    assert_eq!((back.width(), back.height()), (3, 2));
    assert_eq!(back.as_raw(), img.as_raw());
}

#[test]
fn bytes_that_are_no_image_do_not_decode() {
    let message = codec::decode(b"not an image").expect_err("should fail");
    assert!(!message.is_empty());
}
