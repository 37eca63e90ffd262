use osnip::blocks::{are_blocks_small, block, do_sums_fit};
use osnip::pixels::RgbaImage;
use osnip::rounding::{floor_log2, to_single, ONE};

/// The borders in single precision.
fn expected(edge: u32, blocks: u32, i: u32) -> (u32, u32) {
    let ratio = edge as f32 / blocks as f32;
    let leftf = i as f32 * ratio;
    let rightf = leftf + ratio;
    let left = (leftf.ceil() as u32).clamp(0, edge - 1);
    let right = (rightf.ceil() as u32).clamp(left, edge);
    (left, right)
}

fn plain(width: u32, height: u32, pixel: [u8; 4]) -> RgbaImage {
    let raw = pixel.repeat(width as usize * height as usize);
    RgbaImage::from_raw(width, height, raw).expect("fixture")
}

#[test]
fn borders_agree_with_single_precision() {
    let mut edges: Vec<u32> = (1..600).collect();
    edges.extend([1000, 1080, 1920, 2559, 3840, 4097, 7680, 65_535, 65_537, 1_000_003]);
    edges.extend([8_388_607, 16_777_215, 16_777_216, 16_777_217, 16_777_219, 20_000_001]);
    edges.extend([717_000_000, 1_234_567_891, 2_147_483_647, 2_147_483_649, 4_000_000_007]);
    edges.extend([u32::MAX - 255, u32::MAX - 128, u32::MAX - 127, u32::MAX - 1, u32::MAX]);
    for edge in edges {
        for blocks in [1u32, 2, 3, 7, 100, 127, 128, 171, 200, 255, 256] {
            if blocks > edge {
                continue;
            }
            for i in 0..blocks {
                let found = block(edge, blocks, i);
                assert_eq!(found, expected(edge, blocks, i), "block {i} of {blocks} in {edge}");
                assert!(found.0 < found.1, "block {i} of {blocks} in {edge} is empty");
            }
        }
    }
}

#[test]
fn rounding_agrees_with_single_precision() {
    for n in [0u32, 1, 2, 3, 16_777_215, 16_777_216, 16_777_217, 16_777_218, 16_777_219] {
        assert_eq!(to_single(u128::from(n) * ONE, 1), (n as f32 as f64 * ONE as f64) as u128);
    }
    for (a, b) in [(1u32, 1u32), (3, 2), (10, 3), (200, 171), (1920, 256), (u32::MAX, 255)] {
        let quotient = f64::from(a as f32 / b as f32);
        let exact = to_single(u128::from(a) * ONE, 1);
        assert_eq!(to_single(exact, u128::from(b)), (quotient * ONE as f64) as u128);
    }
}

#[test]
fn logarithms_are_rounded_down() {
    assert_eq!(floor_log2(1), (0, 1));
    assert_eq!(floor_log2(2), (1, 2));
    assert_eq!(floor_log2(1023), (9, 512));
    assert_eq!(floor_log2(u128::MAX), (127, 1 << 127));
}

#[test]
fn an_edge_of_the_same_length_is_cut_into_pixels() {
    for edge in [1, 2, 3, 100, 255, 256] {
        for i in 0..edge {
            assert_eq!(block(edge, edge, i), (i, i + 1));
        }
    }
}

#[test]
fn small_blocks_hold_any_sum() {
    assert!(are_blocks_small(4100, 4100, 1, 1));
    assert!(!are_blocks_small(4101, 4101, 1, 1));
    assert!(are_blocks_small(16_810_048, 1, 1, 1));
    // An odd length of this size rounds to an even one, so one pixel is left out.
    assert_eq!(block(16_810_049, 1, 0), (0, 16_810_048));
    assert!(are_blocks_small(16_810_049, 1, 1, 1));
    assert!(!are_blocks_small(16_810_050, 1, 1, 1));
    assert!(are_blocks_small(16_810_050, 1, 2, 1));
}

#[test]
fn larger_blocks_hold_small_sums() {
    let dark = plain(4101, 4101, [0, 0, 0, 254]);
    assert!(do_sums_fit(&dark, 1, 1));
    let opaque = plain(4101, 4101, [0, 0, 0, 255]);
    assert!(!do_sums_fit(&opaque, 1, 1));
    assert!(do_sums_fit(&opaque, 2, 1));
    let red = plain(4101, 4101, [255, 0, 0, 0]);
    assert!(!do_sums_fit(&red, 1, 1));
}
