use osnip::ipc::PinSummary;
use osnip::pin_id::PinId;
use osnip::pixels::RgbaImage;
use osnip::registry::{PinRegistry, RegistryEffect};
use osnip::thumbnail;
use std::sync::Arc;

fn filled(width: u32, height: u32, pixel: [u8; 4]) -> Arc<RgbaImage> {
    let mut raw: Vec<u8> = Vec::new();
    for _ in 0..width * height {
        raw.extend_from_slice(&pixel);
    }
    Arc::new(RgbaImage::from_raw(width, height, raw).expect("fixture"))
}

fn fixture(width: u32, height: u32) -> Arc<RgbaImage> {
    filled(width, height, [0, 0, 0, 255])
}

fn published(effects: &[RegistryEffect]) -> Vec<&Vec<PinSummary>> {
    effects
        .iter()
        .filter_map(|e| match e {
            RegistryEffect::Publish { pins } => Some(pins),
            RegistryEffect::RemoveThumbnail { .. } => None,
        })
        .collect()
}

fn removed(effects: &[RegistryEffect]) -> Vec<&Vec<u8>> {
    effects
        .iter()
        .filter_map(|e| match e {
            RegistryEffect::RemoveThumbnail { path } => Some(path),
            RegistryEffect::Publish { .. } => None,
        })
        .collect()
}

#[test]
fn new_registry_is_empty() {
    let r = PinRegistry::new();
    assert!(r.list().is_empty());
}

#[test]
fn insert_then_list_then_close() {
    let mut r = PinRegistry::new();
    let id1 = r.insert(fixture(800, 600), None, 1_700_000_000_000, false);
    let id2 = r.insert(fixture(1920, 1080), None, 1_700_000_000_500, false);
    let listing = r.list();
    assert_eq!(listing.len(), 2);
    assert_eq!(listing[0].id, id1);
    assert_eq!(listing[0].width, 800);
    assert_eq!(listing[1].id, id2);
    assert_eq!(listing[1].width, 1920);
    assert_eq!(listing[1].created_at_unix_ms, 1_700_000_000_500);
    assert!(r.close(id1));
    assert!(!r.close(id1), "second close on same id is a miss");
    assert_eq!(r.list().len(), 1);
}

#[test]
fn close_all_clears_and_counts() {
    let mut r = PinRegistry::new();
    r.insert(fixture(1, 1), None, 0, false);
    r.insert(fixture(2, 2), None, 0, false);
    assert_eq!(r.close_all(), 2);
    assert!(r.list().is_empty());
    assert_eq!(r.close_all(), 0);
}

#[test]
fn ids_are_not_reused() {
    let mut r = PinRegistry::new();
    let id1 = r.insert(fixture(1, 1), None, 0, false);
    r.close(id1);
    let id2 = r.insert(fixture(1, 1), None, 0, false);
    assert_ne!(id1, id2);
}

#[test]
fn numbers_start_at_one_and_grow() {
    let mut r = PinRegistry::default();
    assert_eq!(r.reserve().get(), 1);
    assert_eq!(r.reserve().get(), 2);
    assert_eq!(r.insert(fixture(1, 1), None, 0, false).get(), 3);
}

#[test]
fn a_new_pin_comes_last_in_the_list() {
    let mut r = PinRegistry::new();
    let mut expected = Vec::new();
    for i in 0..5 {
        let id = r.insert(fixture(1, 1), None, i, false);
        expected.push(id);
        if i == 2 {
            assert!(r.close(expected.remove(0)));
        }
        let listed: Vec<PinId> = r.list().iter().map(|pin| pin.id).collect();
        assert_eq!(listed, expected);
    }
    let next = r.reserve();
    assert!(expected.iter().all(|id| *id < next));
}

#[test]
fn the_list_is_sorted_by_number() {
    let mut r = PinRegistry::new();
    for _ in 0..20 {
        r.insert(fixture(1, 1), None, 0, false);
    }
    let ids: Vec<u64> = r.list().iter().map(|p| p.id.get()).collect();
    assert_eq!(ids, (1..=20).collect::<Vec<u64>>());
}

#[test]
fn image_returns_pixels_by_id() {
    let mut r = PinRegistry::new();
    let id = r.insert(fixture(4, 3), None, 0, false);
    let img = r.image(id).expect("image present");
    assert_eq!(img.width(), 4);
    assert_eq!(img.height(), 3);
    r.close(id);
    assert!(r.image(id).is_none());
}

#[test]
fn logical_size_falls_back_to_image_dimensions() {
    let mut r = PinRegistry::new();
    let id = r.insert(fixture(1393, 220), None, 0, false);
    assert_eq!(r.logical_size(id), Some((1393, 220)));
}

#[test]
fn logical_size_of_an_unknown_pin_is_none() {
    assert_eq!(PinRegistry::new().logical_size(PinId::new(1)), None);
}

#[test]
fn replace_image_swaps_logical_when_requested() {
    let mut r = PinRegistry::new();
    let id = r.insert(fixture(800, 600), Some((400, 300)), 0, false);
    let rotated = fixture(600, 800);
    assert!(r.replace_image(id, rotated, true, false));
    assert_eq!(r.logical_size(id), Some((300, 400)));
    let img = r.image(id).expect("image present");
    assert_eq!(img.width(), 600);
    assert_eq!(img.height(), 800);
}

#[test]
fn replace_image_keeps_logical_when_not_requested() {
    let mut r = PinRegistry::new();
    let id = r.insert(fixture(800, 600), Some((400, 300)), 0, false);
    let flipped = fixture(800, 600);
    assert!(r.replace_image(id, flipped, false, false));
    assert_eq!(r.logical_size(id), Some((400, 300)));
}

#[test]
fn replace_image_unknown_id_is_miss() {
    let mut r = PinRegistry::new();
    let new_img = fixture(1, 1);
    assert!(!r.replace_image(PinId::new(99), new_img, false, false));
}

#[test]
fn replacing_the_image_of_a_closed_pin_removes_its_thumbnail() {
    let mut r = PinRegistry::with_thumbnail_dir(b"/run/thumbs".to_vec());
    assert!(!r.replace_image(PinId::new(9), fixture(1, 1), false, true));
    let effects = r.take_effects();
    assert_eq!(removed(&effects), vec![&b"/run/thumbs/9.png".to_vec()]);
    assert!(published(&effects).is_empty());
}

#[test]
fn list_carries_thumbnail_and_revision() {
    let dir = b"/run/user/1000/osnip/osnip-thumbs".to_vec();
    let mut r = PinRegistry::with_thumbnail_dir(dir.clone());
    let id = r.insert(fixture(40, 20), None, 0, true);

    let listed = r.list();
    assert_eq!(listed.len(), 1);
    assert_eq!(listed[0].revision, 0);
    let thumb = listed[0].thumbnail.clone().expect("thumbnail path");
    assert_eq!(thumb, thumbnail::path(&dir, id));
    assert_eq!(thumb, b"/run/user/1000/osnip/osnip-thumbs/1.png".to_vec());

    let rotated = fixture(20, 40);
    assert!(r.replace_image(id, rotated, true, true));
    assert_eq!(r.list()[0].revision, 1);
}

#[test]
fn a_thumbnail_that_could_not_be_written_is_not_listed() {
    let mut r = PinRegistry::with_thumbnail_dir(b"/run/thumbs".to_vec());
    let id = r.insert(fixture(4, 2), None, 0, false);
    assert_eq!(r.list()[0].thumbnail, None);
    assert!(r.replace_image(id, fixture(2, 4), true, true));
    assert_eq!(r.list()[0].thumbnail, Some(b"/run/thumbs/1.png".to_vec()));
    assert!(r.replace_image(id, fixture(4, 2), true, false));
    assert_eq!(r.list()[0].thumbnail, Some(b"/run/thumbs/1.png".to_vec()));
}

#[test]
fn closing_a_pin_removes_its_thumbnail() {
    let mut r = PinRegistry::with_thumbnail_dir(b"/run/thumbs".to_vec());
    let id = r.insert(fixture(10, 10), None, 0, true);
    let thumb = r.list()[0].thumbnail.clone().expect("thumbnail path");
    r.take_effects();

    assert!(r.close(id));
    let effects = r.take_effects();
    assert_eq!(removed(&effects), vec![&thumb]);
}

#[test]
fn close_all_removes_every_thumbnail() {
    let mut r = PinRegistry::with_thumbnail_dir(b"/run/thumbs".to_vec());
    r.insert(fixture(10, 10), None, 0, true);
    r.insert(fixture(10, 10), None, 0, true);
    let thumbs: Vec<Vec<u8>> = r.list().into_iter().filter_map(|p| p.thumbnail).collect();
    assert_eq!(thumbs.len(), 2);
    r.take_effects();

    assert_eq!(r.close_all(), 2);
    let effects = r.take_effects();
    for t in &thumbs {
        assert!(removed(&effects).contains(&t), "a thumbnail outlived close_all");
    }
}

#[test]
fn registry_without_thumbnails_reports_none() {
    let mut r = PinRegistry::new();
    assert!(!r.thumbnails_enabled());
    r.insert(fixture(10, 10), None, 0, true);
    assert_eq!(r.list()[0].thumbnail, None);
}

#[test]
fn registry_with_thumbnails_says_so() {
    let r = PinRegistry::with_thumbnail_dir(b"/run/thumbs".to_vec());
    assert!(r.thumbnails_enabled());
    assert_eq!(r.thumbnail_path(PinId::new(12)), Some(b"/run/thumbs/12.png".to_vec()));
    assert_eq!(PinRegistry::new().thumbnail_path(PinId::new(12)), None);
}

#[test]
fn every_mutation_publishes_a_snapshot() {
    let mut r = PinRegistry::new();

    let id = r.insert(fixture(10, 10), None, 0, false);
    let effects = r.take_effects();
    assert_eq!(published(&effects).len(), 1);
    assert_eq!(published(&effects)[0].len(), 1);

    let flipped = filled(10, 10, [9, 9, 9, 255]);
    assert!(r.replace_image(id, flipped, false, false));
    let effects = r.take_effects();
    assert_eq!(published(&effects)[0][0].revision, 1);

    assert!(r.close(id));
    let effects = r.take_effects();
    assert!(published(&effects)[0].is_empty());

    r.insert(fixture(1, 1), None, 0, false);
    r.take_effects();
    assert_eq!(r.close_all(), 1);
    let effects = r.take_effects();
    assert_eq!(effects.len(), 1);
    assert!(published(&effects)[0].is_empty());
}

#[test]
fn effects_are_handed_out_once_and_in_order() {
    let run = |often: bool| {
        let mut r = PinRegistry::with_thumbnail_dir(b"/t".to_vec());
        let mut told = Vec::new();
        for i in 0..6 {
            let id = r.insert(fixture(1, 1), None, i, true);
            if often {
                told.extend(r.take_effects());
            }
            if i % 2 == 0 {
                r.close(id);
            }
        }
        told.extend(r.take_effects());
        (told, r.list(), r.reserve())
    };
    let (told, list, next) = run(true);
    let (told_late, list_late, next_late) = run(false);
    assert_eq!(format!("{told:?}"), format!("{told_late:?}"));
    assert_eq!((&list, next), (&list_late, next_late));
    assert_eq!(published(&told).last(), Some(&&list));
}

#[test]
fn no_op_mutations_do_not_publish() {
    let mut r = PinRegistry::new();
    assert!(!r.close(PinId::new(404)));
    assert_eq!(r.close_all(), 0);
    assert!(r.take_effects().is_empty(), "a no-op mutation published an event");
}

#[test]
fn a_removal_comes_before_the_list_without_the_pin() {
    let mut r = PinRegistry::with_thumbnail_dir(b"/t".to_vec());
    let id = r.insert(fixture(1, 1), None, 0, true);
    r.take_effects();
    r.close(id);
    let effects = r.take_effects();
    assert!(matches!(effects[0], RegistryEffect::RemoveThumbnail { .. }));
    assert!(matches!(effects[1], RegistryEffect::Publish { .. }));
    assert_eq!(effects.len(), 2);
    assert!(r.take_effects().is_empty());
}

#[test]
fn logical_size_records_explicit_value() {
    let mut r = PinRegistry::new();
    let id = r.insert(fixture(1393, 220), Some((929, 147)), 0, false);
    assert_eq!(r.logical_size(id), Some((929, 147)));
    let img = r.image(id).expect("image present");
    assert_eq!(img.width(), 1393);
    assert_eq!(img.height(), 220);
}

#[test]
fn swapping_the_window_size_twice_restores_it() {
    let mut r = PinRegistry::new();
    let id = r.insert(fixture(4, 2), Some((40, 20)), 0, false);
    assert!(r.replace_image(id, fixture(2, 4), true, false));
    assert!(r.replace_image(id, fixture(4, 2), true, false));
    assert_eq!(r.logical_size(id), Some((40, 20)));
    assert_eq!(r.list()[0].revision, 2);
}

#[test]
fn images_need_four_bytes_for_each_pixel() {
    assert!(RgbaImage::from_raw(2, 2, vec![0; 15]).is_none());
    assert!(RgbaImage::from_raw(2, 2, vec![0; 17]).is_none());
    assert!(RgbaImage::from_raw(0, 2, vec![]).is_some());
}
