use chatbot::aggregate::{caption, ResultAggregator};
use chatbot::collage::CompositeImage;
use chatbot::job::WorkerResult;
use chatbot::raster::{decode_images, decode_tile, PictureError, Raster};
use chatbot::tally::{attribution, first_seen_index, rank_workers, tally_workers, WorkerShare};

/// A picture of `width` by `height` pixels whose pixel `(x, y)` is
/// `[tag, x, y, 255]`.
fn pixels(tag: u8, width: u32, height: u32) -> Vec<u8> {
    let mut out = Vec::new();
    for y in 0..height {
        for x in 0..width {
            out.extend_from_slice(&[tag, x as u8, y as u8, 255]);
        }
    }
    out
}

fn webp(rgba: &[u8], width: u32, height: u32) -> Vec<u8> {
    let mut file = Vec::new();
    image::codecs::webp::WebPEncoder::new_lossless(&mut file)
        .encode(rgba, width, height, image::ExtendedColorType::Rgba8)
        .unwrap();
    file
}

#[allow(deprecated)]
fn payload(tag: u8, width: u32, height: u32) -> String {
    base64::encode(webp(&pixels(tag, width, height), width, height))
}

fn result(worker: &str, image_base64: String) -> WorkerResult {
    WorkerResult { worker_name: worker.to_string(), image_base64 }
}

fn named(worker: &str) -> WorkerResult {
    result(worker, String::new())
}

fn shares(ranked: &[WorkerShare]) -> Vec<(String, usize, usize)> {
    ranked.iter().map(|s| (s.worker.clone(), s.count, s.first_seen)).collect()
}

fn pixel(image: &CompositeImage, x: usize, y: usize) -> [u8; 4] {
    let row = &image.rows()[y];
    [row[4 * x], row[4 * x + 1], row[4 * x + 2], row[4 * x + 3]]
}

#[test]
fn tally_counts_each_worker() {
    let results = vec![named("A"), named("B"), named("A"), named("C"), named("A")];
    let tally = tally_workers(&results);
    assert_eq!(tally[&"A".to_string()], 3);
    assert_eq!(tally[&"B".to_string()], 1);
    assert_eq!(tally[&"C".to_string()], 1);
    assert_eq!(tally[&"D".to_string()], 0);
    assert_eq!(tally.len(), 3);
}

#[test]
fn first_seen_is_the_first_place() {
    let results = vec![named("A"), named("B"), named("A"), named("B")];
    assert_eq!(first_seen_index(&results, &"A".to_string()), Some(0));
    assert_eq!(first_seen_index(&results, &"B".to_string()), Some(1));
    assert_eq!(first_seen_index(&results, &"C".to_string()), None);
}

#[test]
fn ranking_of_two_workers_and_three_results() {
    let results = vec![named("A"), named("B"), named("A")];
    let ranked = rank_workers(&results);
    assert_eq!(shares(&ranked), vec![("A".to_string(), 2, 0), ("B".to_string(), 1, 1)]);
    assert_eq!(attribution(&ranked), "A (2), B");
}

#[test]
fn ranking_puts_the_larger_share_first() {
    let results = vec![named("late"), named("busy"), named("busy"), named("busy"), named("late")];
    let ranked = rank_workers(&results);
    assert_eq!(shares(&ranked), vec![("busy".to_string(), 3, 1), ("late".to_string(), 2, 0)]);
    assert_eq!(attribution(&ranked), "busy (3), late (2)");
}

#[test]
fn ranking_breaks_ties_by_first_seen() {
    let names = ["m", "z", "a", "q", "b", "y", "c", "x"];
    let results: Vec<WorkerResult> = names.iter().map(|n| named(n)).collect();
    for _ in 0..20 {
        let ranked = rank_workers(&results);
        let order: Vec<String> = ranked.iter().map(|s| s.worker.clone()).collect();
        assert_eq!(order, names);
    }
    assert_eq!(attribution(&rank_workers(&results)), "m, z, a, q, b, y, c, x");
}

#[test]
fn ranking_mixes_counts_and_ties() {
    let results = vec![
        named("one"),
        named("two"),
        named("three"),
        named("two"),
        named("three"),
        named("four"),
    ];
    let ranked = rank_workers(&results);
    assert_eq!(
        shares(&ranked),
        vec![
            ("two".to_string(), 2, 1),
            ("three".to_string(), 2, 2),
            ("one".to_string(), 1, 0),
            ("four".to_string(), 1, 5),
        ]
    );
    assert_eq!(attribution(&ranked), "two (2), three (2), one, four");
}

#[test]
fn attribution_cuts_long_names() {
    let long = "w".repeat(70);
    let results = vec![named(&long), named(&long), named("short")];
    let text = attribution(&rank_workers(&results));
    assert_eq!(text, format!("{}\u{2026} (2), short", "w".repeat(63)));
}

#[test]
fn attribution_of_nothing_is_empty() {
    let ranked = rank_workers(&Vec::new());
    assert!(ranked.is_empty());
    assert_eq!(attribution(&ranked), "");
}

#[test]
fn attribution_counts_above_nine() {
    let results: Vec<WorkerResult> = (0..12).map(|_| named("w")).collect();
    assert_eq!(attribution(&rank_workers(&results)), "w (12)");
}

#[test]
fn tile_decodes_to_its_pixels() {
    let picture = decode_tile(&payload(9, 3, 2)).ok().unwrap();
    assert_eq!(picture.width(), 3);
    assert_eq!(picture.height(), 2);
    assert_eq!(picture.pixels(), &pixels(9, 3, 2));
    assert_eq!(picture.byte_at(2, 1, 0), 9);
    assert_eq!(picture.byte_at(2, 1, 1), 2);
    assert_eq!(picture.byte_at(2, 1, 2), 1);
    assert_eq!(picture.byte_at(2, 1, 3), 255);
    assert_eq!(picture.byte_at(3, 1, 0), 0);
    assert_eq!(picture.byte_at(0, 2, 3), 0);
    assert_eq!(picture.byte_at(0, 0, 4), 0);
}

#[test]
fn tile_without_alpha_becomes_opaque() {
    let rgb: Vec<u8> = vec![10, 20, 30, 40, 50, 60];
    let mut file = Vec::new();
    image::codecs::webp::WebPEncoder::new_lossless(&mut file)
        .encode(&rgb, 2, 1, image::ExtendedColorType::Rgb8)
        .unwrap();
    #[allow(deprecated)]
    let text = base64::encode(file);
    let picture = decode_tile(&text).ok().unwrap();
    assert_eq!(picture.pixels(), &vec![10, 20, 30, 255, 40, 50, 60, 255]);
}

#[test]
fn tile_that_is_no_base64_is_refused() {
    assert_eq!(decode_tile("not base64!").err(), Some(PictureError::Encoding));
    assert_eq!(decode_tile("abc").err(), Some(PictureError::Encoding));
}

#[test]
fn tile_that_is_no_webp_is_refused() {
    #[allow(deprecated)]
    let text = base64::encode(b"plainly not a picture");
    assert_eq!(decode_tile(&text).err(), Some(PictureError::Format));
    assert_eq!(decode_tile("").err(), Some(PictureError::Format));
}

#[test]
fn raster_checks_its_size() {
    assert!(Raster::from_rgba(2, 2, vec![0; 16]).is_some());
    assert!(Raster::from_rgba(2, 2, vec![0; 15]).is_none());
    assert!(Raster::from_rgba(2, 2, vec![0; 17]).is_none());
    assert!(Raster::from_rgba(0, 5, Vec::new()).is_some());
    assert!(Raster::from_rgba(u32::MAX, u32::MAX, vec![0; 4]).is_none());
}

#[test]
fn undecodable_payloads_are_dropped() {
    let results = vec![
        result("A", payload(1, 2, 2)),
        result("B", "???".to_string()),
        result("C", payload(3, 2, 2)),
    ];
    let tiles = decode_images(&results);
    assert_eq!(tiles.len(), 2);
    assert_eq!(tiles[0].byte_at(0, 0, 0), 1);
    assert_eq!(tiles[1].byte_at(0, 0, 0), 3);
}

#[test]
fn composite_of_nothing_is_blank() {
    let image = CompositeImage::compose(&Vec::new(), 4);
    assert_eq!(image.width(), 16);
    assert_eq!(image.height(), 0);
    assert!(image.rows().is_empty());
}

#[test]
fn composite_of_three_tiles() {
    let tiles: Vec<Raster> =
        (1..=3u8).map(|tag| Raster::from_rgba(4, 4, pixels(tag, 4, 4)).unwrap()).collect();
    let image = CompositeImage::compose(&tiles, 4);
    assert_eq!(image.width(), 16);
    assert_eq!(image.height(), 16);
    assert!(image.rows().iter().all(|row| row.len() == 64));
    // first band: tiles 1 and 2
    assert_eq!(pixel(&image, 0, 0), [1, 0, 0, 255]);
    assert_eq!(pixel(&image, 3, 2), [1, 3, 2, 255]);
    assert_eq!(pixel(&image, 12, 0), [2, 0, 0, 255]);
    assert_eq!(pixel(&image, 15, 3), [2, 3, 3, 255]);
    // second band: tile 3 and a blank cell
    assert_eq!(pixel(&image, 0, 12), [3, 0, 0, 255]);
    assert_eq!(pixel(&image, 3, 15), [3, 3, 3, 255]);
    for y in 12..16 {
        for x in 12..16 {
            assert_eq!(pixel(&image, x, y), [0, 0, 0, 0]);
        }
    }
    // the padding
    for y in 0..16 {
        for x in 4..12 {
            assert_eq!(pixel(&image, x, y), [0, 0, 0, 0]);
        }
    }
    for y in 4..12 {
        for x in 0..16 {
            assert_eq!(pixel(&image, x, y), [0, 0, 0, 0]);
        }
    }
}

#[test]
fn composite_clips_and_pads_tiles() {
    let tiles = vec![
        Raster::from_rgba(5, 1, pixels(7, 5, 1)).unwrap(),
        Raster::from_rgba(1, 5, pixels(8, 1, 5)).unwrap(),
    ];
    let image = CompositeImage::compose(&tiles, 2);
    assert_eq!(image.width(), 12);
    assert_eq!(image.height(), 2);
    // the wide tile is cut off at its cell's edge
    assert_eq!(pixel(&image, 0, 0), [7, 0, 0, 255]);
    assert_eq!(pixel(&image, 1, 0), [7, 1, 0, 255]);
    assert_eq!(pixel(&image, 2, 0), [0, 0, 0, 0]);
    assert_eq!(pixel(&image, 0, 1), [0, 0, 0, 0]);
    // the tall tile fills one column of its cell
    assert_eq!(pixel(&image, 10, 0), [8, 0, 0, 255]);
    assert_eq!(pixel(&image, 10, 1), [8, 0, 1, 255]);
    assert_eq!(pixel(&image, 11, 0), [0, 0, 0, 0]);
}

#[test]
fn composite_grows_by_bands() {
    for (count, height) in [(1usize, 3usize), (2, 3), (3, 14), (4, 14), (5, 25)] {
        let tiles: Vec<Raster> =
            (0..count).map(|_| Raster::from_rgba(1, 1, vec![1, 2, 3, 4]).unwrap()).collect();
        let image = CompositeImage::compose(&tiles, 3);
        assert_eq!(image.height(), height);
        assert_eq!(image.width(), 14);
    }
}

#[test]
fn composite_with_cells_of_no_size() {
    assert_eq!(CompositeImage::compose(&Vec::new(), 0).height(), 0);
    let three: Vec<Raster> =
        (0..3).map(|_| Raster::from_rgba(1, 1, vec![1, 2, 3, 4]).unwrap()).collect();
    let image = CompositeImage::compose(&three, 0);
    assert_eq!(image.width(), 8);
    assert_eq!(image.height(), 8);
}

#[test]
fn aggregate_of_two_workers_and_three_images() {
    let results = vec![
        result("A", payload(1, 2, 2)),
        result("B", payload(2, 2, 2)),
        result("A", payload(3, 2, 2)),
    ];
    let out = ResultAggregator::new(2).aggregate(&results);
    assert_eq!(out.attribution, "A (2), B");
    assert_eq!(shares(&out.shares), vec![("A".to_string(), 2, 0), ("B".to_string(), 1, 1)]);
    assert_eq!(out.composite.width(), 12);
    assert_eq!(out.composite.height(), 12);
    assert_eq!(pixel(&out.composite, 0, 0), [1, 0, 0, 255]);
    assert_eq!(pixel(&out.composite, 10, 0), [2, 0, 0, 255]);
    assert_eq!(pixel(&out.composite, 1, 11), [3, 1, 1, 255]);
    assert_eq!(pixel(&out.composite, 10, 10), [0, 0, 0, 0]);
    assert_eq!(pixel(&out.composite, 11, 11), [0, 0, 0, 0]);
}

#[test]
fn aggregate_of_nothing() {
    let out = ResultAggregator::new(512).aggregate(&Vec::new());
    assert_eq!(out.attribution, "");
    assert!(out.shares.is_empty());
    assert_eq!(out.composite.width(), 1032);
    assert_eq!(out.composite.height(), 0);
}

#[test]
fn aggregate_counts_workers_whose_images_fail() {
    let results = vec![result("A", "!!".to_string()), result("B", payload(5, 1, 1))];
    let out = ResultAggregator::new(1).aggregate(&results);
    assert_eq!(out.attribution, "A, B");
    assert_eq!(out.composite.height(), 1);
    assert_eq!(pixel(&out.composite, 0, 0), [5, 0, 0, 255]);
    assert_eq!(pixel(&out.composite, 9, 0), [0, 0, 0, 0]);
}

#[test]
fn caption_of_a_finished_job() {
    assert_eq!(
        caption("a cat\\.", 75, "A (2), B"),
        "generated *a cat\\.* in 1m 15s by A \\(2\\), B\\."
    );
    assert_eq!(caption("p", 0, ""), "generated *p* in 0s by \\.");
    assert_eq!(caption("p", 3, "w_1"), "generated *p* in 3s by w\\_1\\.");
}
