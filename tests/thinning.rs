use skeletonize::foreground::{Black, White};
use skeletonize::thinning::{should_mark, thin_pass};
use skeletonize::neighbors::NeighborInfo;
use skeletonize::{thin_image_edges, Edge, MarkingMethod, Raster, SkeletonizeError};

fn raster(rows: &[&str], fg: u8) -> Raster {
    let height = rows.len() as u32;
    let width = rows[0].len() as u32;
    let mut pixels = Vec::new();
    for row in rows {
        for c in row.chars() {
            pixels.push(if c == '#' { fg } else { 255 - fg });
        }
    }
    Raster::from_raw(width, height, pixels).unwrap()
}

fn foreground(img: &Raster, fg: u8) -> usize {
    img.pixels.iter().filter(|p| **p == fg).count()
}

fn info(ring: [Edge; 8]) -> NeighborInfo {
    let filled = ring.iter().filter(|e| **e == Edge::Filled).count() as u8;
    let missing = ring.iter().filter(|e| **e == Edge::DoesNotExist).count() as u8;
    NeighborInfo { filled, neighbors: 8 - missing, edge_status: ring }
}

use Edge::{DoesNotExist as D, Empty as E, Filled as F};

#[test]
fn single_pixel_is_never_marked() {
    for method in [MarkingMethod::Standard, MarkingMethod::Modified] {
        let mut img = raster(&[".....", ".....", "..#..", ".....", "....."], 255);
        let before = img.pixels.clone();
        assert_eq!(thin_image_edges::<White>(&mut img, method, None).unwrap(), 0);
        assert_eq!(img.pixels, before);

        let mut dark = raster(&[".....", ".....", "..#..", ".....", "....."], 0);
        let before = dark.pixels.clone();
        assert_eq!(thin_image_edges::<Black>(&mut dark, method, None).unwrap(), 0);
        assert_eq!(dark.pixels, before);
    }
}

#[test]
fn thick_bar_thins_to_single_line() {
    let mut img = Raster::from_pixel(24, 7, 0);
    for y in 2..5 {
        for x in 2..22 {
            img.put_pixel(x, y, 255);
        }
    }
    let passes = thin_image_edges::<White>(&mut img, MarkingMethod::Modified, None).unwrap();
    assert!(passes <= 2);
    assert_eq!(passes, 2);
    for y in 0..7 {
        for x in 0..24 {
            let expected = if y == 3 && (3..20).contains(&x) { 255 } else { 0 };
            assert_eq!(img.get_pixel(x, y), expected, "pixel ({x}, {y})");
        }
    }
}

#[test]
fn skeleton_rerun_takes_no_pass() {
    for method in [MarkingMethod::Standard, MarkingMethod::Modified] {
        let mut img = Raster::from_pixel(24, 7, 255);
        for y in 2..5 {
            for x in 2..22 {
                img.put_pixel(x, y, 0);
            }
        }
        let passes = thin_image_edges::<Black>(&mut img, method, None).unwrap();
        assert_eq!(passes % 2, 0);
        let skeleton = img.pixels.clone();
        assert_eq!(thin_image_edges::<Black>(&mut img, method, None).unwrap(), 0);
        assert_eq!(img.pixels, skeleton);
    }
}

#[test]
fn rerun_after_second_phase_stop_can_mark_more() {
    let mut img = raster(&["#..#.", "#.###", "#...#", "####."], 255);
    assert_eq!(thin_image_edges::<White>(&mut img, MarkingMethod::Modified, None).unwrap(), 1);
    assert_eq!(img.pixels, raster(&["#..#.", "#..##", "#...#", "####."], 255).pixels);
    assert_eq!(thin_image_edges::<White>(&mut img, MarkingMethod::Modified, None).unwrap(), 1);
    assert_eq!(img.pixels, raster(&["#..#.", "#...#", "#...#", "####."], 255).pixels);
}

#[test]
fn foreground_shrinks_pass_over_pass() {
    let rows = [".......", ".#####.", ".#####.", ".#####.", ".#####.", ".#####.", "......."];
    let expected_standard = [25, 15, 8, 3, 1, 1];
    let expected_modified = [25, 15, 8, 3, 0, 0];
    for (method, expected) in [
        (MarkingMethod::Standard, expected_standard),
        (MarkingMethod::Modified, expected_modified),
    ] {
        let mut img = raster(&rows, 255);
        let mut counts = vec![foreground(&img, 255)];
        let mut phase_one = true;
        loop {
            let removed = thin_pass::<White>(&mut img, method, phase_one);
            counts.push(foreground(&img, 255));
            let n = counts.len();
            if removed {
                assert!(counts[n - 1] < counts[n - 2]);
            } else {
                assert_eq!(counts[n - 1], counts[n - 2]);
                break;
            }
            phase_one = !phase_one;
        }
        assert_eq!(counts, expected.to_vec());
        let mut again = raster(&rows, 255);
        assert_eq!(thin_image_edges::<White>(&mut again, method, None).unwrap(), 4);
    }
}

#[test]
fn border_pixels_survive() {
    for method in [MarkingMethod::Standard, MarkingMethod::Modified] {
        for phase_one in [true, false] {
            let mut img = Raster::from_pixel(5, 5, 255);
            assert!(!thin_pass::<White>(&mut img, method, phase_one));
            assert_eq!(img.pixels, vec![255; 25]);
        }
    }
    let mut img = raster(&["###", "###", "..."], 255);
    assert_eq!(thin_image_edges::<White>(&mut img, MarkingMethod::Modified, None).unwrap(), 1);
    assert_eq!(img.pixels, raster(&["###", "#.#", "..."], 255).pixels);
}

#[test]
fn budget_exhausted_reports_error() {
    let rows = [".......", ".#####.", ".#####.", ".#####.", ".#####.", ".#####.", "......."];
    let mut img = raster(&rows, 255);
    assert_eq!(
        thin_image_edges::<White>(&mut img, MarkingMethod::Standard, Some(2)),
        Err(SkeletonizeError::MaxThinningIterations)
    );
    assert_eq!(foreground(&img, 255), 8);
    let mut untouched = raster(&rows, 255);
    assert_eq!(
        thin_image_edges::<White>(&mut untouched, MarkingMethod::Standard, Some(0)),
        Err(SkeletonizeError::MaxThinningIterations)
    );
    assert_eq!(foreground(&untouched, 255), 25);
}

#[test]
fn standard_rules_one_transition() {
    // N, NE, E filled; the rest empty: phase one needs an empty among N, E, S
    // and among E, S, W.
    let ring = info([F, F, F, E, E, E, E, E]);
    assert!(should_mark(MarkingMethod::Standard, true, &ring));
    assert!(should_mark(MarkingMethod::Standard, false, &ring));
    // N, E, S filled: phase one fails (N, E, S all filled), phase two holds.
    let ring = info([F, F, F, F, F, E, E, E]);
    assert!(!should_mark(MarkingMethod::Standard, true, &ring));
    assert!(should_mark(MarkingMethod::Standard, false, &ring));
    // E, S, W filled: phase one fails on E, S, W; phase two holds via N.
    let ring = info([E, E, F, F, F, F, F, E]);
    assert!(!should_mark(MarkingMethod::Standard, true, &ring));
    assert!(should_mark(MarkingMethod::Standard, false, &ring));
}

#[test]
fn standard_rules_filled_range() {
    assert!(!should_mark(MarkingMethod::Standard, true, &info([F, E, E, E, E, E, E, E])));
    assert!(!should_mark(MarkingMethod::Standard, true, &info([F, F, E, F, F, F, F, F])));
    assert!(should_mark(MarkingMethod::Modified, true, &info([F, F, E, F, F, F, F, F])));
    assert!(!should_mark(MarkingMethod::Modified, true, &info([F; 8])));
}

#[test]
fn rules_need_eight_neighbours() {
    let ring = info([F, F, F, E, E, E, D, D]);
    assert!(!should_mark(MarkingMethod::Standard, true, &ring));
    assert!(!should_mark(MarkingMethod::Modified, false, &ring));
}

#[test]
fn modified_rules_two_transitions() {
    // N and E filled with S, SW, W empty (NE empty, SE and NW filled).
    let ring = info([F, E, F, F, E, E, E, F]);
    assert_eq!(ring.transitions(), 2);
    assert!(should_mark(MarkingMethod::Modified, true, &ring));
    assert!(!should_mark(MarkingMethod::Modified, false, &ring));
    assert!(!should_mark(MarkingMethod::Standard, true, &ring));
    // N and W filled with E, SE, S empty.
    let ring = info([F, F, E, E, E, F, F, E]);
    assert_eq!(ring.transitions(), 2);
    assert!(!should_mark(MarkingMethod::Modified, true, &ring));
    assert!(should_mark(MarkingMethod::Modified, false, &ring));
    // A straight line through the pixel is kept.
    let ring = info([E, E, F, E, E, E, F, E]);
    assert!(!should_mark(MarkingMethod::Modified, true, &ring));
    assert!(!should_mark(MarkingMethod::Modified, false, &ring));
}
