use skeletonize::foreground::{Black, White};
use skeletonize::neighbors::{get_neighbor_info, NeighborInfo};
use skeletonize::{Edge, MarkingMethod, Raster};

fn raster(rows: &[&str], fg: u8) -> Raster {
    let height = rows.len() as u32;
    let width = rows[0].len() as u32;
    let mut pixels = Vec::new();
    for row in rows {
        for c in row.chars() {
            pixels.push(if c == '#' { fg } else { 255 - fg });
        }
    }
    Raster::from_raw(width, height, pixels).unwrap()
}

fn info(ring: [Edge; 8]) -> NeighborInfo {
    let filled = ring.iter().filter(|e| **e == Edge::Filled).count() as u8;
    let missing = ring.iter().filter(|e| **e == Edge::DoesNotExist).count() as u8;
    NeighborInfo { filled, neighbors: 8 - missing, edge_status: ring }
}

use Edge::{DoesNotExist as D, Empty as E, Filled as F};

#[test]
fn edge_to_u8() {
    assert_eq!(Edge::Empty.to_u8(), 0);
    assert_eq!(Edge::Filled.to_u8(), 1);
    assert_eq!(Edge::DoesNotExist.to_u8(), 0);
}

#[test]
fn marking_method_default_is_modified() {
    assert_eq!(MarkingMethod::default(), MarkingMethod::Modified);
}

#[test]
fn transitions_checkerboard_ring_counts_wraparound() {
    // E->F at slots 1->2, 3->4, 5->6 and 7->0 (the wraparound pair).
    assert_eq!(info([F, E, F, E, F, E, F, E]).transitions(), 4);
    assert_eq!(info([E, F, E, F, E, F, E, F]).transitions(), 4);
}

#[test]
fn transitions_only_wraparound_pair() {
    assert_eq!(info([F, E, E, E, E, E, E, E]).transitions(), 1);
    assert_eq!(info([E, E, E, E, E, E, E, F]).transitions(), 1);
}

#[test]
fn transitions_uniform_rings() {
    assert_eq!(info([F; 8]).transitions(), 0);
    assert_eq!(info([E; 8]).transitions(), 0);
}

#[test]
fn transitions_ignore_missing_neighbours() {
    assert_eq!(info([D, F, D, F, D, F, D, F]).transitions(), 0);
    assert_eq!(info([E, D, F, D, E, F, D, D]).transitions(), 1);
}

#[test]
fn neighbor_info_interior_pixel() {
    let img = raster(&["#..", ".#.", "..#"], 255);
    let n = get_neighbor_info::<White>(&img, 3, 3, 1, 1);
    assert_eq!(n.neighbors, 8);
    assert_eq!(n.filled, 2);
    assert_eq!(n.edge_status, [E, E, E, F, E, E, E, F]);
    assert_eq!(n.transitions(), 2);
}

#[test]
fn neighbor_info_corner_pixel() {
    let img = raster(&["##.", "#..", "..."], 255);
    let n = get_neighbor_info::<White>(&img, 3, 3, 0, 0);
    assert_eq!(n.neighbors, 3);
    assert_eq!(n.filled, 2);
    assert_eq!(n.edge_status, [D, D, F, E, F, D, D, D]);
}

#[test]
fn neighbor_info_follows_foreground_policy() {
    let img = raster(&["#..", ".#.", "..#"], 0);
    let n = get_neighbor_info::<Black>(&img, 3, 3, 1, 1);
    assert_eq!(n.filled, 2);
    assert_eq!(n.edge_status, [E, E, E, F, E, E, E, F]);
    let inverted = get_neighbor_info::<White>(&img, 3, 3, 1, 1);
    assert_eq!(inverted.filled, 6);
}

#[test]
fn raster_from_raw_checks_length() {
    assert!(Raster::from_raw(2, 3, vec![0; 6]).is_some());
    assert!(Raster::from_raw(2, 3, vec![0; 5]).is_none());
    assert!(Raster::from_raw(0, 3, vec![]).is_some());
}

#[test]
fn raster_pixel_access() {
    let mut img = Raster::from_pixel(3, 2, 7);
    assert_eq!(img.dimensions(), (3, 2));
    img.put_pixel(2, 1, 9);
    assert_eq!(img.get_pixel(2, 1), 9);
    assert_eq!(img.get_pixel(1, 1), 7);
    assert_eq!(img.pixels[5], 9);
}
