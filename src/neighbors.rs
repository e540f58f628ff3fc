//! The 8-neighbourhood of a pixel: which neighbours exist, which are filled,
//! and how often the ring of neighbours passes from empty to filled.
use vstd::prelude::*;

use crate::raster::{index_of, Raster};
use crate::{Edge, ForegroundColor};

verus! {

/// Column offset of ring slot `k`. The ring runs clockwise from north:
/// N, NE, E, SE, S, SW, W, NW.
pub open spec fn ring_dx(k: int) -> int {
    if k == 1 || k == 2 || k == 3 {
        1
    } else if k == 5 || k == 6 || k == 7 {
        -1
    } else {
        0
    }
}

/// Row offset of ring slot `k` (rows grow downwards).
pub open spec fn ring_dy(k: int) -> int {
    if k == 0 || k == 1 || k == 7 {
        -1
    } else if k == 3 || k == 4 || k == 5 {
        1
    } else {
        0
    }
}

/// How the position (`x`, `y`) of a `w` by `h` image with samples `px`
/// counts against background `bg`.
pub open spec fn classify(px: Seq<u8>, w: int, h: int, bg: u8, x: int, y: int) -> Edge {
    if 0 <= x < w && 0 <= y < h {
        if px[index_of(w, x, y)] != bg {
            Edge::Filled
        } else {
            Edge::Empty
        }
    } else {
        Edge::DoesNotExist
    }
}

/// The eight classified neighbours of (`x`, `y`), in ring order.
pub open spec fn ring(px: Seq<u8>, w: int, h: int, bg: u8, x: int, y: int) -> Seq<Edge> {
    Seq::new(8, |k: int| classify(px, w, h, bg, x + ring_dx(k), y + ring_dy(k)))
}

/// Number of slots among the first `n` of `s` that hold `e`.
pub open spec fn count_of(s: Seq<Edge>, e: Edge, n: int) -> nat
    decreases n,
{
    if n <= 0 {
        0
    } else {
        count_of(s, e, n - 1) + (if s[n - 1] == e {
            1nat
        } else {
            0nat
        })
    }
}

/// Number of filled neighbours.
pub open spec fn filled_count(s: Seq<Edge>) -> nat {
    count_of(s, Edge::Filled, 8)
}

/// Number of neighbours inside the image.
pub open spec fn existing_count(s: Seq<Edge>) -> int {
    8 - count_of(s, Edge::DoesNotExist, 8)
}

/// Number of empty-to-filled steps among the first `n` steps of the ring walk;
/// step `i` goes from slot `i` to slot `i + 1`, and the last step wraps around
/// to the first slot.
pub open spec fn transitions_upto(s: Seq<Edge>, n: int) -> nat
    decreases n,
{
    if n <= 0 {
        0
    } else {
        transitions_upto(s, n - 1) + (if s[n - 1] == Edge::Empty && s[n % 8] == Edge::Filled {
            1nat
        } else {
            0nat
        })
    }
}

/// Number of empty-to-filled steps in a full walk round the ring.
pub open spec fn ring_transitions(s: Seq<Edge>) -> nat {
    transitions_upto(s, 8)
}

/// What is known of the neighbours of a pixel.
pub struct NeighborInfo {
    /// The number of filled neighbours.
    pub filled: u8,
    /// The number of neighbours inside the image.
    pub neighbors: u8,
    /// The neighbours' classes, in ring order (N, NE, E, SE, S, SW, W, NW).
    pub edge_status: [Edge; 8],
}

impl NeighborInfo {
    /// The number of steps from [`Edge::Empty`] to [`Edge::Filled`] in a walk
    /// round the ring, the step from the last slot back to the first included.
    pub fn transitions(&self) -> (r: u8)
        ensures
            r == ring_transitions(self.edge_status@),
    {
        let mut count: u8 = 0;
        let mut i: usize = 0;
        while i < 8
            invariant
                0 <= i <= 8,
                count == transitions_upto(self.edge_status@, i as int),
                count <= i,
            decreases 8 - i,
        {
            let next: usize = if i == 7 {
                0
            } else {
                i + 1
            };
            if self.edge_status[i] == Edge::Empty && self.edge_status[next] == Edge::Filled {
                count = count + 1;
            }
            i = i + 1;
        }
        count
    }
}

/// Column and row offsets of ring slot `k`.
fn ring_offset(k: usize) -> (r: (i64, i64))
    requires
        k < 8,
    ensures
        r.0 == ring_dx(k as int),
        r.1 == ring_dy(k as int),
{
    if k == 0 {
        (0, -1)
    } else if k == 1 {
        (1, -1)
    } else if k == 2 {
        (1, 0)
    } else if k == 3 {
        (1, 1)
    } else if k == 4 {
        (0, 1)
    } else if k == 5 {
        (-1, 1)
    } else if k == 6 {
        (-1, 0)
    } else {
        (-1, -1)
    }
}

/// The class of ring slot `k` around (`x`, `y`).
fn probe(img: &Raster, bg: u8, x: u32, y: u32, k: usize) -> (e: Edge)
    requires
        img.wf(),
        x < img.width,
        y < img.height,
        k < 8,
    ensures
        e == classify(
            img.pixels@,
            img.width as int,
            img.height as int,
            bg,
            x + ring_dx(k as int),
            y + ring_dy(k as int),
        ),
{
    let (dx, dy) = ring_offset(k);
    let nx: i64 = x as i64 + dx;
    let ny: i64 = y as i64 + dy;
    if 0 <= nx && nx < img.width as i64 && 0 <= ny && ny < img.height as i64 {
        if img.get_pixel(nx as u32, ny as u32) != bg {
            Edge::Filled
        } else {
            Edge::Empty
        }
    } else {
        Edge::DoesNotExist
    }
}

/// Classify the eight neighbours of (`x`, `y`) in `img`, a `width` by
/// `height` image, against the background of `F`, and count the filled ones
/// and the ones inside the image.
pub fn get_neighbor_info<F: ForegroundColor>(
    img: &Raster,
    width: u32,
    height: u32,
    x: u32,
    y: u32,
) -> (r: NeighborInfo)
    requires
        img.wf(),
        width == img.width,
        height == img.height,
        x < width,
        y < height,
    ensures
        r.edge_status@ == ring(
            img.pixels@,
            width as int,
            height as int,
            F::background(),
            x as int,
            y as int,
        ),
        r.filled == filled_count(r.edge_status@),
        r.neighbors == existing_count(r.edge_status@),
{
    let bg: u8 = F::background_color();
    let edge_status: [Edge; 8] = [
        probe(img, bg, x, y, 0),
        probe(img, bg, x, y, 1),
        probe(img, bg, x, y, 2),
        probe(img, bg, x, y, 3),
        probe(img, bg, x, y, 4),
        probe(img, bg, x, y, 5),
        probe(img, bg, x, y, 6),
        probe(img, bg, x, y, 7),
    ];
    let ghost expected = ring(img.pixels@, width as int, height as int, bg, x as int, y as int);
    assert(edge_status@ =~= expected);
    let mut filled: u8 = 0;
    let mut missing: u8 = 0;
    let mut i: usize = 0;
    while i < 8
        invariant
            0 <= i <= 8,
            filled == count_of(edge_status@, Edge::Filled, i as int),
            missing == count_of(edge_status@, Edge::DoesNotExist, i as int),
            filled <= i,
            missing <= i,
        decreases 8 - i,
    {
        if edge_status[i] == Edge::Filled {
            filled = filled + 1;
        } else if edge_status[i] == Edge::DoesNotExist {
            missing = missing + 1;
        }
        i = i + 1;
    }
    NeighborInfo { filled, neighbors: 8 - missing, edge_status }
}

} // verus!
