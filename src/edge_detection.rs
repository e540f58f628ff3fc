//! Combination of Sobel gradient images into an edge image. The gradients
//! come from 3x3 convolutions with the north, south, east and west kernels;
//! here they are merged pixel by pixel into an edge strength, which is either
//! written as a grayscale map or binarized against a cutoff.
use vstd::prelude::*;

use crate::raster::Raster;
use crate::ForegroundColor;

verus! {

/// The largest squared magnitude: both gradient components at full scale.
pub const MAX_MAGNITUDE_SQUARED: u32 = 130050;

/// `r` is `sqrt(m)` rounded to the nearest integer: `r - 1/2 <= sqrt(m) < r + 1/2`.
/// (A square root of an integer never lies halfway between two integers.)
pub open spec fn rounded_root(m: int, r: int) -> bool {
    &&& 0 <= r
    &&& (r == 0 || (2 * r - 1) * (2 * r - 1) <= 4 * m)
    &&& 4 * m < (2 * r + 1) * (2 * r + 1)
}

/// `s` is `sqrt(m)` rounded to the nearest integer and capped at `255`.
pub open spec fn capped_root(m: int, s: int) -> bool {
    if s < 255 {
        rounded_root(m, s)
    } else {
        s == 255 && 509 * 509 <= 4 * m
    }
}

/// The output sample for squared gradient magnitude `m` (in units of
/// intensity squared). With a cutoff, magnitudes below it become the
/// background `bg` and the others its complement. Without one, the sample is
/// the rounded magnitude capped at `255`, inverted when the background is
/// `255` so that stronger edges are always nearer the foreground.
pub open spec fn edge_sample(m: int, cutoff: Option<u32>, bg: u8, v: u8) -> bool {
    match cutoff {
        Some(c) => v == (if m < c {
            bg
        } else {
            (255 - bg) as u8
        }),
        None => capped_root(
            m,
            if bg == 255 {
                255 - v
            } else {
                v as int
            },
        ),
    }
}

/// Squared magnitude of the gradient with components `a` and `b`.
pub open spec fn magnitude_squared(a: int, b: int) -> int {
    a * a + b * b
}

/// `out` is the two-kernel edge image of the gradient samples `north`, `east`.
pub open spec fn sobel_result(
    north: Seq<u8>,
    east: Seq<u8>,
    cutoff: Option<u32>,
    bg: u8,
    out: Seq<u8>,
) -> bool {
    &&& out.len() == north.len()
    &&& forall|i: int|
        0 <= i < out.len() ==> edge_sample(
            magnitude_squared(north[i] as int, east[i] as int),
            cutoff,
            bg,
            #[trigger] out[i],
        )
}

/// `out` is the four-kernel edge image of the gradient samples: the vertical
/// component is north minus south, the horizontal one east minus west.
pub open spec fn sobel4_result(
    north: Seq<u8>,
    south: Seq<u8>,
    east: Seq<u8>,
    west: Seq<u8>,
    cutoff: Option<u32>,
    bg: u8,
    out: Seq<u8>,
) -> bool {
    &&& out.len() == north.len()
    &&& forall|i: int|
        0 <= i < out.len() ==> edge_sample(
            magnitude_squared(north[i] - south[i], east[i] - west[i]),
            cutoff,
            bg,
            #[trigger] out[i],
        )
}

/// `sqrt(m)` rounded to the nearest integer.
pub fn rounded_sqrt(m: u32) -> (r: u32)
    requires
        m <= MAX_MAGNITUDE_SQUARED,
    ensures
        rounded_root(m as int, r as int),
{
    let mut r: u32 = 0;
    loop
        invariant
            m <= MAX_MAGNITUDE_SQUARED,
            r <= 361,
            r == 0 || (2 * r - 1) * (2 * r - 1) <= 4 * m,
        ensures
            rounded_root(m as int, r as int),
        decreases 361 - r,
    {
        let t: u32 = 2 * r + 1;
        assert(t * t <= 522729) by (nonlinear_arith)
            requires
                t <= 723,
        ;
        if t * t > 4 * m {
            break;
        }
        assert(r < 361) by (nonlinear_arith)
            requires
                t == 2 * r + 1,
                t * t <= 4 * m,
                m <= 130050,
        ;
        r = r + 1;
    }
    r
}

/// The output sample for squared magnitude `m`; see [`edge_sample`].
pub fn edge_value(m: u32, cutoff: Option<u32>, bg: u8) -> (v: u8)
    requires
        m <= MAX_MAGNITUDE_SQUARED,
    ensures
        edge_sample(m as int, cutoff, bg, v),
{
    match cutoff {
        Some(c) => {
            if m < c {
                bg
            } else {
                255 - bg
            }
        },
        None => {
            let r: u32 = rounded_sqrt(m);
            let s: u8 = if r < 255 {
                r as u8
            } else {
                assert(509 * 509 <= 4 * m) by (nonlinear_arith)
                    requires
                        r >= 255,
                        (2 * r - 1) * (2 * r - 1) <= 4 * m,
                ;
                255
            };
            if bg == 255 {
                255 - s
            } else {
                s
            }
        },
    }
}

/// The two-kernel edge image from the gradient images `north` and `east`,
/// with the background of `F`: binarized against `cutoff` (a squared
/// magnitude) when one is given, else the edge strength.
pub fn sobel<F: ForegroundColor>(
    north: &Raster,
    east: &Raster,
    cutoff: Option<u32>,
) -> (r: Raster)
    requires
        north.wf(),
        east.wf(),
        east.width == north.width,
        east.height == north.height,
    ensures
        r.wf(),
        r.width == north.width,
        r.height == north.height,
        sobel_result(north.pixels@, east.pixels@, cutoff, F::background(), r.pixels@),
{
    let bg: u8 = F::background_color();
    let n: usize = north.pixels.len();
    let mut out: Vec<u8> = Vec::with_capacity(n);
    let mut i: usize = 0;
    while i < n
        invariant
            n == north.pixels@.len(),
            n == east.pixels@.len(),
            bg == F::background(),
            0 <= i <= n,
            out@.len() == i,
            forall|j: int|
                0 <= j < i ==> edge_sample(
                    magnitude_squared(north.pixels@[j] as int, east.pixels@[j] as int),
                    cutoff,
                    bg,
                    #[trigger] out@[j],
                ),
        decreases n - i,
    {
        let a: u32 = north.pixels[i] as u32;
        let b: u32 = east.pixels[i] as u32;
        assert(a * a + b * b <= 130050) by (nonlinear_arith)
            requires
                a <= 255,
                b <= 255,
        ;
        let v: u8 = edge_value(a * a + b * b, cutoff, bg);
        out.push(v);
        i = i + 1;
    }
    Raster { width: north.width, height: north.height, pixels: out }
}

/// The four-kernel edge image from the gradient images of the four Sobel
/// kernels, with the background of `F`: binarized against `cutoff` (a
/// squared magnitude) when one is given, else the edge strength.
pub fn sobel4<F: ForegroundColor>(
    north: &Raster,
    south: &Raster,
    east: &Raster,
    west: &Raster,
    cutoff: Option<u32>,
) -> (r: Raster)
    requires
        north.wf(),
        south.wf(),
        east.wf(),
        west.wf(),
        south.width == north.width && south.height == north.height,
        east.width == north.width && east.height == north.height,
        west.width == north.width && west.height == north.height,
    ensures
        r.wf(),
        r.width == north.width,
        r.height == north.height,
        sobel4_result(
            north.pixels@,
            south.pixels@,
            east.pixels@,
            west.pixels@,
            cutoff,
            F::background(),
            r.pixels@,
        ),
{
    let bg: u8 = F::background_color();
    let n: usize = north.pixels.len();
    let mut out: Vec<u8> = Vec::with_capacity(n);
    let mut i: usize = 0;
    while i < n
        invariant
            n == north.pixels@.len(),
            n == south.pixels@.len(),
            n == east.pixels@.len(),
            n == west.pixels@.len(),
            bg == F::background(),
            0 <= i <= n,
            out@.len() == i,
            forall|j: int|
                0 <= j < i ==> edge_sample(
                    magnitude_squared(
                        north.pixels@[j] - south.pixels@[j],
                        east.pixels@[j] - west.pixels@[j],
                    ),
                    cutoff,
                    bg,
                    #[trigger] out@[j],
                ),
        decreases n - i,
    {
        let v: i32 = north.pixels[i] as i32 - south.pixels[i] as i32;
        let h: i32 = east.pixels[i] as i32 - west.pixels[i] as i32;
        assert(0 <= v * v <= 65025 && 0 <= h * h <= 65025) by (nonlinear_arith)
            requires
                -255 <= v <= 255,
                -255 <= h <= 255,
        ;
        let m: u32 = (v * v + h * h) as u32;
        let s: u8 = edge_value(m, cutoff, bg);
        out.push(s);
        i = i + 1;
    }
    Raster { width: north.width, height: north.height, pixels: out }
}

/// The raster turned by half a turn: position `i` takes the sample at the
/// mirrored position `len - 1 - i`.
pub open spec fn half_turn(s: Seq<u8>) -> Seq<u8> {
    Seq::new(s.len(), |i: int| s[s.len() - 1 - i])
}

proof fn lemma_rounded_root_unique(m: int, r1: int, r2: int)
    requires
        rounded_root(m, r1),
        rounded_root(m, r2),
    ensures
        r1 == r2,
{
    if r1 < r2 {
        assert(false) by (nonlinear_arith)
            requires
                0 <= r1 < r2,
                4 * m < (2 * r1 + 1) * (2 * r1 + 1),
                (2 * r2 - 1) * (2 * r2 - 1) <= 4 * m,
        ;
    } else if r2 < r1 {
        assert(false) by (nonlinear_arith)
            requires
                0 <= r2 < r1,
                4 * m < (2 * r2 + 1) * (2 * r2 + 1),
                (2 * r1 - 1) * (2 * r1 - 1) <= 4 * m,
        ;
    }
}

/// Each squared magnitude has exactly one output sample.
pub proof fn lemma_edge_sample_unique(m: int, cutoff: Option<u32>, bg: u8, v1: u8, v2: u8)
    requires
        edge_sample(m, cutoff, bg, v1),
        edge_sample(m, cutoff, bg, v2),
    ensures
        v1 == v2,
{
    if cutoff.is_none() {
        let s1: int = if bg == 255 {
            255 - v1
        } else {
            v1 as int
        };
        let s2: int = if bg == 255 {
            255 - v2
        } else {
            v2 as int
        };
        if s1 < 255 && s2 < 255 {
            lemma_rounded_root_unique(m, s1, s2);
        } else if s1 < 255 {
            assert(false) by (nonlinear_arith)
                requires
                    0 <= s1 < 255,
                    4 * m < (2 * s1 + 1) * (2 * s1 + 1),
                    509 * 509 <= 4 * m,
            ;
        } else if s2 < 255 {
            assert(false) by (nonlinear_arith)
                requires
                    0 <= s2 < 255,
                    4 * m < (2 * s2 + 1) * (2 * s2 + 1),
                    509 * 509 <= 4 * m,
            ;
        }
    }
}

/// The two-kernel combination commutes with a half turn: combining the
/// half-turned gradient images gives the half-turned edge image.
pub proof fn lemma_sobel_half_turn(
    north: Seq<u8>,
    east: Seq<u8>,
    cutoff: Option<u32>,
    bg: u8,
    out: Seq<u8>,
    turned_out: Seq<u8>,
)
    requires
        east.len() == north.len(),
        sobel_result(north, east, cutoff, bg, out),
        sobel_result(half_turn(north), half_turn(east), cutoff, bg, turned_out),
    ensures
        turned_out == half_turn(out),
{
    assert forall|i: int| 0 <= i < out.len() implies turned_out[i] == half_turn(out)[i] by {
        let j = out.len() - 1 - i;
        lemma_edge_sample_unique(
            magnitude_squared(north[j] as int, east[j] as int),
            cutoff,
            bg,
            turned_out[i],
            out[j],
        );
    }
    assert(turned_out =~= half_turn(out));
}

/// A half turn of an image swaps the north and south kernel responses and
/// the east and west ones, each taken at the mirrored position. The
/// four-kernel combination of such responses is the half-turned edge image.
pub proof fn lemma_sobel4_half_turn(
    north: Seq<u8>,
    south: Seq<u8>,
    east: Seq<u8>,
    west: Seq<u8>,
    cutoff: Option<u32>,
    bg: u8,
    out: Seq<u8>,
    turned_out: Seq<u8>,
)
    requires
        south.len() == north.len(),
        east.len() == north.len(),
        west.len() == north.len(),
        sobel4_result(north, south, east, west, cutoff, bg, out),
        sobel4_result(
            half_turn(south),
            half_turn(north),
            half_turn(west),
            half_turn(east),
            cutoff,
            bg,
            turned_out,
        ),
    ensures
        turned_out == half_turn(out),
{
    assert forall|i: int| 0 <= i < out.len() implies turned_out[i] == half_turn(out)[i] by {
        let j = out.len() - 1 - i;
        let v = north[j] - south[j];
        let h = east[j] - west[j];
        assert(magnitude_squared(south[j] - north[j], west[j] - east[j]) == magnitude_squared(
            v,
            h,
        )) by (nonlinear_arith)
            requires
                v == north[j] - south[j],
                h == east[j] - west[j],
        ;
        lemma_edge_sample_unique(magnitude_squared(v, h), cutoff, bg, turned_out[i], out[j]);
    }
    assert(turned_out =~= half_turn(out));
}

} // verus!
