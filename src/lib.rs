//! Line thinning for binary images: a raster of thick strokes is reduced to
//! one-pixel-wide lines that keep the strokes' connectivity, with Sobel edge
//! detection and thresholding to binarize an image first.
use vstd::prelude::*;

pub mod edge_detection;
pub mod error;
pub mod foreground;
pub mod neighbors;
pub mod raster;
pub mod thinning;

pub use thinning::thin_image_edges;

pub use error::{LumaConversionErrorKind, SkeletonizeError};
pub use raster::Raster;


verus! {

/// The color of the features of a binary image. White text on black paper
/// has a white foreground and a black background.
pub trait ForegroundColor {
    /// The background intensity.
    spec fn background() -> u8;

    /// The background intensity, for binarization and erasure.
    fn background_color() -> (r: u8)
        ensures
            r == Self::background(),
    ;
}

/// Classification of a neighbouring pixel.
#[derive(Clone, Copy, Debug, PartialEq, Eq, Structural)]
pub enum Edge {
    /// The pixel holds the background color.
    Empty,
    /// The pixel holds the foreground color.
    Filled,
    /// The position lies outside the image.
    DoesNotExist,
}

impl Edge {
    /// `1` for a filled pixel, `0` otherwise.
    pub fn to_u8(&self) -> (r: u8)
        ensures
            r == (if *self == Edge::Filled { 1u8 } else { 0u8 }),
    {
        match self {
            Edge::Empty | Edge::DoesNotExist => 0,
            Edge::Filled => 1,
        }
    }
}

/// The rule set that decides which pixels a thinning pass removes.
#[derive(Clone, Copy, Debug, PartialEq, Eq, Structural)]
pub enum MarkingMethod {
    /// The rules of Zhang and Suen (1984).
    Standard,
    /// The refinement of Chen and Hsu (1988): thinner lines and better
    /// connectivity than `Standard`.
    Modified,
}

impl Default for MarkingMethod {
    fn default() -> (r: Self)
        ensures
            r == MarkingMethod::Modified,
    {
        MarkingMethod::Modified
    }
}

/// Binarize `img`: samples below `cutoff` become `0`, all others `255`.
pub fn threshold(img: &mut Raster, cutoff: u8)
    ensures
        final(img).width == old(img).width,
        final(img).height == old(img).height,
        final(img).pixels@.len() == old(img).pixels@.len(),
        forall|i: int|
            0 <= i < old(img).pixels@.len() ==> final(img).pixels@[i] == (if old(
                img,
            ).pixels@[i] < cutoff {
                0u8
            } else {
                255u8
            }),
{
    let n: usize = img.pixels.len();
    let mut i: usize = 0;
    while i < n
        invariant
            n == old(img).pixels@.len(),
            img.width == old(img).width,
            img.height == old(img).height,
            img.pixels@.len() == n,
            0 <= i <= n,
            forall|j: int|
                0 <= j < i ==> img.pixels@[j] == (if old(img).pixels@[j] < cutoff {
                    0u8
                } else {
                    255u8
                }),
            forall|j: int| i <= j < n ==> img.pixels@[j] == old(img).pixels@[j],
        decreases n - i,
    {
        let v: u8 = if img.pixels[i] < cutoff {
            0
        } else {
            255
        };
        img.pixels.set(i, v);
        i = i + 1;
    }
}

} // verus!
