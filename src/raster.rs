//! A single-channel 8-bit image held row by row.
use vstd::prelude::*;

verus! {

/// Position of the sample at column `x` and row `y` in a row-major buffer
/// whose rows are `w` samples long.
pub open spec fn index_of(w: int, x: int, y: int) -> int {
    y * w + x
}

/// A sample position inside a `w` by `h` image lies inside the buffer.
pub proof fn lemma_index_in_bounds(w: int, h: int, x: int, y: int)
    requires
        0 <= x < w,
        0 <= y < h,
    ensures
        0 <= index_of(w, x, y) < w * h,
{
    assert(0 <= y * w + x < w * h) by (nonlinear_arith)
        requires
            0 <= x < w,
            0 <= y < h,
    ;
}

/// Every buffer position comes from exactly one column and row.
pub proof fn lemma_index_decompose(w: int, h: int, i: int)
    requires
        0 < w,
        0 <= i < w * h,
    ensures
        0 <= i % w < w,
        0 <= i / w < h,
        index_of(w, i % w, i / w) == i,
{
    vstd::arithmetic::div_mod::lemma_fundamental_div_mod(i, w);
    vstd::arithmetic::div_mod::lemma_mod_bound(i, w);
    vstd::arithmetic::div_mod::lemma_div_pos_is_pos(i, w);
    let q = i / w;
    let r = i % w;
    assert(q * w + r == i) by (nonlinear_arith)
        requires
            i == w * q + r,
    ;
    assert(q < h) by (nonlinear_arith)
        requires
            i == q * w + r,
            0 <= r,
            i < w * h,
            0 < w,
    ;
}

/// Column and row of a position, recovered from the buffer index.
pub proof fn lemma_index_unique(w: int, x: int, y: int)
    requires
        0 <= x < w,
        0 <= y,
    ensures
        index_of(w, x, y) % w == x,
        index_of(w, x, y) / w == y,
{
    vstd::arithmetic::div_mod::lemma_fundamental_div_mod_converse(y * w + x, w, y, x);
}

/// A grayscale raster: `width` by `height` samples, stored row after row.
pub struct Raster {
    /// Number of columns.
    pub width: u32,
    /// Number of rows.
    pub height: u32,
    /// The samples, row-major.
    pub pixels: Vec<u8>,
}

impl Raster {
    /// The buffer holds exactly one sample per position.
    pub open spec fn wf(&self) -> bool {
        self.pixels@.len() == self.width * self.height
    }

    /// The sample at column `x`, row `y`.
    pub open spec fn at(&self, x: int, y: int) -> u8 {
        self.pixels@[index_of(self.width as int, x, y)]
    }

    /// A raster of the given size with every sample set to `value`.
    pub fn from_pixel(width: u32, height: u32, value: u8) -> (r: Raster)
        requires
            width * height <= usize::MAX,
        ensures
            r.wf(),
            r.width == width,
            r.height == height,
            forall|i: int| 0 <= i < r.pixels@.len() ==> r.pixels@[i] == value,
    {
        let n: usize = (width as usize) * (height as usize);
        let pixels = vec![value; n];
        Raster { width, height, pixels }
    }

    /// A raster over an existing buffer; `None` when the buffer's length is
    /// not `width * height`.
    pub fn from_raw(width: u32, height: u32, pixels: Vec<u8>) -> (r: Option<Raster>)
        ensures
            r.is_some() <==> pixels@.len() == width * height,
            r matches Some(img) ==> img.width == width && img.height == height
                && img.pixels@ == pixels@,
    {
        let w: u64 = width as u64;
        let h: u64 = height as u64;
        assert(w * h <= u32::MAX * u32::MAX) by (nonlinear_arith)
            requires
                w <= u32::MAX,
                h <= u32::MAX,
        ;
        let n: u64 = w * h;
        if pixels.len() as u64 == n {
            Some(Raster { width, height, pixels })
        } else {
            None
        }
    }

    /// The number of columns and rows.
    pub fn dimensions(&self) -> (r: (u32, u32))
        ensures
            r == (self.width, self.height),
    {
        (self.width, self.height)
    }

    /// Buffer position of column `x`, row `y`.
    fn index(&self, x: u32, y: u32) -> (i: usize)
        requires
            self.wf(),
            x < self.width,
            y < self.height,
        ensures
            i == index_of(self.width as int, x as int, y as int),
            i < self.pixels@.len(),
    {
        let len: usize = self.pixels.len();
        proof {
            // The buffer, and so every position in it, fits in a `usize`.
            assert(self.pixels@.len() == len as int);
            lemma_index_in_bounds(self.width as int, self.height as int, x as int, y as int);
            assert(0 <= (y as int) * (self.width as int) <= (y as int) * (self.width as int)
                + (x as int)) by (nonlinear_arith)
                requires
                    0 <= x,
                    0 <= y,
                    0 <= self.width,
            ;
        }
        (y as usize) * (self.width as usize) + (x as usize)
    }

    /// The sample at column `x`, row `y`.
    pub fn get_pixel(&self, x: u32, y: u32) -> (r: u8)
        requires
            self.wf(),
            x < self.width,
            y < self.height,
        ensures
            r == self.at(x as int, y as int),
    {
        self.pixels[self.index(x, y)]
    }

    /// Overwrite the sample at column `x`, row `y`.
    pub fn put_pixel(&mut self, x: u32, y: u32, value: u8)
        requires
            old(self).wf(),
            x < old(self).width,
            y < old(self).height,
        ensures
            final(self).wf(),
            final(self).width == old(self).width,
            final(self).height == old(self).height,
            final(self).pixels@ == old(self).pixels@.update(
                index_of(old(self).width as int, x as int, y as int),
                value,
            ),
    {
        let i: usize = self.index(x, y);
        self.pixels.set(i, value);
    }
}

} // verus!
