//! Iterative thinning: each pass marks, against a snapshot of the image, the
//! foreground pixels that the chosen rule set may erase, then erases them all
//! at once; passes alternate between two phases until one marks nothing.
use vstd::prelude::*;

use crate::error::SkeletonizeError;
use crate::neighbors::{
    count_of, existing_count, filled_count, get_neighbor_info, ring, ring_transitions, NeighborInfo,
};
use crate::raster::{index_of, lemma_index_decompose, Raster};
use crate::{Edge, ForegroundColor, MarkingMethod};

verus! {

/// Ring slot `k` is empty. Slots: 0 N, 1 NE, 2 E, 3 SE, 4 S, 5 SW, 6 W, 7 NW.
pub open spec fn is_empty(s: Seq<Edge>, k: int) -> bool {
    s[k] == Edge::Empty
}

/// Ring slot `k` is filled.
pub open spec fn is_filled(s: Seq<Edge>, k: int) -> bool {
    s[k] == Edge::Filled
}

/// The condition of a one-transition pixel: in the first phase one of N, E, S
/// and one of E, S, W is empty; in the second one of N, E, W and one of N, S,
/// W is empty.
pub open spec fn one_transition_rule(phase_one: bool, s: Seq<Edge>) -> bool {
    if phase_one {
        (is_empty(s, 0) || is_empty(s, 2) || is_empty(s, 4)) && (is_empty(s, 2) || is_empty(
            s,
            4,
        ) || is_empty(s, 6))
    } else {
        (is_empty(s, 0) || is_empty(s, 2) || is_empty(s, 6)) && (is_empty(s, 0) || is_empty(
            s,
            4,
        ) || is_empty(s, 6))
    }
}

/// The condition of a two-transition pixel under the modified rules. First
/// phase: N and E filled with S, SW, W empty, or E and S filled with N, W, NW
/// empty. Second phase: N and W filled with E, SE, S empty, or S and W filled
/// with N, NE, E empty.
pub open spec fn two_transition_rule(phase_one: bool, s: Seq<Edge>) -> bool {
    if phase_one {
        (is_filled(s, 0) && is_filled(s, 2) && is_empty(s, 4) && is_empty(s, 5) && is_empty(s, 6))
            || (is_filled(s, 2) && is_filled(s, 4) && is_empty(s, 0) && is_empty(s, 6)
            && is_empty(s, 7))
    } else {
        (is_filled(s, 0) && is_filled(s, 6) && is_empty(s, 2) && is_empty(s, 3) && is_empty(s, 4))
            || (is_filled(s, 4) && is_filled(s, 6) && is_empty(s, 0) && is_empty(s, 1)
            && is_empty(s, 2))
    }
}

/// Whether a foreground pixel with `filled` filled neighbours, `neighbors`
/// neighbours inside the image and ring `s` is marked for erasure.
pub open spec fn marks_info(
    method: MarkingMethod,
    phase_one: bool,
    filled: int,
    neighbors: int,
    s: Seq<Edge>,
) -> bool {
    neighbors == 8 && match method {
        MarkingMethod::Standard => 2 <= filled <= 6 && ring_transitions(s) == 1
            && one_transition_rule(phase_one, s),
        MarkingMethod::Modified => 2 <= filled <= 7 && ((ring_transitions(s) == 1
            && one_transition_rule(phase_one, s)) || (ring_transitions(s) == 2
            && two_transition_rule(phase_one, s))),
    }
}

/// Whether a foreground pixel with neighbour ring `s` is marked for erasure.
pub open spec fn marks(method: MarkingMethod, phase_one: bool, s: Seq<Edge>) -> bool {
    marks_info(method, phase_one, filled_count(s) as int, existing_count(s), s)
}

/// Whether pixel (`x`, `y`) of the `w` by `h` image `px` is marked in a pass.
pub open spec fn marked(
    px: Seq<u8>,
    w: int,
    h: int,
    bg: u8,
    method: MarkingMethod,
    phase_one: bool,
    x: int,
    y: int,
) -> bool {
    px[index_of(w, x, y)] != bg && marks(method, phase_one, ring(px, w, h, bg, x, y))
}

/// Whether the pixel at buffer position `i` is marked in a pass.
pub open spec fn marked_at(
    px: Seq<u8>,
    w: int,
    h: int,
    bg: u8,
    method: MarkingMethod,
    phase_one: bool,
    i: int,
) -> bool {
    marked(px, w, h, bg, method, phase_one, i % w, i / w)
}

/// The image after one pass: every marked pixel set to the background.
pub open spec fn pass_result(
    px: Seq<u8>,
    w: int,
    h: int,
    bg: u8,
    method: MarkingMethod,
    phase_one: bool,
) -> Seq<u8> {
    Seq::new(
        px.len(),
        |i: int|
            if marked_at(px, w, h, bg, method, phase_one, i) {
                bg
            } else {
                px[i]
            },
    )
}

/// A pass over `px` marks at least one pixel.
pub open spec fn removes_some(
    px: Seq<u8>,
    w: int,
    h: int,
    bg: u8,
    method: MarkingMethod,
    phase_one: bool,
) -> bool {
    exists|i: int| 0 <= i < px.len() && #[trigger] marked_at(px, w, h, bg, method, phase_one, i)
}

/// Passes alternate phases, starting with the first.
pub open spec fn phase_of(n: nat) -> bool {
    n % 2 == 0
}

/// The image after `n` passes.
pub open spec fn after_passes(
    px: Seq<u8>,
    w: int,
    h: int,
    bg: u8,
    method: MarkingMethod,
    n: nat,
) -> Seq<u8>
    decreases n,
{
    if n == 0 {
        px
    } else {
        pass_result(
            after_passes(px, w, h, bg, method, (n - 1) as nat),
            w,
            h,
            bg,
            method,
            phase_of((n - 1) as nat),
        )
    }
}

/// Pass `n` of a thinning run marks at least one pixel.
pub open spec fn pass_removes(
    px: Seq<u8>,
    w: int,
    h: int,
    bg: u8,
    method: MarkingMethod,
    n: nat,
) -> bool {
    removes_some(after_passes(px, w, h, bg, method, n), w, h, bg, method, phase_of(n))
}

/// Passes `0` to `n - 1` mark something and pass `n` marks nothing.
pub open spec fn converges_at(
    px: Seq<u8>,
    w: int,
    h: int,
    bg: u8,
    method: MarkingMethod,
    n: nat,
) -> bool {
    &&& forall|j: nat| j < n ==> #[trigger] pass_removes(px, w, h, bg, method, j)
    &&& !pass_removes(px, w, h, bg, method, n)
}

/// The pass budget: the given count, or `u32::MAX` when none is given.
pub open spec fn budget(iterations: Option<u32>) -> nat {
    match iterations {
        Some(n) => n as nat,
        None => u32::MAX as nat,
    }
}

/// The one-transition condition over an actual ring.
fn one_transition_rule_holds(phase_one: bool, s: &[Edge; 8]) -> (r: bool)
    ensures
        r == one_transition_rule(phase_one, s@),
{
    let e0 = s[0] == Edge::Empty;
    let e2 = s[2] == Edge::Empty;
    let e4 = s[4] == Edge::Empty;
    let e6 = s[6] == Edge::Empty;
    if phase_one {
        (e0 || e2 || e4) && (e2 || e4 || e6)
    } else {
        (e0 || e2 || e6) && (e0 || e4 || e6)
    }
}

/// The two-transition condition of the modified rules over an actual ring.
fn two_transition_rule_holds(phase_one: bool, s: &[Edge; 8]) -> (r: bool)
    ensures
        r == two_transition_rule(phase_one, s@),
{
    let f0 = s[0] == Edge::Filled;
    let f2 = s[2] == Edge::Filled;
    let f4 = s[4] == Edge::Filled;
    let f6 = s[6] == Edge::Filled;
    if phase_one {
        (f0 && f2 && s[4] == Edge::Empty && s[5] == Edge::Empty && s[6] == Edge::Empty) || (f2
            && f4 && s[0] == Edge::Empty && s[6] == Edge::Empty && s[7] == Edge::Empty)
    } else {
        (f0 && f6 && s[2] == Edge::Empty && s[3] == Edge::Empty && s[4] == Edge::Empty) || (f4
            && f6 && s[0] == Edge::Empty && s[1] == Edge::Empty && s[2] == Edge::Empty)
    }
}

/// Whether a foreground pixel with neighbourhood `info` is marked for erasure
/// by `method` in the given phase.
pub fn should_mark(method: MarkingMethod, phase_one: bool, info: &NeighborInfo) -> (r: bool)
    ensures
        r == marks_info(
            method,
            phase_one,
            info.filled as int,
            info.neighbors as int,
            info.edge_status@,
        ),
{
    if info.neighbors != 8 {
        return false;
    }
    match method {
        MarkingMethod::Standard => {
            if info.filled < 2 || info.filled > 6 {
                return false;
            }
            let t: u8 = info.transitions();
            t == 1 && one_transition_rule_holds(phase_one, &info.edge_status)
        },
        MarkingMethod::Modified => {
            if info.filled < 2 || info.filled > 7 {
                return false;
            }
            let t: u8 = info.transitions();
            if t == 1 {
                one_transition_rule_holds(phase_one, &info.edge_status)
            } else if t == 2 {
                two_transition_rule_holds(phase_one, &info.edge_status)
            } else {
                false
            }
        },
    }
}

/// Scan the whole image and mark, position by position, the pixels that a
/// pass erases; the image is only read.
fn mark_pixels<F: ForegroundColor>(
    img: &Raster,
    method: MarkingMethod,
    phase_one: bool,
) -> (mask: Vec<bool>)
    requires
        img.wf(),
    ensures
        mask@.len() == img.pixels@.len(),
        forall|i: int|
            0 <= i < mask@.len() ==> mask@[i] == marked_at(
                img.pixels@,
                img.width as int,
                img.height as int,
                F::background(),
                method,
                phase_one,
                i,
            ),
{
    let bg: u8 = F::background_color();
    let (width, height) = img.dimensions();
    let n: usize = img.pixels.len();
    let mut mask: Vec<bool> = Vec::with_capacity(n);
    let mut i: usize = 0;
    while i < n
        invariant
            img.wf(),
            bg == F::background(),
            width == img.width,
            height == img.height,
            n == img.pixels@.len(),
            0 <= i <= n,
            mask@.len() == i,
            forall|j: int|
                0 <= j < i ==> mask@[j] == marked_at(
                    img.pixels@,
                    width as int,
                    height as int,
                    bg,
                    method,
                    phase_one,
                    j,
                ),
        decreases n - i,
    {
        proof {
            if width == 0 {
                assert(width * height == 0);
            }
            lemma_index_decompose(width as int, height as int, i as int);
        }
        let x: u32 = (i % (width as usize)) as u32;
        let y: u32 = (i / (width as usize)) as u32;
        let m: bool = if img.pixels[i] == bg {
            false
        } else {
            let info = get_neighbor_info::<F>(img, width, height, x, y);
            should_mark(method, phase_one, &info)
        };
        mask.push(m);
        i = i + 1;
    }
    mask
}

/// Set every position that `mask` holds to `bg`; tells whether there was any.
fn erase_marked(img: &mut Raster, mask: &Vec<bool>, bg: u8) -> (removed: bool)
    requires
        old(img).wf(),
        mask@.len() == old(img).pixels@.len(),
    ensures
        final(img).wf(),
        final(img).width == old(img).width,
        final(img).height == old(img).height,
        final(img).pixels@ == Seq::new(
            old(img).pixels@.len(),
            |i: int|
                if mask@[i] {
                    bg
                } else {
                    old(img).pixels@[i]
                },
        ),
        removed == exists|i: int| 0 <= i < mask@.len() && mask@[i],
{
    let n: usize = mask.len();
    let mut removed = false;
    let mut i: usize = 0;
    while i < n
        invariant
            n == mask@.len(),
            n == old(img).pixels@.len(),
            img.width == old(img).width,
            img.height == old(img).height,
            img.pixels@.len() == n,
            0 <= i <= n,
            forall|j: int|
                0 <= j < i ==> img.pixels@[j] == (if mask@[j] {
                    bg
                } else {
                    old(img).pixels@[j]
                }),
            forall|j: int| i <= j < n ==> img.pixels@[j] == old(img).pixels@[j],
            removed == exists|j: int| 0 <= j < i && mask@[j],
        decreases n - i,
    {
        if mask[i] {
            img.pixels.set(i, bg);
            removed = true;
        }
        i = i + 1;
    }
    assert(img.pixels@ =~= Seq::new(
        old(img).pixels@.len(),
        |i: int|
            if mask@[i] {
                bg
            } else {
                old(img).pixels@[i]
            },
    ));
    removed
}

/// One thinning pass: mark against the image as it stands, then erase every
/// marked pixel. Tells whether any pixel was marked.
pub fn thin_pass<F: ForegroundColor>(
    img: &mut Raster,
    method: MarkingMethod,
    phase_one: bool,
) -> (removed: bool)
    requires
        old(img).wf(),
    ensures
        final(img).wf(),
        final(img).width == old(img).width,
        final(img).height == old(img).height,
        final(img).pixels@ == pass_result(
            old(img).pixels@,
            old(img).width as int,
            old(img).height as int,
            F::background(),
            method,
            phase_one,
        ),
        removed == removes_some(
            old(img).pixels@,
            old(img).width as int,
            old(img).height as int,
            F::background(),
            method,
            phase_one,
        ),
{
    let mask = mark_pixels::<F>(img, method, phase_one);
    let bg: u8 = F::background_color();
    let removed = erase_marked(img, &mask, bg);
    proof {
        let px = old(img).pixels@;
        let w = old(img).width as int;
        let h = old(img).height as int;
        if removed {
            let k = choose|k: int| 0 <= k < mask@.len() && mask@[k];
            assert(marked_at(px, w, h, bg, method, phase_one, k));
        } else {
            assert forall|k: int| 0 <= k < px.len() implies !marked_at(
                px,
                w,
                h,
                bg,
                method,
                phase_one,
                k,
            ) by {
                assert(!mask@[k]);
            }
        }
    }
    assert(final(img).pixels@ =~= pass_result(
        old(img).pixels@,
        old(img).width as int,
        old(img).height as int,
        bg,
        method,
        phase_one,
    ));
    removed
}

/// A pass that marks nothing leaves the image as it is.
pub proof fn lemma_quiet_pass_keeps_image(
    px: Seq<u8>,
    w: int,
    h: int,
    bg: u8,
    method: MarkingMethod,
    phase_one: bool,
)
    requires
        !removes_some(px, w, h, bg, method, phase_one),
    ensures
        pass_result(px, w, h, bg, method, phase_one) == px,
{
    assert forall|i: int| 0 <= i < px.len() implies #[trigger] pass_result(
        px,
        w,
        h,
        bg,
        method,
        phase_one,
    )[i] == px[i] by {
        assert(!marked_at(px, w, h, bg, method, phase_one, i));
    }
    assert(pass_result(px, w, h, bg, method, phase_one) =~= px);
}

/// Thin the binary image `img` with `method`, against the background of `F`,
/// until a pass marks nothing, using at most `iterations` passes
/// (`u32::MAX` when `None`). On success returns the number of passes that
/// erased something; when the budget runs out first, returns
/// `MaxThinningIterations` and leaves the passes made in place.
pub fn thin_image_edges<F: ForegroundColor>(
    img: &mut Raster,
    method: MarkingMethod,
    iterations: Option<u32>,
) -> (r: Result<u32, SkeletonizeError>)
    requires
        old(img).wf(),
    ensures
        final(img).wf(),
        final(img).width == old(img).width,
        final(img).height == old(img).height,
        match r {
            Ok(k) => {
                &&& k < budget(iterations)
                &&& converges_at(
                    old(img).pixels@,
                    old(img).width as int,
                    old(img).height as int,
                    F::background(),
                    method,
                    k as nat,
                )
                &&& final(img).pixels@ == after_passes(
                    old(img).pixels@,
                    old(img).width as int,
                    old(img).height as int,
                    F::background(),
                    method,
                    k as nat,
                )
            },
            Err(e) => {
                &&& e == SkeletonizeError::MaxThinningIterations
                &&& forall|j: nat|
                    j < budget(iterations) ==> #[trigger] pass_removes(
                        old(img).pixels@,
                        old(img).width as int,
                        old(img).height as int,
                        F::background(),
                        method,
                        j,
                    )
                &&& final(img).pixels@ == after_passes(
                    old(img).pixels@,
                    old(img).width as int,
                    old(img).height as int,
                    F::background(),
                    method,
                    budget(iterations),
                )
            },
        },
{
    let ghost px = img.pixels@;
    let ghost w = img.width as int;
    let ghost h = img.height as int;
    let ghost bg = F::background();
    let limit: u32 = match iterations {
        Some(n) => n,
        None => u32::MAX,
    };
    let mut phase_one = true;
    let mut iters: u32 = 0;
    while iters < limit
        invariant
            img.wf(),
            img.width == w,
            img.height == h,
            px == old(img).pixels@,
            w == old(img).width,
            h == old(img).height,
            bg == F::background(),
            limit == budget(iterations),
            iters <= limit,
            phase_one == phase_of(iters as nat),
            img.pixels@ == after_passes(px, w, h, bg, method, iters as nat),
            forall|j: nat| j < iters ==> #[trigger] pass_removes(px, w, h, bg, method, j),
        decreases limit - iters,
    {
        let ghost before = img.pixels@;
        let removed = thin_pass::<F>(img, method, phase_one);
        assert(after_passes(px, w, h, bg, method, (iters + 1) as nat) == pass_result(
            before,
            w,
            h,
            bg,
            method,
            phase_one,
        ));
        if !removed {
            proof {
                lemma_quiet_pass_keeps_image(before, w, h, bg, method, phase_one);
            }
            return Ok(iters);
        }
        assert(pass_removes(px, w, h, bg, method, iters as nat));
        phase_one = !phase_one;
        iters = iters + 1;
    }
    Err(SkeletonizeError::MaxThinningIterations)
}

/// Number of samples among the first `n` of `s` that differ from `bg`.
pub open spec fn foreground_count(s: Seq<u8>, bg: u8, n: int) -> nat
    decreases n,
{
    if n <= 0 {
        0
    } else {
        foreground_count(s, bg, n - 1) + (if s[n - 1] != bg {
            1nat
        } else {
            0nat
        })
    }
}

/// Number of foreground samples of the whole image.
pub open spec fn foreground_total(s: Seq<u8>, bg: u8) -> nat {
    foreground_count(s, bg, s.len() as int)
}

/// No pass of either phase marks anything: the image is a skeleton.
pub open spec fn is_skeleton(px: Seq<u8>, w: int, h: int, bg: u8, method: MarkingMethod) -> bool {
    !removes_some(px, w, h, bg, method, true) && !removes_some(px, w, h, bg, method, false)
}

proof fn lemma_count_positive(s: Seq<Edge>, e: Edge, n: int, k: int)
    requires
        0 <= k < n <= s.len(),
        s[k] == e,
    ensures
        count_of(s, e, n) >= 1,
    decreases n,
{
    if k < n - 1 {
        lemma_count_positive(s, e, n - 1, k);
    }
}

/// A pixel on the image border is never marked, whatever the rule set and
/// phase: one of its neighbours lies outside the image.
pub proof fn lemma_border_pixel_kept(
    px: Seq<u8>,
    w: int,
    h: int,
    bg: u8,
    method: MarkingMethod,
    phase_one: bool,
    x: int,
    y: int,
)
    requires
        0 <= x < w,
        0 <= y < h,
        x == 0 || y == 0 || x == w - 1 || y == h - 1,
    ensures
        !marked(px, w, h, bg, method, phase_one, x, y),
{
    let s = ring(px, w, h, bg, x, y);
    let k: int = if y == 0 {
        0
    } else if x == w - 1 {
        2
    } else if y == h - 1 {
        4
    } else {
        6
    };
    assert(s[k] == Edge::DoesNotExist);
    lemma_count_positive(s, Edge::DoesNotExist, 8, k);
}

proof fn lemma_erasure_count(a: Seq<u8>, b: Seq<u8>, bg: u8, n: int)
    requires
        0 <= n <= a.len(),
        a.len() == b.len(),
        forall|i: int| 0 <= i < n ==> b[i] == a[i] || (a[i] != bg && b[i] == bg),
    ensures
        foreground_count(b, bg, n) <= foreground_count(a, bg, n),
        (exists|i: int| 0 <= i < n && a[i] != bg && b[i] == bg) ==> foreground_count(b, bg, n)
            < foreground_count(a, bg, n),
    decreases n,
{
    if n > 0 {
        lemma_erasure_count(a, b, bg, n - 1);
        if exists|i: int| 0 <= i < n && a[i] != bg && b[i] == bg {
            let i = choose|i: int| 0 <= i < n && a[i] != bg && b[i] == bg;
            if i < n - 1 {
                assert(exists|j: int| 0 <= j < n - 1 && a[j] != bg && b[j] == bg);
            }
        }
    }
}

/// A pass erases only foreground pixels: the foreground never grows, and it
/// shrinks whenever the pass marks something.
pub proof fn lemma_pass_shrinks(
    px: Seq<u8>,
    w: int,
    h: int,
    bg: u8,
    method: MarkingMethod,
    phase_one: bool,
)
    requires
        px.len() == w * h,
    ensures
        pass_result(px, w, h, bg, method, phase_one).len() == px.len(),
        foreground_total(pass_result(px, w, h, bg, method, phase_one), bg) <= foreground_total(
            px,
            bg,
        ),
        removes_some(px, w, h, bg, method, phase_one) ==> foreground_total(
            pass_result(px, w, h, bg, method, phase_one),
            bg,
        ) < foreground_total(px, bg),
{
    let q = pass_result(px, w, h, bg, method, phase_one);
    assert forall|i: int| 0 <= i < px.len() implies q[i] == px[i] || (px[i] != bg && q[i]
        == bg) by {
        if marked_at(px, w, h, bg, method, phase_one, i) {
            lemma_index_decompose(w, h, i);
        }
    }
    if removes_some(px, w, h, bg, method, phase_one) {
        let i = choose|i: int|
            0 <= i < px.len() && #[trigger] marked_at(px, w, h, bg, method, phase_one, i);
        lemma_index_decompose(w, h, i);
        assert(px[i] != bg && q[i] == bg);
    }
    lemma_erasure_count(px, q, bg, px.len() as int);
}

/// Every pass keeps the image's size.
pub proof fn lemma_passes_keep_length(
    px: Seq<u8>,
    w: int,
    h: int,
    bg: u8,
    method: MarkingMethod,
    n: nat,
)
    ensures
        after_passes(px, w, h, bg, method, n).len() == px.len(),
    decreases n,
{
    if n > 0 {
        lemma_passes_keep_length(px, w, h, bg, method, (n - 1) as nat);
    }
}

/// Pass over pass, the foreground count of a thinning run never grows, and
/// it strictly falls on every pass that marks something.
pub proof fn lemma_run_shrinks(
    px: Seq<u8>,
    w: int,
    h: int,
    bg: u8,
    method: MarkingMethod,
    n: nat,
)
    requires
        px.len() == w * h,
    ensures
        foreground_total(after_passes(px, w, h, bg, method, n + 1), bg) <= foreground_total(
            after_passes(px, w, h, bg, method, n),
            bg,
        ),
        pass_removes(px, w, h, bg, method, n) ==> foreground_total(
            after_passes(px, w, h, bg, method, n + 1),
            bg,
        ) < foreground_total(after_passes(px, w, h, bg, method, n), bg),
{
    lemma_passes_keep_length(px, w, h, bg, method, n);
    lemma_pass_shrinks(after_passes(px, w, h, bg, method, n), w, h, bg, method, phase_of(n));
}

proof fn lemma_busy_passes_consume(
    px: Seq<u8>,
    w: int,
    h: int,
    bg: u8,
    method: MarkingMethod,
    n: nat,
)
    requires
        px.len() == w * h,
        forall|j: nat| j < n ==> #[trigger] pass_removes(px, w, h, bg, method, j),
    ensures
        foreground_total(after_passes(px, w, h, bg, method, n), bg) + n <= foreground_total(
            px,
            bg,
        ),
    decreases n,
{
    if n > 0 {
        let m = (n - 1) as nat;
        assert(pass_removes(px, w, h, bg, method, m));
        lemma_busy_passes_consume(px, w, h, bg, method, m);
        lemma_run_shrinks(px, w, h, bg, method, m);
    }
}

/// Thinning cannot go on forever: some pass among the first
/// `foreground_total(px) + 1` marks nothing, so a run whose budget exceeds
/// the foreground count always converges.
pub proof fn lemma_run_converges(
    px: Seq<u8>,
    w: int,
    h: int,
    bg: u8,
    method: MarkingMethod,
    iterations: Option<u32>,
)
    requires
        px.len() == w * h,
        budget(iterations) > foreground_total(px, bg),
    ensures
        exists|k: nat| k < budget(iterations) && !#[trigger] pass_removes(px, w, h, bg, method, k),
{
    let n = foreground_total(px, bg) + 1;
    if forall|j: nat| j < n ==> #[trigger] pass_removes(px, w, h, bg, method, j) {
        lemma_busy_passes_consume(px, w, h, bg, method, n);
    } else {
        let k = choose|k: nat| k < n && !#[trigger] pass_removes(px, w, h, bg, method, k);
        assert(k < budget(iterations));
    }
}

/// A skeleton is a fixed point of thinning: the first pass marks nothing,
/// so thinning it reports zero passes and leaves it unchanged.
pub proof fn lemma_skeleton_is_fixed(px: Seq<u8>, w: int, h: int, bg: u8, method: MarkingMethod)
    requires
        is_skeleton(px, w, h, bg, method),
    ensures
        converges_at(px, w, h, bg, method, 0),
        after_passes(px, w, h, bg, method, 0) == px,
{
}

/// Thinning again the result of a run that stopped on a first-phase pass
/// reports zero passes: that pass, which is the rerun's first, marks nothing.
pub proof fn lemma_rerun_is_quiet(
    px: Seq<u8>,
    w: int,
    h: int,
    bg: u8,
    method: MarkingMethod,
    k: nat,
)
    requires
        converges_at(px, w, h, bg, method, k),
        k % 2 == 0,
    ensures
        converges_at(after_passes(px, w, h, bg, method, k), w, h, bg, method, 0),
{
}

} // verus!
