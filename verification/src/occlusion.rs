//! Pet-body occlusion from desktop window geometry.
//!
//! Computes, in whole pixels, how real windows cover the pet body so the host
//! can build clip or hole masks. Window titles are never read.
//!
//! Larger `z_order` is more front. Occluders with
//! `z_order >= PET_OCCLUSION_Z_PLANE` are in front of (or coplanar with) the
//! pet and may occlude it; a negative `z_order` marks a window behind the pet.
//!
//! Coverage is the exact area of the union of the occluders' intersections
//! with the pet body. The host turns the integer result into fractions.
use crate::obstacles::{fits_i32, max_int, min_int};
use crate::snapshot::{DesktopSnapshot, DesktopWindow};
use vstd::prelude::*;

verus! {

/// Implicit pet z-plane: occluders at or above it may occlude the pet.
pub const PET_OCCLUSION_Z_PLANE: i32 = 0;

/// Most occluders taken from one snapshot.
pub const MAX_OCCLUDERS: usize = 48;

/// Pet body rectangle in physical screen coordinates (top-left origin).
#[derive(Debug, Clone, Copy, PartialEq, Eq, Structural)]
pub struct PetBodyRect {
    pub x: i32,
    pub y: i32,
    pub width: u32,
    pub height: u32,
}

/// Axis-aligned window rectangle that may cover the pet.
#[derive(Debug, Clone, Copy, PartialEq, Eq, Structural)]
pub struct OccluderRect {
    pub x: i32,
    pub y: i32,
    pub width: u32,
    pub height: u32,
    /// Larger values are more front.
    pub z_order: i32,
}

/// Pet-relative integer rectangle `[x0, x1) x [y0, y1)`.
#[derive(Debug, Clone, Copy, PartialEq, Eq, Structural)]
pub struct LocalRect {
    pub x0: i32,
    pub y0: i32,
    pub x1: i32,
    pub y1: i32,
}

/// One occluded strip of the pet body in pet-local pixels:
/// `[x0, x1) x [y0, y1)`.
#[derive(Debug, Clone, Copy, PartialEq, Eq, Structural)]
pub struct CoverSpan {
    pub y0: i32,
    pub y1: i32,
    pub x0: i32,
    pub x1: i32,
}

/// Occlusion of a pet body in whole pixels.
#[derive(Debug, Clone, PartialEq, Eq)]
pub struct OcclusionCoverage {
    /// Pixels of the pet body covered by at least one occluder.
    pub covered_area: u64,
    /// Pixels of the pet body.
    pub pet_area: u64,
    /// Band-wise merged strips covering the occluded pixels.
    pub spans: Vec<CoverSpan>,
    /// The whole (non-empty) pet body is covered.
    pub fully_hidden: bool,
}

impl PetBodyRect {
    pub open spec fn area_value(self) -> int {
        self.width * self.height
    }

    /// Pixel area of the pet body.
    pub fn area(&self) -> (r: u64)
        ensures
            r == self.area_value(),
    {
        proof {
            vstd::arithmetic::mul::lemma_mul_upper_bound(
                self.width as int,
                u32::MAX as int,
                self.height as int,
                u32::MAX as int,
            );
        }
        (self.width as u64) * (self.height as u64)
    }

    pub fn right(&self) -> (r: i64)
        ensures
            r == self.x + self.width,
    {
        self.x as i64 + self.width as i64
    }

    pub fn bottom(&self) -> (r: i64)
        ensures
            r == self.y + self.height,
    {
        self.y as i64 + self.height as i64
    }
}

impl OccluderRect {
    pub open spec fn in_front(self) -> bool {
        self.z_order >= PET_OCCLUSION_Z_PLANE
    }

    pub fn right(&self) -> (r: i64)
        ensures
            r == self.x + self.width,
    {
        self.x as i64 + self.width as i64
    }

    pub fn bottom(&self) -> (r: i64)
        ensures
            r == self.y + self.height,
    {
        self.y as i64 + self.height as i64
    }

    /// True when this occluder is in front of (or coplanar with) the pet plane.
    pub fn is_in_front_of_pet(&self) -> (r: bool)
        ensures
            r == self.in_front(),
    {
        self.z_order >= PET_OCCLUSION_Z_PLANE
    }
}

impl LocalRect {
    pub open spec fn empty_value(self) -> bool {
        self.x1 <= self.x0 || self.y1 <= self.y0
    }

    /// The rectangle holds no pixel.
    pub fn is_empty(&self) -> (r: bool)
        ensures
            r == self.empty_value(),
    {
        self.x1 <= self.x0 || self.y1 <= self.y0
    }
}

// ----------------------------------------------------------------------------
// Model: which pixels are covered
// ----------------------------------------------------------------------------

/// The intersection of an occluder with the pet body in pet-local
/// coordinates; `None` when they do not overlap or a local coordinate does
/// not fit an `i32`.
pub open spec fn local_of(pet: PetBodyRect, occluder: OccluderRect) -> Option<LocalRect> {
    let left = max_int(pet.x as int, occluder.x as int);
    let top = max_int(pet.y as int, occluder.y as int);
    let right = min_int(pet.x + pet.width, occluder.x + occluder.width);
    let bottom = min_int(pet.y + pet.height, occluder.y + occluder.height);
    if right <= left || bottom <= top {
        None
    } else if !(fits_i32(left - pet.x) && fits_i32(top - pet.y) && fits_i32(right - pet.x)
        && fits_i32(bottom - pet.y)) {
        None
    } else {
        Some(
            LocalRect {
                x0: (left - pet.x) as i32,
                y0: (top - pet.y) as i32,
                x1: (right - pet.x) as i32,
                y1: (bottom - pet.y) as i32,
            },
        )
    }
}

/// An occluder takes part in occlusion: in front of the pet, non-empty, and
/// overlapping the pet body.
pub open spec fn contributes(pet: PetBodyRect, occluder: OccluderRect) -> bool {
    occluder.in_front() && occluder.width > 0 && occluder.height > 0 && local_of(
        pet,
        occluder,
    ) is Some
}

/// The pet-local rectangles of the contributing occluders, in input order.
pub open spec fn occluding_rects(pet: PetBodyRect, occluders: Seq<OccluderRect>) -> Seq<LocalRect>
    decreases occluders.len(),
{
    if occluders.len() == 0 {
        Seq::empty()
    } else {
        let prev = occluding_rects(pet, occluders.drop_last());
        let o = occluders.last();
        if contributes(pet, o) {
            prev.push(local_of(pet, o)->0)
        } else {
            prev
        }
    }
}

/// Pixel `(x, y)` lies in `r`.
pub open spec fn rect_has(r: LocalRect, x: int, y: int) -> bool {
    r.x0 <= x < r.x1 && r.y0 <= y < r.y1
}

/// Pixel `(x, y)` lies in at least one of `rects`.
pub open spec fn covered(rects: Seq<LocalRect>, x: int, y: int) -> bool {
    exists|i: int| 0 <= i < rects.len() && #[trigger] rect_has(rects[i], x, y)
}

/// `f(lo) + f(lo + 1) + ... + f(hi - 1)`.
pub open spec fn sum_over(f: spec_fn(int) -> int, lo: int, hi: int) -> int
    decreases hi - lo,
{
    if hi <= lo {
        0
    } else {
        sum_over(f, lo, hi - 1) + f(hi - 1)
    }
}

/// 1 for a covered pixel of row `y`, else 0.
pub open spec fn row_indicator(rects: Seq<LocalRect>, y: int) -> spec_fn(int) -> int {
    |x: int|
        if covered(rects, x, y) {
            1int
        } else {
            0int
        }
}

/// Covered pixels of row `y` with `0 <= x < width`.
pub open spec fn row_cells(rects: Seq<LocalRect>, y: int, width: int) -> int {
    sum_over(row_indicator(rects, y), 0, width)
}

/// Covered-pixel count of each row.
pub open spec fn row_counts(rects: Seq<LocalRect>, width: int) -> spec_fn(int) -> int {
    |y: int| row_cells(rects, y, width)
}

/// Covered pixels of the box `[0, width) x [0, height)`: the area of the union
/// of `rects` inside it.
pub open spec fn covered_cells(rects: Seq<LocalRect>, width: int, height: int) -> int {
    sum_over(row_counts(rects, width), 0, height)
}

/// Every rectangle is non-empty and lies in `[0, width] x [0, height]`.
pub open spec fn rects_within(rects: Seq<LocalRect>, width: int, height: int) -> bool {
    forall|i: int|
        0 <= i < rects.len() ==> {
            let r = #[trigger] rects[i];
            0 <= r.x0 < r.x1 <= width && 0 <= r.y0 < r.y1 <= height
        }
}

// ----------------------------------------------------------------------------
// Per-occluder decisions
// ----------------------------------------------------------------------------

/// The intersection of `occluder` with the pet body, in pet-local pixels.
pub fn intersect_to_local(pet: PetBodyRect, occluder: OccluderRect) -> (r: Option<LocalRect>)
    ensures
        r == local_of(pet, occluder),
{
    let left: i64 = if pet.x >= occluder.x {
        pet.x as i64
    } else {
        occluder.x as i64
    };
    let top: i64 = if pet.y >= occluder.y {
        pet.y as i64
    } else {
        occluder.y as i64
    };
    let pr = pet.right();
    let orr = occluder.right();
    let right: i64 = if pr <= orr {
        pr
    } else {
        orr
    };
    let pb = pet.bottom();
    let ob = occluder.bottom();
    let bottom: i64 = if pb <= ob {
        pb
    } else {
        ob
    };
    if right <= left || bottom <= top {
        return None;
    }
    let lx: i64 = left - pet.x as i64;
    let ly: i64 = top - pet.y as i64;
    let rx: i64 = right - pet.x as i64;
    let ry: i64 = bottom - pet.y as i64;
    let max: i64 = i32::MAX as i64;
    let min: i64 = i32::MIN as i64;
    if lx < min || lx > max || ly < min || ly > max || rx < min || rx > max || ry < min || ry
        > max {
        return None;
    }
    let local = LocalRect { x0: lx as i32, y0: ly as i32, x1: rx as i32, y1: ry as i32 };
    if local.is_empty() {
        None
    } else {
        Some(local)
    }
}

/// The pet-local rectangles of the occluders that cover part of the pet.
pub fn occluding_local_rects(pet: PetBodyRect, occluders: &[OccluderRect]) -> (r: Vec<LocalRect>)
    ensures
        r@ == occluding_rects(pet, occluders@),
        rects_within(r@, pet.width as int, pet.height as int),
{
    let mut out: Vec<LocalRect> = Vec::new();
    let mut i: usize = 0;
    while i < occluders.len()
        invariant
            0 <= i <= occluders@.len(),
            out@ == occluding_rects(pet, occluders@.take(i as int)),
            rects_within(out@, pet.width as int, pet.height as int),
        decreases occluders@.len() - i,
    {
        let o = occluders[i];
        proof {
            assert(occluders@.take(i + 1).drop_last() =~= occluders@.take(i as int));
        }
        if o.is_in_front_of_pet() && o.width != 0 && o.height != 0 {
            match intersect_to_local(pet, o) {
                Some(local) => {
                    out.push(local);
                },
                None => {},
            }
        }
        i = i + 1;
    }
    proof {
        assert(occluders@.take(occluders@.len() as int) =~= occluders@);
    }
    out
}

/// A snapshot window that may occlude the pet: visible, non-empty, not shell
/// chrome and not owned by the pet process.
pub open spec fn occluder_candidate(window: DesktopWindow, pet_owner_pid: u32) -> bool {
    !window.is_shell && !window.is_minimized && window.onscreen && window.width != 0
        && window.height != 0 && window.owner_pid != pet_owner_pid
}

/// Whether `window` may occlude a pet owned by `pet_owner_pid`.
pub fn is_occluder_candidate(window: &DesktopWindow, pet_owner_pid: u32) -> (r: bool)
    ensures
        r == occluder_candidate(*window, pet_owner_pid),
{
    if window.is_shell || window.is_minimized || !window.onscreen {
        return false;
    }
    if window.width == 0 || window.height == 0 {
        return false;
    }
    if window.owner_pid == pet_owner_pid {
        return false;
    }
    true
}

/// The occluder geometry of a window, as sampled.
pub open spec fn window_occluder(window: DesktopWindow) -> OccluderRect {
    OccluderRect {
        x: window.x,
        y: window.y,
        width: window.width,
        height: window.height,
        z_order: window.z_order,
    }
}

/// Occluders of the candidate windows, in window order.
pub open spec fn candidate_occluders(windows: Seq<DesktopWindow>, pet_owner_pid: u32) -> Seq<
    OccluderRect,
>
    decreases windows.len(),
{
    if windows.len() == 0 {
        Seq::empty()
    } else {
        let prev = candidate_occluders(windows.drop_last(), pet_owner_pid);
        if occluder_candidate(windows.last(), pet_owner_pid) {
            prev.push(window_occluder(windows.last()))
        } else {
            prev
        }
    }
}

/// `output[k] == input[idx[k]]`, `idx` is a permutation, and the order is
/// front to back: `z_order` descending, then input position ascending.
pub open spec fn z_sorted_by(input: Seq<OccluderRect>, output: Seq<OccluderRect>, idx: Seq<int>) -> bool {
    &&& idx.len() == input.len()
    &&& output.len() == input.len()
    &&& forall|k: int| 0 <= k < idx.len() ==> 0 <= #[trigger] idx[k] < input.len()
    &&& forall|k: int| 0 <= k < idx.len() ==> output[k] == input[#[trigger] idx[k]]
    &&& forall|k: int, l: int|
        0 <= k < l < idx.len() ==> z_precedes(input, #[trigger] idx[k], #[trigger] idx[l])
}

/// Occluder `a` of the input comes before occluder `b`: higher `z_order`
/// (more front), or equal and earlier.
pub open spec fn z_precedes(input: Seq<OccluderRect>, a: int, b: int) -> bool {
    input[a].z_order > input[b].z_order || (input[a].z_order == input[b].z_order && a < b)
}

/// `output` is `input` stably sorted front to back (`z_order` descending).
pub open spec fn z_sorted(input: Seq<OccluderRect>, output: Seq<OccluderRect>) -> bool {
    exists|idx: Seq<int>| #[trigger] z_sorted_by(input, output, idx)
}

/// Stable sort of occluders front to back: `z_order` descending, ties kept
/// in input order.
pub fn sort_by_z_order(input: Vec<OccluderRect>) -> (r: Vec<OccluderRect>)
    ensures
        z_sorted(input@, r@),
{
    let mut out: Vec<OccluderRect> = Vec::new();
    let ghost mut idx: Seq<int> = Seq::empty();
    let mut i: usize = 0;
    while i < input.len()
        invariant
            0 <= i <= input@.len(),
            z_sorted_by(input@.take(i as int), out@, idx),
            forall|k: int| 0 <= k < idx.len() ==> #[trigger] idx[k] < i,
        decreases input@.len() - i,
    {
        let item = input[i];
        let mut p: usize = 0;
        while p < out.len() && out[p].z_order >= item.z_order
            invariant
                0 <= p <= out@.len(),
                forall|k: int| 0 <= k < p ==> (#[trigger] out@[k]).z_order >= item.z_order,
            decreases out@.len() - p,
        {
            p = p + 1;
        }
        proof {
            let prefix = input@.take(i as int);
            let next = input@.take(i + 1);
            assert(next =~= prefix.push(input@[i as int]));
            assert forall|k: int| p <= k < out@.len() implies (#[trigger] out@[k]).z_order
                < item.z_order by {
                lemma_z_sorted_monotone(prefix, out@, idx, p as int, k);
            }
        }
        let ghost old_out = out@;
        let ghost old_idx = idx;
        out.insert(p, item);
        proof {
            let prefix = input@.take(i as int);
            let next = input@.take(i + 1);
            idx = old_idx.insert(p as int, i as int);
            assert forall|k: int| 0 <= k < idx.len() implies 0 <= #[trigger] idx[k] < next.len() by {
                if k < p {
                    assert(idx[k] == old_idx[k]);
                } else if k > p {
                    assert(idx[k] == old_idx[k - 1]);
                }
            }
            assert forall|k: int| 0 <= k < idx.len() implies out@[k] == next[#[trigger] idx[k]] by {
                if k < p {
                    assert(idx[k] == old_idx[k]);
                    assert(out@[k] == old_out[k]);
                } else if k > p {
                    assert(idx[k] == old_idx[k - 1]);
                    assert(out@[k] == old_out[k - 1]);
                }
            }
            assert forall|k: int, l: int| 0 <= k < l < idx.len() implies z_precedes(
                next,
                #[trigger] idx[k],
                #[trigger] idx[l],
            ) by {
                if k < p && l < p {
                    assert(idx[k] == old_idx[k] && idx[l] == old_idx[l]);
                    assert(z_precedes(prefix, old_idx[k], old_idx[l]));
                } else if k < p && l == p {
                    assert(idx[k] == old_idx[k]);
                    assert(out@[k] == old_out[k]);
                    assert(old_out[k] == prefix[old_idx[k]]);
                } else if k < p && l > p {
                    assert(idx[k] == old_idx[k] && idx[l] == old_idx[l - 1]);
                    assert(z_precedes(prefix, old_idx[k], old_idx[l - 1]));
                } else if k == p {
                    assert(idx[l] == old_idx[l - 1]);
                    assert(out@[l] == old_out[l - 1]);
                    assert(old_out[l - 1] == prefix[old_idx[l - 1]]);
                } else {
                    assert(idx[k] == old_idx[k - 1] && idx[l] == old_idx[l - 1]);
                    assert(z_precedes(prefix, old_idx[k - 1], old_idx[l - 1]));
                }
            }
            assert(z_sorted_by(next, out@, idx));
        }
        i = i + 1;
    }
    proof {
        assert(input@.take(input@.len() as int) =~= input@);
    }
    out
}

/// Along a front-to-back sort the keys never increase.
proof fn lemma_z_sorted_monotone(
    input: Seq<OccluderRect>,
    out: Seq<OccluderRect>,
    idx: Seq<int>,
    p: int,
    k: int,
)
    requires
        z_sorted_by(input, out, idx),
        0 <= p <= k < out.len(),
    ensures
        out[p].z_order >= out[k].z_order,
{
    if k > p {
        assert(out[k] == input[idx[k]]);
        assert(out[p] == input[idx[p]]);
    }
}

/// At most `MAX_OCCLUDERS` of `candidates`: all of them when that many or
/// fewer, else the `MAX_OCCLUDERS` front-most ones (largest `z_order`, ties
/// broken by candidate order), front to back.
pub open spec fn capped_occluders(candidates: Seq<OccluderRect>, r: Seq<OccluderRect>) -> bool {
    if candidates.len() <= MAX_OCCLUDERS {
        r == candidates
    } else {
        exists|sorted: Seq<OccluderRect>|
            #[trigger] z_sorted(candidates, sorted) && r == sorted.take(MAX_OCCLUDERS as int)
    }
}

/// Law: on a crowded desktop the cap keeps the front-most candidates. It
/// keeps `MAX_OCCLUDERS` of them, front to back, and every candidate in front
/// of the back-most kept one is kept.
pub proof fn law_cap_keeps_front_most(candidates: Seq<OccluderRect>, r: Seq<OccluderRect>)
    requires
        candidates.len() > MAX_OCCLUDERS,
        capped_occluders(candidates, r),
    ensures
        r.len() == MAX_OCCLUDERS,
        forall|i: int, j: int| 0 <= i < j < r.len() ==> r[i].z_order >= r[j].z_order,
        forall|k: int|
            0 <= k < candidates.len() && (#[trigger] candidates[k]).z_order > r[r.len() - 1].z_order
                ==> r.contains(candidates[k]),
{
    let sorted = choose|sorted: Seq<OccluderRect>|
        #[trigger] z_sorted(candidates, sorted) && r == sorted.take(MAX_OCCLUDERS as int);
    let idx = choose|idx: Seq<int>| #[trigger] z_sorted_by(candidates, sorted, idx);
    assert forall|i: int, j: int| 0 <= i < j < r.len() implies r[i].z_order >= r[j].z_order by {
        lemma_z_sorted_monotone(candidates, sorted, idx, i, j);
    }
    assert forall|k: int, l: int| 0 <= k < l < idx.len() implies #[trigger] idx[k]
        != #[trigger] idx[l] by {
        assert(z_precedes(candidates, idx[k], idx[l]));
    }
    crate::backup::lemma_index_onto(idx, candidates.len());
    assert forall|k: int|
        0 <= k < candidates.len() && (#[trigger] candidates[k]).z_order > r[r.len() - 1].z_order
            implies r.contains(candidates[k]) by {
        assert(idx.contains(k));
        let p = choose|p: int| 0 <= p < idx.len() && idx[p] == k;
        if p >= MAX_OCCLUDERS {
            lemma_z_sorted_monotone(candidates, sorted, idx, MAX_OCCLUDERS - 1, p);
        }
        assert(r[p] == candidates[k]);
    }
}

/// The occluders of a snapshot as sampled: candidates in window order, capped.
pub open spec fn snapshot_occluders_ok(
    windows: Seq<DesktopWindow>,
    pet_owner_pid: u32,
    r: Seq<OccluderRect>,
) -> bool {
    capped_occluders(candidate_occluders(windows, pet_owner_pid), r)
}

/// Keeps crowded desktops cheap: beyond `MAX_OCCLUDERS` candidates only the
/// front-most `MAX_OCCLUDERS` (largest `z_order`, stable) are kept.
pub fn cap_occluders(candidates: Vec<OccluderRect>) -> (r: Vec<OccluderRect>)
    ensures
        capped_occluders(candidates@, r@),
{
    if candidates.len() > MAX_OCCLUDERS {
        let mut sorted = sort_by_z_order(candidates);
        sorted.truncate(MAX_OCCLUDERS);
        return sorted;
    }
    candidates
}

/// Occluder rectangles for a pet owned by `pet_owner_pid`: shell, minimized,
/// offscreen, zero-size and pet-owned windows are skipped and geometry is
/// left as sampled. Crowded desktops keep the front-most `MAX_OCCLUDERS`.
pub fn occluders_from_snapshot(snapshot: &DesktopSnapshot, pet_owner_pid: u32) -> (r: Vec<
    OccluderRect,
>)
    ensures
        snapshot_occluders_ok(snapshot.windows@, pet_owner_pid, r@),
{
    let windows = &snapshot.windows;
    let mut occluders: Vec<OccluderRect> = Vec::new();
    let mut i: usize = 0;
    while i < windows.len()
        invariant
            0 <= i <= windows@.len(),
            windows == &snapshot.windows,
            occluders@ == candidate_occluders(windows@.take(i as int), pet_owner_pid),
        decreases windows@.len() - i,
    {
        let window = &windows[i];
        proof {
            assert(windows@.take(i + 1).drop_last() =~= windows@.take(i as int));
        }
        if is_occluder_candidate(window, pet_owner_pid) {
            occluders.push(
                OccluderRect {
                    x: window.x,
                    y: window.y,
                    width: window.width,
                    height: window.height,
                    z_order: window.z_order,
                },
            );
        }
        i = i + 1;
    }
    proof {
        assert(windows@.take(windows@.len() as int) =~= windows@);
    }
    cap_occluders(occluders)
}

// ----------------------------------------------------------------------------
// Sums
// ----------------------------------------------------------------------------

proof fn lemma_sum_split(f: spec_fn(int) -> int, lo: int, mid: int, hi: int)
    requires
        lo <= mid <= hi,
    ensures
        sum_over(f, lo, hi) == sum_over(f, lo, mid) + sum_over(f, mid, hi),
    decreases hi - mid,
{
    if hi > mid {
        lemma_sum_split(f, lo, mid, hi - 1);
    }
}

proof fn lemma_sum_ext(f: spec_fn(int) -> int, g: spec_fn(int) -> int, lo: int, hi: int)
    requires
        forall|x: int| lo <= x < hi ==> #[trigger] f(x) == g(x),
    ensures
        sum_over(f, lo, hi) == sum_over(g, lo, hi),
    decreases hi - lo,
{
    if hi > lo {
        lemma_sum_ext(f, g, lo, hi - 1);
    }
}

proof fn lemma_sum_const(f: spec_fn(int) -> int, lo: int, hi: int, c: int)
    requires
        lo <= hi,
        forall|x: int| lo <= x < hi ==> #[trigger] f(x) == c,
    ensures
        sum_over(f, lo, hi) == (hi - lo) * c,
    decreases hi - lo,
{
    if hi > lo {
        lemma_sum_const(f, lo, hi - 1, c);
        assert((hi - lo) * c == (hi - 1 - lo) * c + c) by (nonlinear_arith);
    } else {
        assert((hi - lo) * c == 0) by (nonlinear_arith)
            requires
                hi == lo,
        ;
    }
}

proof fn lemma_sum_bounds(f: spec_fn(int) -> int, lo: int, hi: int, c: int)
    requires
        lo <= hi,
        0 <= c,
        forall|x: int| lo <= x < hi ==> 0 <= #[trigger] f(x) <= c,
    ensures
        0 <= sum_over(f, lo, hi) <= (hi - lo) * c,
    decreases hi - lo,
{
    if hi > lo {
        lemma_sum_bounds(f, lo, hi - 1, c);
        assert((hi - lo) * c == (hi - 1 - lo) * c + c) by (nonlinear_arith);
    }
}

/// A row has at most `width` covered pixels.
proof fn lemma_row_cells_bounds(rects: Seq<LocalRect>, y: int, width: int)
    requires
        0 <= width,
    ensures
        0 <= row_cells(rects, y, width) <= width,
{
    lemma_sum_bounds(row_indicator(rects, y), 0, width, 1);
}

// ----------------------------------------------------------------------------
// Edge coordinates
// ----------------------------------------------------------------------------

pub open spec fn strictly_increasing(s: Seq<i32>) -> bool {
    forall|a: int, b: int| 0 <= a < b < s.len() ==> s[a] < s[b]
}

/// Lower edge of `r` along x (or along y when `vertical`).
pub open spec fn lo_edge(r: LocalRect, vertical: bool) -> i32 {
    if vertical {
        r.y0
    } else {
        r.x0
    }
}

/// Upper edge of `r` along x (or along y when `vertical`).
pub open spec fn hi_edge(r: LocalRect, vertical: bool) -> i32 {
    if vertical {
        r.y1
    } else {
        r.x1
    }
}

/// Both edges of every rectangle along the axis occur in `cs`.
pub open spec fn edges_in(rects: Seq<LocalRect>, cs: Seq<i32>, vertical: bool) -> bool {
    forall|k: int|
        0 <= k < rects.len() ==> cs.contains(lo_edge(#[trigger] rects[k], vertical))
            && cs.contains(hi_edge(rects[k], vertical))
}

/// `c` is an edge of one of the rectangles along the axis.
pub open spec fn is_edge(rects: Seq<LocalRect>, c: i32, vertical: bool) -> bool {
    exists|k: int|
        0 <= k < rects.len() && (lo_edge(#[trigger] rects[k], vertical) == c || hi_edge(
            rects[k],
            vertical,
        ) == c)
}

/// Every value of `cs` is an edge of one of the rectangles along the axis.
pub open spec fn only_edges(rects: Seq<LocalRect>, cs: Seq<i32>, vertical: bool) -> bool {
    forall|a: int| 0 <= a < cs.len() ==> #[trigger] is_edge(rects, cs[a], vertical)
}

/// Inserts `c` into a strictly increasing list unless it is already there.
#[verifier::spinoff_prover]
fn insert_coordinate(v: &mut Vec<i32>, c: i32)
    requires
        strictly_increasing(old(v)@),
    ensures
        strictly_increasing(final(v)@),
        forall|z: i32| final(v)@.contains(z) <==> (old(v)@.contains(z) || z == c),
{
    let mut p: usize = 0;
    while p < v.len() && v[p] < c
        invariant
            0 <= p <= v@.len(),
            forall|k: int| 0 <= k < p ==> v@[k] < c,
        decreases v@.len() - p,
    {
        p = p + 1;
    }
    if p < v.len() && v[p] == c {
        return;
    }
    let ghost before = v@;
    v.insert(p, c);
    proof {
        before.insert_ensures(p as int, c);
        let after = v@;
        assert(forall|k: int| p <= k < before.len() ==> before[k] > c);
        assert forall|a: int, b: int| 0 <= a < b < after.len() implies after[a] < after[b] by {
            if b < p {
                assert(after[a] == before[a] && after[b] == before[b]);
            } else if b == p {
                assert(after[a] == before[a]);
            } else if a < p {
                assert(after[a] == before[a] && after[b] == before[b - 1]);
            } else if a == p {
                assert(after[b] == before[b - 1]);
            } else {
                assert(after[a] == before[a - 1] && after[b] == before[b - 1]);
            }
        }
        assert forall|z: i32| after.contains(z) <==> (before.contains(z) || z == c) by {
            if after.contains(z) {
                let k = choose|k: int| 0 <= k < after.len() && after[k] == z;
                if k < p {
                    assert(before[k] == z);
                } else if k > p {
                    assert(before[k - 1] == z);
                }
            }
            if before.contains(z) {
                let k = choose|k: int| 0 <= k < before.len() && before[k] == z;
                if k < p {
                    assert(after[k] == z);
                } else {
                    assert(after[k + 1] == z);
                }
            }
            if z == c {
                assert(after[p as int] == z);
            }
        }
    }
}

/// The distinct edges of `rects` along one axis, ascending.
fn edge_coordinates(rects: &[LocalRect], vertical: bool) -> (r: Vec<i32>)
    ensures
        strictly_increasing(r@),
        edges_in(rects@, r@, vertical),
        only_edges(rects@, r@, vertical),
{
    let mut out: Vec<i32> = Vec::new();
    let mut i: usize = 0;
    while i < rects.len()
        invariant
            0 <= i <= rects@.len(),
            strictly_increasing(out@),
            edges_in(rects@.take(i as int), out@, vertical),
            only_edges(rects@.take(i as int), out@, vertical),
        decreases rects@.len() - i,
    {
        let r = rects[i];
        let (lo, hi) = if vertical {
            (r.y0, r.y1)
        } else {
            (r.x0, r.x1)
        };
        let ghost before = out@;
        insert_coordinate(&mut out, lo);
        insert_coordinate(&mut out, hi);
        proof {
            let prev = rects@.take(i as int);
            let next = rects@.take(i + 1);
            assert(next =~= prev.push(r));
            assert forall|k: int| 0 <= k < next.len() implies out@.contains(
                lo_edge(#[trigger] next[k], vertical),
            ) && out@.contains(hi_edge(next[k], vertical)) by {
                if k < prev.len() {
                    assert(next[k] == prev[k]);
                    assert(before.contains(lo_edge(prev[k], vertical)));
                    assert(before.contains(hi_edge(prev[k], vertical)));
                }
            }
            assert forall|a: int| 0 <= a < out@.len() implies #[trigger] is_edge(
                next,
                out@[a],
                vertical,
            ) by {
                let z = out@[a];
                assert(out@.contains(z));
                if z == lo || z == hi {
                    assert(next[i as int] == r);
                } else {
                    assert(before.contains(z));
                    let b = choose|b: int| 0 <= b < before.len() && before[b] == z;
                    assert(is_edge(prev, before[b], vertical));
                    let k = choose|k: int|
                        0 <= k < prev.len() && (lo_edge(#[trigger] prev[k], vertical) == z
                            || hi_edge(prev[k], vertical) == z);
                    assert(next[k] == prev[k]);
                }
            }
        }
        i = i + 1;
    }
    proof {
        assert(rects@.take(rects@.len() as int) =~= rects@);
    }
    out
}

// ----------------------------------------------------------------------------
// Between two consecutive edges nothing changes
// ----------------------------------------------------------------------------

proof fn lemma_increasing_le(cs: Seq<i32>, a: int, b: int)
    requires
        strictly_increasing(cs),
        0 <= a <= b < cs.len(),
    ensures
        cs[a] <= cs[b],
{
    if a < b {
        assert(cs[a] < cs[b]);
    }
}

/// Membership of `t` in `[lo, hi)` is the same for every `t` strictly between
/// two consecutive values of `cs`, when `lo` and `hi` occur in `cs`.
proof fn lemma_interval_constant(cs: Seq<i32>, j: int, lo: i32, hi: i32, t: int)
    requires
        strictly_increasing(cs),
        cs.contains(lo),
        cs.contains(hi),
        0 <= j < cs.len() - 1,
        cs[j] <= t < cs[j + 1],
    ensures
        (lo <= t && t < hi) == (lo <= cs[j] && cs[j] < hi),
{
    let a = choose|a: int| 0 <= a < cs.len() && cs[a] == lo;
    let b = choose|b: int| 0 <= b < cs.len() && cs[b] == hi;
    if a <= j {
        lemma_increasing_le(cs, a, j);
    } else {
        lemma_increasing_le(cs, j + 1, a);
    }
    if b <= j {
        lemma_increasing_le(cs, b, j);
    } else {
        lemma_increasing_le(cs, j + 1, b);
    }
}

/// Below the first or at or above the last value of `cs`, `t` lies in no
/// `[lo, hi)` whose ends occur in `cs`.
proof fn lemma_interval_outside(cs: Seq<i32>, lo: i32, hi: i32, t: int)
    requires
        strictly_increasing(cs),
        cs.contains(lo),
        cs.contains(hi),
        cs.len() > 0,
        t < cs[0] || t >= cs[cs.len() - 1],
    ensures
        !(lo <= t && t < hi),
{
    let a = choose|a: int| 0 <= a < cs.len() && cs[a] == lo;
    let b = choose|b: int| 0 <= b < cs.len() && cs[b] == hi;
    lemma_increasing_le(cs, 0, a);
    lemma_increasing_le(cs, b, cs.len() - 1);
}

/// Inside one column `[xs[j], xs[j + 1])` coverage does not depend on `x`.
proof fn lemma_column_covered(rects: Seq<LocalRect>, xs: Seq<i32>, j: int, x: int, y: int)
    requires
        strictly_increasing(xs),
        edges_in(rects, xs, false),
        0 <= j < xs.len() - 1,
        xs[j] <= x < xs[j + 1],
    ensures
        covered(rects, x, y) == covered(rects, xs[j] as int, y),
{
    assert forall|i: int| 0 <= i < rects.len() implies #[trigger] rect_has(rects[i], x, y)
        == rect_has(rects[i], xs[j] as int, y) by {
        let r = rects[i];
        assert(xs.contains(lo_edge(r, false)) && xs.contains(hi_edge(r, false)));
        lemma_interval_constant(xs, j, r.x0, r.x1, x);
    }
    if covered(rects, x, y) {
        let i = choose|i: int| 0 <= i < rects.len() && #[trigger] rect_has(rects[i], x, y);
        assert(rect_has(rects[i], xs[j] as int, y));
    }
    if covered(rects, xs[j] as int, y) {
        let i = choose|i: int|
            0 <= i < rects.len() && #[trigger] rect_has(rects[i], xs[j] as int, y);
        assert(rect_has(rects[i], x, y));
    }
}

/// Inside one band `[ys[k], ys[k + 1])` coverage does not depend on `y`.
proof fn lemma_band_covered(rects: Seq<LocalRect>, ys: Seq<i32>, k: int, x: int, y: int)
    requires
        strictly_increasing(ys),
        edges_in(rects, ys, true),
        0 <= k < ys.len() - 1,
        ys[k] <= y < ys[k + 1],
    ensures
        covered(rects, x, y) == covered(rects, x, ys[k] as int),
{
    assert forall|i: int| 0 <= i < rects.len() implies #[trigger] rect_has(rects[i], x, y)
        == rect_has(rects[i], x, ys[k] as int) by {
        let r = rects[i];
        assert(ys.contains(lo_edge(r, true)) && ys.contains(hi_edge(r, true)));
        lemma_interval_constant(ys, k, r.y0, r.y1, y);
    }
    if covered(rects, x, y) {
        let i = choose|i: int| 0 <= i < rects.len() && #[trigger] rect_has(rects[i], x, y);
        assert(rect_has(rects[i], x, ys[k] as int));
    }
    if covered(rects, x, ys[k] as int) {
        let i = choose|i: int|
            0 <= i < rects.len() && #[trigger] rect_has(rects[i], x, ys[k] as int);
        assert(rect_has(rects[i], x, y));
    }
}

/// Left of the first or right of the last x edge nothing is covered.
proof fn lemma_outside_columns(rects: Seq<LocalRect>, xs: Seq<i32>, x: int, y: int)
    requires
        strictly_increasing(xs),
        edges_in(rects, xs, false),
        xs.len() > 0,
        x < xs[0] || x >= xs[xs.len() - 1],
    ensures
        !covered(rects, x, y),
{
    if covered(rects, x, y) {
        let i = choose|i: int| 0 <= i < rects.len() && #[trigger] rect_has(rects[i], x, y);
        let r = rects[i];
        assert(xs.contains(lo_edge(r, false)) && xs.contains(hi_edge(r, false)));
        lemma_interval_outside(xs, r.x0, r.x1, x);
    }
}

/// Above the first or below the last y edge nothing is covered.
proof fn lemma_outside_bands(rects: Seq<LocalRect>, ys: Seq<i32>, x: int, y: int)
    requires
        strictly_increasing(ys),
        edges_in(rects, ys, true),
        ys.len() > 0,
        y < ys[0] || y >= ys[ys.len() - 1],
    ensures
        !covered(rects, x, y),
{
    if covered(rects, x, y) {
        let i = choose|i: int| 0 <= i < rects.len() && #[trigger] rect_has(rects[i], x, y);
        let r = rects[i];
        assert(ys.contains(lo_edge(r, true)) && ys.contains(hi_edge(r, true)));
        lemma_interval_outside(ys, r.y0, r.y1, y);
    }
}

// ----------------------------------------------------------------------------
// Runs of covered pixels along one row
// ----------------------------------------------------------------------------

/// `x` lies in the run `[run.0, run.1)`.
pub open spec fn run_has(run: (i32, i32), x: int) -> bool {
    run.0 <= x < run.1
}

/// Every run is non-empty and all its pixels of row `y` are covered.
pub open spec fn runs_sound(rects: Seq<LocalRect>, runs: Seq<(i32, i32)>, y: int) -> bool {
    &&& forall|a: int| 0 <= a < runs.len() ==> (#[trigger] runs[a]).0 < runs[a].1
    &&& forall|a: int, x: int|
        0 <= a < runs.len() && #[trigger] run_has(runs[a], x) ==> covered(rects, x, y)
}

/// Runs are ascending and separated by at least one uncovered pixel.
pub open spec fn runs_ordered(runs: Seq<(i32, i32)>) -> bool {
    forall|a: int, b: int| 0 <= a < b < runs.len() ==> (#[trigger] runs[a]).1 < (
    #[trigger] runs[b]).0
}

/// Every covered pixel of row `y` at or above `lo` and below `hi` is in some run.
pub open spec fn runs_complete(
    rects: Seq<LocalRect>,
    runs: Seq<(i32, i32)>,
    y: int,
    lo: int,
    hi: int,
) -> bool {
    forall|x: int|
        lo <= x < hi && #[trigger] covered(rects, x, y) ==> exists|a: int|
            0 <= a < runs.len() && #[trigger] run_has(runs[a], x)
}

/// Whether pixel `(x, y)` is covered.
fn cell_covered(rects: &[LocalRect], x: i32, y: i32) -> (r: bool)
    ensures
        r == covered(rects@, x as int, y as int),
{
    let mut i: usize = 0;
    while i < rects.len()
        invariant
            0 <= i <= rects@.len(),
            forall|k: int| 0 <= k < i ==> !#[trigger] rect_has(rects@[k], x as int, y as int),
        decreases rects@.len() - i,
    {
        let r = rects[i];
        if r.x0 <= x && x < r.x1 && r.y0 <= y && y < r.y1 {
            assert(rect_has(rects@[i as int], x as int, y as int));
            return true;
        }
        i = i + 1;
    }
    false
}

/// The maximal runs of covered pixels of row `y` and their total length.
fn band_runs(rects: &[LocalRect], xs: &Vec<i32>, y: i32) -> (r: (Vec<(i32, i32)>, u64))
    requires
        strictly_increasing(xs@),
        xs@.len() >= 1,
        edges_in(rects@, xs@, false),
    ensures
        r.1 == sum_over(row_indicator(rects@, y as int), xs@[0] as int, xs@.last() as int),
        runs_sound(rects@, r.0@, y as int),
        runs_ordered(r.0@),
        runs_complete(rects@, r.0@, y as int, xs@[0] as int, xs@.last() as int),
        forall|a: int|
            0 <= a < r.0@.len() ==> xs@[0] <= (#[trigger] r.0@[a]).0 && r.0@[a].1
                <= xs@.last(),
{
    let ghost ind = row_indicator(rects@, y as int);
    let ghost x0 = xs@[0] as int;
    let mut runs: Vec<(i32, i32)> = Vec::new();
    let mut total: u64 = 0;
    let mut open = false;
    let mut start: i32 = xs[0];
    let mut end: i32 = xs[0];
    let mut j: usize = 0;
    let last: usize = xs.len() - 1;
    while j < last
        invariant
            last == xs@.len() - 1,
            strictly_increasing(xs@),
            xs@.len() >= 1,
            edges_in(rects@, xs@, false),
            ind == row_indicator(rects@, y as int),
            x0 == xs@[0] as int,
            0 <= j < xs@.len(),
            open ==> end == xs@[j as int] && start < end && x0 <= start,
            open ==> forall|x: int| start <= x < end ==> #[trigger] covered(rects@, x, y as int),
            open ==> forall|a: int| 0 <= a < runs@.len() ==> (#[trigger] runs@[a]).1 < start,
            forall|a: int| 0 <= a < runs@.len() ==> (#[trigger] runs@[a]).1 < xs@[j as int] || (
            open && runs@[a].1 < start),
            forall|a: int| 0 <= a < runs@.len() ==> x0 <= (#[trigger] runs@[a]).0,
            runs_sound(rects@, runs@, y as int),
            runs_ordered(runs@),
            total + (if open {
                end - start
            } else {
                0
            }) == sum_over(ind, x0, xs@[j as int] as int),
            forall|x: int|
                x0 <= x < xs@[j as int] && #[trigger] covered(rects@, x, y as int) ==> (exists|a: int|
                    0 <= a < runs@.len() && #[trigger] run_has(runs@[a], x)) || (open && start <= x
                    < end),
        decreases xs@.len() - j,
    {
        let xj = xs[j];
        let xn = xs[j + 1];
        let c = cell_covered(rects, xj, y);
        proof {
            assert(xj < xn);
            lemma_increasing_le(xs@, 0, j as int);
            assert forall|x: int| xj <= x < xn implies #[trigger] ind(x) == (if c {
                1int
            } else {
                0int
            }) by {
                lemma_column_covered(rects@, xs@, j as int, x, y as int);
            }
            lemma_sum_const(ind, xj as int, xn as int, if c {
                1int
            } else {
                0int
            });
            lemma_sum_split(ind, x0, xj as int, xn as int);
            lemma_sum_bounds(ind, x0, xn as int, 1);
            lemma_sum_bounds(ind, x0, xj as int, 1);
        }
        let ghost old_runs = runs@;
        let ghost old_open = open;
        let ghost old_start = start;
        let ghost old_end = end;
        if c {
            if !open {
                open = true;
                start = xj;
            }
            end = xn;
            proof {
                assert forall|x: int| start <= x < end implies #[trigger] covered(
                    rects@,
                    x,
                    y as int,
                ) by {
                    if x >= xj {
                        lemma_column_covered(rects@, xs@, j as int, x, y as int);
                    }
                }
                assert((xn - xj) * 1int == xn - xj);
            }
        } else if open {
            runs.push((start, end));
            let len: i64 = end as i64 - start as i64;
            total = total + len as u64;
            open = false;
            proof {
                assert(runs@[runs@.len() - 1] == (old_start, old_end));
                assert forall|a: int, x: int|
                    0 <= a < runs@.len() && #[trigger] run_has(runs@[a], x) implies covered(
                    rects@,
                    x,
                    y as int,
                ) by {
                    if a < old_runs.len() {
                        assert(runs@[a] == old_runs[a]);
                    }
                }
                assert forall|a: int, b: int| 0 <= a < b < runs@.len() implies (
                #[trigger] runs@[a]).1 < (#[trigger] runs@[b]).0 by {
                    assert(runs@[a] == old_runs[a]);
                    if b < old_runs.len() {
                        assert(runs@[b] == old_runs[b]);
                    }
                }
                assert((xn - xj) * 0int == 0);
            }
        } else {
            proof {
                assert((xn - xj) * 0int == 0);
            }
        }
        proof {
            assert forall|a: int| 0 <= a < runs@.len() implies (#[trigger] runs@[a]).1 < xs@[j + 1]
                || (open && runs@[a].1 < start) by {
                if a < old_runs.len() {
                    assert(runs@[a] == old_runs[a]);
                }
            }
            assert forall|a: int| 0 <= a < runs@.len() implies x0 <= (#[trigger] runs@[a]).0 by {
                if a < old_runs.len() {
                    assert(runs@[a] == old_runs[a]);
                }
            }
            assert forall|x: int|
                x0 <= x < xs@[j + 1] && #[trigger] covered(rects@, x, y as int) implies (exists|
                a: int,
            | 0 <= a < runs@.len() && #[trigger] run_has(runs@[a], x)) || (open && start <= x
                < end) by {
                if x < xj {
                    if exists|a: int| 0 <= a < old_runs.len() && #[trigger] run_has(old_runs[a], x) {
                        let a = choose|a: int|
                            0 <= a < old_runs.len() && #[trigger] run_has(old_runs[a], x);
                        assert(runs@[a] == old_runs[a]);
                        assert(run_has(runs@[a], x));
                    } else {
                        assert(old_open && old_start <= x < old_end);
                        if !open {
                            assert(runs@[runs@.len() - 1] == (old_start, old_end));
                            assert(run_has(runs@[runs@.len() - 1], x));
                        }
                    }
                } else {
                    lemma_column_covered(rects@, xs@, j as int, x, y as int);
                }
            }
        }
        j = j + 1;
    }
    if open {
        let ghost old_runs = runs@;
        runs.push((start, end));
        proof {
            lemma_sum_bounds(ind, x0, xs@[j as int] as int, 1);
        }
        let len: i64 = end as i64 - start as i64;
        total = total + len as u64;
        proof {
            assert(runs@[runs@.len() - 1] == (start, end));
            assert forall|a: int, x: int|
                0 <= a < runs@.len() && #[trigger] run_has(runs@[a], x) implies covered(
                rects@,
                x,
                y as int,
            ) by {
                if a < old_runs.len() {
                    assert(runs@[a] == old_runs[a]);
                }
            }
            assert forall|a: int, b: int| 0 <= a < b < runs@.len() implies (
            #[trigger] runs@[a]).1 < (#[trigger] runs@[b]).0 by {
                assert(runs@[a] == old_runs[a]);
                if b < old_runs.len() {
                    assert(runs@[b] == old_runs[b]);
                }
            }
            assert forall|x: int|
                x0 <= x < xs@[j as int] && #[trigger] covered(rects@, x, y as int) implies exists|
                a: int,
            | 0 <= a < runs@.len() && #[trigger] run_has(runs@[a], x) by {
                if exists|a: int| 0 <= a < old_runs.len() && #[trigger] run_has(old_runs[a], x) {
                    let a = choose|a: int|
                        0 <= a < old_runs.len() && #[trigger] run_has(old_runs[a], x);
                    assert(runs@[a] == old_runs[a]);
                    assert(run_has(runs@[a], x));
                } else {
                    assert(run_has(runs@[runs@.len() - 1], x));
                }
            }
        }
    }
    proof {
        assert(j == xs@.len() - 1);
        assert forall|a: int| 0 <= a < runs@.len() implies xs@[0] <= (#[trigger] runs@[a]).0
            && runs@[a].1 <= xs@.last() by {
            if open {
            }
        }
    }
    (runs, total)
}

// ----------------------------------------------------------------------------
// Union of the rectangles, band by band
// ----------------------------------------------------------------------------

/// Pixel `(x, y)` lies in span `s`.
pub open spec fn span_has(s: CoverSpan, x: int, y: int) -> bool {
    s.x0 <= x < s.x1 && s.y0 <= y < s.y1
}

/// Every span is non-empty and holds covered pixels only.
pub open spec fn spans_sound(rects: Seq<LocalRect>, spans: Seq<CoverSpan>) -> bool {
    &&& forall|a: int|
        0 <= a < spans.len() ==> (#[trigger] spans[a]).x0 < spans[a].x1 && spans[a].y0
            < spans[a].y1
    &&& forall|a: int, x: int, y: int|
        0 <= a < spans.len() && #[trigger] span_has(spans[a], x, y) ==> covered(rects, x, y)
}

/// Every covered pixel lies in some span.
pub open spec fn spans_complete(rects: Seq<LocalRect>, spans: Seq<CoverSpan>) -> bool {
    forall|x: int, y: int|
        #[trigger] covered(rects, x, y) ==> exists|a: int|
            0 <= a < spans.len() && #[trigger] span_has(spans[a], x, y)
}

/// Spans come band by band from the top, and left to right within a band
/// with at least one uncovered pixel between two of them; so no two overlap.
pub open spec fn spans_ordered(spans: Seq<CoverSpan>) -> bool {
    forall|a: int, b: int|
        0 <= a < b < spans.len() ==> (#[trigger] spans[a]).y1 <= (#[trigger] spans[b]).y0 || (
        spans[a].y0 == spans[b].y0 && spans[a].y1 == spans[b].y1 && spans[a].x1 < spans[b].x0)
}

/// The rows of every span run between two consecutive horizontal edges of the
/// rectangles.
pub open spec fn spans_banded(rects: Seq<LocalRect>, spans: Seq<CoverSpan>) -> bool {
    forall|a: int|
        0 <= a < spans.len() ==> {
            let s = #[trigger] spans[a];
            &&& is_edge(rects, s.y0, true)
            &&& is_edge(rects, s.y1, true)
            &&& forall|k: int|
                0 <= k < rects.len() ==> !(s.y0 < (#[trigger] rects[k]).y0 < s.y1) && !(s.y0
                    < rects[k].y1 < s.y1)
        }
}

/// The spans are exactly the band-wise maximal runs of covered pixels.
pub open spec fn spans_exact(rects: Seq<LocalRect>, spans: Seq<CoverSpan>) -> bool {
    &&& spans_sound(rects, spans)
    &&& spans_complete(rects, spans)
    &&& spans_ordered(spans)
    &&& spans_banded(rects, spans)
}

/// Two consecutive values of the y edge list have no edge between them.
proof fn lemma_consecutive_edges(rects: Seq<LocalRect>, ys: Seq<i32>, k: int)
    requires
        strictly_increasing(ys),
        edges_in(rects, ys, true),
        only_edges(rects, ys, true),
        0 <= k < ys.len() - 1,
    ensures
        is_edge(rects, ys[k], true),
        is_edge(rects, ys[k + 1], true),
        forall|i: int|
            0 <= i < rects.len() ==> !(ys[k] < (#[trigger] rects[i]).y0 < ys[k + 1]) && !(ys[k]
                < rects[i].y1 < ys[k + 1]),
{
    assert(is_edge(rects, ys[k], true));
    assert(is_edge(rects, ys[k + 1], true));
    assert forall|i: int| 0 <= i < rects.len() implies !(ys[k] < (#[trigger] rects[i]).y0
        < ys[k + 1]) && !(ys[k] < rects[i].y1 < ys[k + 1]) by {
        let r = rects[i];
        assert(ys.contains(lo_edge(r, true)) && ys.contains(hi_edge(r, true)));
        let a = choose|a: int| 0 <= a < ys.len() && ys[a] == r.y0;
        let b = choose|b: int| 0 <= b < ys.len() && ys[b] == r.y1;
        if a <= k {
            lemma_increasing_le(ys, a, k);
        } else {
            lemma_increasing_le(ys, k + 1, a);
        }
        if b <= k {
            lemma_increasing_le(ys, b, k);
        } else {
            lemma_increasing_le(ys, k + 1, b);
        }
    }
}

/// Row `y` has no covered pixel.
proof fn lemma_row_empty(rects: Seq<LocalRect>, y: int, width: int)
    requires
        0 <= width,
        forall|x: int| !#[trigger] covered(rects, x, y),
    ensures
        row_cells(rects, y, width) == 0,
{
    let ind = row_indicator(rects, y);
    assert forall|x: int| 0 <= x < width implies #[trigger] ind(x) == 0 by {
        assert(!covered(rects, x, y));
    }
    lemma_sum_const(ind, 0, width, 0);
    assert((width - 0) * 0 == 0);
}

/// The covered pixels of row `y` all lie between the first and the last x
/// edge.
proof fn lemma_row_between_edges(rects: Seq<LocalRect>, xs: Seq<i32>, y: int, width: int)
    requires
        strictly_increasing(xs),
        edges_in(rects, xs, false),
        xs.len() > 0,
        0 <= xs[0],
        xs[xs.len() - 1] <= width,
    ensures
        row_cells(rects, y, width) == sum_over(
            row_indicator(rects, y),
            xs[0] as int,
            xs[xs.len() - 1] as int,
        ),
{
    let ind = row_indicator(rects, y);
    let lo = xs[0] as int;
    let hi = xs[xs.len() - 1] as int;
    lemma_increasing_le(xs, 0, xs.len() - 1);
    assert forall|x: int| 0 <= x < lo implies #[trigger] ind(x) == 0 by {
        lemma_outside_columns(rects, xs, x, y);
    }
    assert forall|x: int| hi <= x < width implies #[trigger] ind(x) == 0 by {
        lemma_outside_columns(rects, xs, x, y);
    }
    lemma_sum_const(ind, 0, lo, 0);
    lemma_sum_const(ind, hi, width, 0);
    assert((lo - 0) * 0 == 0);
    assert((width - hi) * 0 == 0);
    lemma_sum_split(ind, 0, lo, width);
    lemma_sum_split(ind, lo, hi, width);
}

/// Exact area of the union of `rects`, and the strips that make it up.
fn union_coverage(rects: &[LocalRect], width: u32, height: u32) -> (r: (u64, Vec<CoverSpan>))
    requires
        rects_within(rects@, width as int, height as int),
    ensures
        r.0 == covered_cells(rects@, width as int, height as int),
        spans_exact(rects@, r.1@),
{
    let ghost w = width as int;
    let ghost h = height as int;
    let ghost rowc = row_counts(rects@, w);
    if rects.len() == 0 {
        proof {
            assert forall|y: int| 0 <= y < h implies #[trigger] rowc(y) == 0 by {
                lemma_row_empty(rects@, y, w);
            }
            lemma_sum_const(rowc, 0, h, 0);
            assert((h - 0) * 0 == 0);
        }
        return (0, Vec::new());
    }
    let xs = edge_coordinates(rects, false);
    let ys = edge_coordinates(rects, true);
    proof {
        assert(xs@.contains(lo_edge(rects@[0], false)));
        assert(ys@.contains(lo_edge(rects@[0], true)));
        assert(is_edge(rects@, xs@[0], false));
        assert(is_edge(rects@, xs@[xs@.len() - 1], false));
        assert(is_edge(rects@, ys@[0], true));
        assert(is_edge(rects@, ys@[ys@.len() - 1], true));
        lemma_increasing_le(ys@, 0, ys@.len() - 1);
    }
    let ghost y_first = ys@[0] as int;
    let mut area: u64 = 0;
    let mut spans: Vec<CoverSpan> = Vec::new();
    let mut k: usize = 0;
    let last: usize = ys.len() - 1;
    while k < last
        invariant
            last == ys@.len() - 1,
            0 <= k <= last,
            rects_within(rects@, w, h),
            w == width as int,
            h == height as int,
            rowc == row_counts(rects@, w),
            strictly_increasing(xs@),
            edges_in(rects@, xs@, false),
            only_edges(rects@, xs@, false),
            xs@.len() > 0,
            0 <= xs@[0],
            xs@[xs@.len() - 1] <= w,
            strictly_increasing(ys@),
            edges_in(rects@, ys@, true),
            only_edges(rects@, ys@, true),
            y_first == ys@[0],
            0 <= y_first <= ys@[k as int] <= h,
            ys@[ys@.len() - 1] <= h,
            area == sum_over(rowc, y_first, ys@[k as int] as int),
            spans_sound(rects@, spans@),
            spans_ordered(spans@),
            spans_banded(rects@, spans@),
            forall|a: int| 0 <= a < spans@.len() ==> (#[trigger] spans@[a]).y1 <= ys@[k as int],
            forall|x: int, y: int|
                y_first <= y < ys@[k as int] && #[trigger] covered(rects@, x, y) ==> exists|a: int|
                    0 <= a < spans@.len() && #[trigger] span_has(spans@[a], x, y),
        decreases last - k,
    {
        let yk = ys[k];
        let yn = ys[k + 1];
        let (runs, total) = band_runs(rects, &xs, yk);
        let ghost band_rows = row_cells(rects@, yk as int, w);
        proof {
            assert(yk < yn);
            lemma_increasing_le(ys@, (k + 1) as int, ys@.len() - 1);
            lemma_row_between_edges(rects@, xs@, yk as int, w);
            assert(total == band_rows);
            lemma_row_cells_bounds(rects@, yk as int, w);
            assert forall|y: int| yk <= y < yn implies #[trigger] rowc(y) == band_rows by {
                let f = row_indicator(rects@, y);
                let g = row_indicator(rects@, yk as int);
                assert forall|x: int| 0 <= x < w implies #[trigger] f(x) == g(x) by {
                    lemma_band_covered(rects@, ys@, k as int, x, y);
                }
                lemma_sum_ext(f, g, 0, w);
            }
            lemma_sum_const(rowc, yk as int, yn as int, band_rows);
            lemma_sum_split(rowc, y_first, yk as int, yn as int);
            assert forall|y: int| y_first <= y < yn implies 0 <= #[trigger] rowc(y) <= w by {
                lemma_row_cells_bounds(rects@, y, w);
            }
            lemma_sum_bounds(rowc, y_first, yn as int, w);
            assert((yn - y_first) * w <= h * w) by (nonlinear_arith)
                requires
                    0 <= yn - y_first <= h,
                    0 <= w,
            ;
            assert(h * w <= 0xffff_ffff * 0xffff_ffff) by (nonlinear_arith)
                requires
                    0 <= h <= 0xffff_ffff,
                    0 <= w <= 0xffff_ffff,
            ;
            assert((yn - yk) * total <= 0xffff_ffff * 0xffff_ffff) by (nonlinear_arith)
                requires
                    0 <= yn - yk <= 0xffff_ffff,
                    0 <= total <= 0xffff_ffff,
            ;
        }
        let band_h: u64 = (yn as i64 - yk as i64) as u64;
        area = area + band_h * total;
        let ghost old_spans = spans@;
        let mut a: usize = 0;
        while a < runs.len()
            invariant
                0 <= a <= runs@.len(),
                spans@.len() == old_spans.len() + a,
                forall|b: int| 0 <= b < old_spans.len() ==> spans@[b] == old_spans[b],
                forall|b: int|
                    0 <= b < a ==> spans@[old_spans.len() + b] == (CoverSpan {
                        y0: yk,
                        y1: yn,
                        x0: runs@[b].0,
                        x1: runs@[b].1,
                    }),
            decreases runs@.len() - a,
        {
            let run = runs[a];
            spans.push(CoverSpan { y0: yk, y1: yn, x0: run.0, x1: run.1 });
            a = a + 1;
        }
        proof {
            let n = old_spans.len();
            lemma_consecutive_edges(rects@, ys@, k as int);
            assert forall|b: int| n <= b < spans@.len() implies #[trigger] spans@[b] == (CoverSpan {
                y0: yk,
                y1: yn,
                x0: runs@[b - n].0,
                x1: runs@[b - n].1,
            }) by {
                let c = b - n;
                assert(spans@[n + c] == (CoverSpan {
                    y0: yk,
                    y1: yn,
                    x0: runs@[c].0,
                    x1: runs@[c].1,
                }));
            }
            assert forall|b: int| 0 <= b < spans@.len() implies (#[trigger] spans@[b]).x0
                < spans@[b].x1 && spans@[b].y0 < spans@[b].y1 by {
                if b >= n {
                    assert(runs@[b - n].0 < runs@[b - n].1);
                    assert(yk < yn);
                } else {
                    assert(spans@[b] == old_spans[b]);
                    assert(old_spans[b].x0 < old_spans[b].x1);
                }
            }
            assert forall|b: int, x: int, y: int|
                0 <= b < spans@.len() && #[trigger] span_has(spans@[b], x, y) implies covered(
                rects@,
                x,
                y,
            ) by {
                if b >= n {
                    assert(run_has(runs@[b - n], x));
                    lemma_band_covered(rects@, ys@, k as int, x, y);
                } else {
                    assert(span_has(old_spans[b], x, y));
                }
            }
            assert forall|b: int, c: int| 0 <= b < c < spans@.len() implies (
            #[trigger] spans@[b]).y1 <= (#[trigger] spans@[c]).y0 || (spans@[b].y0
                == spans@[c].y0 && spans@[b].y1 == spans@[c].y1 && spans@[b].x1 < spans@[c].x0) by {
                if c < n {
                    assert(spans@[b] == old_spans[b] && spans@[c] == old_spans[c]);
                } else if b < n {
                    assert(spans@[b] == old_spans[b]);
                } else {
                    assert(runs@[b - n].1 < runs@[c - n].0);
                }
            }
            assert forall|b: int| 0 <= b < spans@.len() implies {
                let s = #[trigger] spans@[b];
                &&& is_edge(rects@, s.y0, true)
                &&& is_edge(rects@, s.y1, true)
                &&& forall|i: int|
                    0 <= i < rects@.len() ==> !(s.y0 < (#[trigger] rects@[i]).y0 < s.y1) && !(s.y0
                        < rects@[i].y1 < s.y1)
            } by {
                if b < n {
                    assert(spans@[b] == old_spans[b]);
                }
            }
            assert forall|b: int| 0 <= b < spans@.len() implies (#[trigger] spans@[b]).y1
                <= ys@[k + 1] by {
                if b < n {
                    assert(spans@[b] == old_spans[b]);
                    assert(ys@[k as int] < ys@[k + 1]);
                }
            }
            assert forall|x: int, y: int|
                y_first <= y < ys@[k + 1] && #[trigger] covered(rects@, x, y) implies exists|b: int|
                0 <= b < spans@.len() && #[trigger] span_has(spans@[b], x, y) by {
                if y < yk {
                    let b = choose|b: int|
                        0 <= b < old_spans.len() && #[trigger] span_has(old_spans[b], x, y);
                    assert(spans@[b] == old_spans[b]);
                    assert(span_has(spans@[b], x, y));
                } else {
                    lemma_band_covered(rects@, ys@, k as int, x, y);
                    if x < xs@[0] || x >= xs@[xs@.len() - 1] {
                        lemma_outside_columns(rects@, xs@, x, yk as int);
                    }
                    let b = choose|b: int| 0 <= b < runs@.len() && #[trigger] run_has(runs@[b], x);
                    assert(spans@[n + b] == (CoverSpan {
                        y0: yk,
                        y1: yn,
                        x0: runs@[b].0,
                        x1: runs@[b].1,
                    }));
                    assert(span_has(spans@[n + b], x, y));
                }
            }
        }
        k = k + 1;
    }
    proof {
        let y_last = ys@[ys@.len() - 1] as int;
        assert forall|y: int| 0 <= y < y_first implies #[trigger] rowc(y) == 0 by {
            assert forall|x: int| !#[trigger] covered(rects@, x, y) by {
                lemma_outside_bands(rects@, ys@, x, y);
            }
            lemma_row_empty(rects@, y, w);
        }
        assert forall|y: int| y_last <= y < h implies #[trigger] rowc(y) == 0 by {
            assert forall|x: int| !#[trigger] covered(rects@, x, y) by {
                lemma_outside_bands(rects@, ys@, x, y);
            }
            lemma_row_empty(rects@, y, w);
        }
        lemma_sum_const(rowc, 0, y_first, 0);
        lemma_sum_const(rowc, y_last, h, 0);
        assert((y_first - 0) * 0 == 0);
        assert((h - y_last) * 0 == 0);
        lemma_sum_split(rowc, 0, y_first, h);
        lemma_sum_split(rowc, y_first, y_last, h);
        assert forall|x: int, y: int| #[trigger] covered(rects@, x, y) implies exists|a: int|
            0 <= a < spans@.len() && #[trigger] span_has(spans@[a], x, y) by {
            if y < y_first || y >= y_last {
                lemma_outside_bands(rects@, ys@, x, y);
            }
        }
    }
    (area, spans)
}

/// The union never exceeds the box it lies in.
proof fn lemma_covered_cells_bounds(rects: Seq<LocalRect>, width: int, height: int)
    requires
        0 <= width,
        0 <= height,
    ensures
        0 <= covered_cells(rects, width, height) <= height * width,
{
    let rowc = row_counts(rects, width);
    assert forall|y: int| 0 <= y < height implies 0 <= #[trigger] rowc(y) <= width by {
        lemma_row_cells_bounds(rects, y, width);
    }
    lemma_sum_bounds(rowc, 0, height, width);
}

/// How the occluders cover the pet body, in whole pixels.
///
/// Only occluders in front of the pet plane, non-empty and overlapping the
/// body contribute. The covered area is the exact area of the union of their
/// intersections with the body; the spans are that union cut into band-wise
/// maximal strips.
pub fn occlusion_coverage(pet: PetBodyRect, occluders: &[OccluderRect]) -> (r: OcclusionCoverage)
    ensures
        r.pet_area == pet.area_value(),
        r.covered_area == covered_cells(
            occluding_rects(pet, occluders@),
            pet.width as int,
            pet.height as int,
        ),
        r.covered_area <= r.pet_area,
        spans_exact(occluding_rects(pet, occluders@), r.spans@),
        r.fully_hidden == (r.pet_area > 0 && r.covered_area == r.pet_area),
{
    let pet_area = pet.area();
    let rects = occluding_local_rects(pet, occluders);
    proof {
        lemma_covered_cells_bounds(rects@, pet.width as int, pet.height as int);
        assert(pet.height * pet.width == pet.width * pet.height) by (nonlinear_arith);
    }
    let (covered_area, spans) = union_coverage(rects.as_slice(), pet.width, pet.height);
    let fully_hidden = pet_area > 0 && covered_area >= pet_area;
    OcclusionCoverage { covered_area, pet_area, spans, fully_hidden }
}

// ----------------------------------------------------------------------------
// Laws
// ----------------------------------------------------------------------------

/// Only contributing occluders leave a rectangle, each its own intersection.
proof fn lemma_occluding_rects_member(pet: PetBodyRect, occluders: Seq<OccluderRect>, k: int)
    requires
        0 <= k < occluders.len(),
        contributes(pet, occluders[k]),
    ensures
        occluding_rects(pet, occluders).contains(local_of(pet, occluders[k])->0),
    decreases occluders.len(),
{
    let prev = occluders.drop_last();
    if k < occluders.len() - 1 {
        assert(prev[k] == occluders[k]);
        lemma_occluding_rects_member(pet, prev, k);
        let rs = occluding_rects(pet, prev);
        let i = choose|i: int| 0 <= i < rs.len() && rs[i] == local_of(pet, occluders[k])->0;
        let all = occluding_rects(pet, occluders);
        if contributes(pet, occluders.last()) {
            assert(all[i] == rs[i]);
        }
        assert(all[i] == rs[i]);
    } else {
        let all = occluding_rects(pet, occluders);
        assert(all[all.len() - 1] == local_of(pet, occluders[k])->0);
    }
}

/// Without a contributing occluder there is nothing to cover with.
proof fn lemma_occluding_rects_empty(pet: PetBodyRect, occluders: Seq<OccluderRect>)
    requires
        forall|k: int| 0 <= k < occluders.len() ==> !(#[trigger] occluders[k]).in_front(),
    ensures
        occluding_rects(pet, occluders) == Seq::<LocalRect>::empty(),
    decreases occluders.len(),
{
    if occluders.len() > 0 {
        let prev = occluders.drop_last();
        assert forall|k: int| 0 <= k < prev.len() implies !(#[trigger] prev[k]).in_front() by {
            assert(prev[k] == occluders[k]);
        }
        lemma_occluding_rects_empty(pet, prev);
        assert(!occluders[occluders.len() - 1].in_front());
    }
}

/// Law: windows behind the pet plane never occlude it.
pub proof fn law_behind_plane_never_occludes(pet: PetBodyRect, occluders: Seq<OccluderRect>)
    requires
        forall|k: int| 0 <= k < occluders.len() ==> (#[trigger] occluders[k]).z_order
            < PET_OCCLUSION_Z_PLANE,
    ensures
        covered_cells(occluding_rects(pet, occluders), pet.width as int, pet.height as int) == 0,
{
    lemma_occluding_rects_empty(pet, occluders);
    let rects = occluding_rects(pet, occluders);
    let rowc = row_counts(rects, pet.width as int);
    assert forall|y: int| 0 <= y < pet.height implies #[trigger] rowc(y) == 0 by {
        lemma_row_empty(rects, y, pet.width as int);
    }
    lemma_sum_const(rowc, 0, pet.height as int, 0);
    assert((pet.height - 0) * 0 == 0);
}

/// Law: an occluder in front of the pet that contains the whole body covers
/// every pixel of it, so the pet is fully hidden.
pub proof fn law_covering_occluder_hides_pet(
    pet: PetBodyRect,
    occluders: Seq<OccluderRect>,
    k: int,
)
    requires
        0 <= k < occluders.len(),
        occluders[k].in_front(),
        0 < pet.width <= i32::MAX,
        0 < pet.height <= i32::MAX,
        occluders[k].x <= pet.x,
        occluders[k].y <= pet.y,
        occluders[k].x + occluders[k].width >= pet.x + pet.width,
        occluders[k].y + occluders[k].height >= pet.y + pet.height,
    ensures
        covered_cells(occluding_rects(pet, occluders), pet.width as int, pet.height as int)
            == pet.area_value(),
{
    let o = occluders[k];
    let whole = LocalRect { x0: 0, y0: 0, x1: pet.width as i32, y1: pet.height as i32 };
    assert(local_of(pet, o) == Some(whole));
    lemma_occluding_rects_member(pet, occluders, k);
    let rects = occluding_rects(pet, occluders);
    let i = choose|i: int| 0 <= i < rects.len() && rects[i] == whole;
    let w = pet.width as int;
    let h = pet.height as int;
    let rowc = row_counts(rects, w);
    assert forall|y: int| 0 <= y < h implies #[trigger] rowc(y) == w by {
        let ind = row_indicator(rects, y);
        assert forall|x: int| 0 <= x < w implies #[trigger] ind(x) == 1 by {
            assert(rect_has(rects[i], x, y));
        }
        lemma_sum_const(ind, 0, w, 1);
    }
    lemma_sum_const(rowc, 0, h, w);
    assert((h - 0) * w == w * h) by (nonlinear_arith);
}

} // verus!
