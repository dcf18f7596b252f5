//! Obstacle avoidance for desktop pet wander targets.
//!
//! All geometry is integral. Coordinates of a rectangle's right and bottom
//! edges are computed in `i64`, where they never overflow.
use vstd::prelude::*;

verus! {

/// Windows smaller than this area (in square pixels) never block the pet.
pub const LARGE_OBSTACLE_AREA: u64 = 20_000;

/// Number of equal steps used when sampling the straight path to a target.
pub const PATH_SAMPLES: u32 = 8;

/// Integer size of the pet window.
#[derive(Debug, Clone, Copy, PartialEq, Eq, Structural)]
pub struct Size {
    pub width: u32,
    pub height: u32,
}

/// Axis-aligned rectangle in physical coordinates.
#[derive(Debug, Clone, Copy, PartialEq, Eq, Structural)]
pub struct Rect {
    pub x: i32,
    pub y: i32,
    pub width: u32,
    pub height: u32,
}

/// Inputs for obstacle-aware target adjustment.
#[derive(Debug, Clone, Copy, PartialEq, Eq, Structural)]
pub struct AvoidRequest {
    pub current_x: i32,
    pub current_y: i32,
    pub target_x: i32,
    pub target_y: i32,
    pub pet: Size,
    pub work_area: Rect,
    pub sequence: u64,
}

// ----------------------------------------------------------------------------
// Mathematical model
// ----------------------------------------------------------------------------

/// `v` is representable as an `i32`.
pub open spec fn fits_i32(v: int) -> bool {
    i32::MIN <= v <= i32::MAX
}

/// `v` as an `i32`, or `fallback` when it does not fit.
pub open spec fn i32_or(v: int, fallback: i32) -> i32 {
    if fits_i32(v) {
        v as i32
    } else {
        fallback
    }
}

/// `v` clamped into `[lo, hi]` (for `lo <= hi`).
pub open spec fn clamp_int(v: int, lo: int, hi: int) -> int {
    if v < lo {
        lo
    } else if v > hi {
        hi
    } else {
        v
    }
}

pub open spec fn max_int(a: int, b: int) -> int {
    if a >= b {
        a
    } else {
        b
    }
}

pub open spec fn min_int(a: int, b: int) -> int {
    if a <= b {
        a
    } else {
        b
    }
}

pub open spec fn abs_int(a: int) -> int {
    if a < 0 {
        -a
    } else {
        a
    }
}

impl Rect {
    /// Exclusive right edge.
    pub open spec fn right_edge(self) -> int {
        self.x + self.width
    }

    /// Exclusive bottom edge.
    pub open spec fn bottom_edge(self) -> int {
        self.y + self.height
    }

    /// Area in square pixels.
    pub open spec fn area_value(self) -> int {
        self.width * self.height
    }

    /// Windows at least [`LARGE_OBSTACLE_AREA`] in size.
    pub open spec fn is_large(self) -> bool {
        self.area_value() >= LARGE_OBSTACLE_AREA
    }
}

/// Two rectangles share an area of positive size.
pub open spec fn overlaps(a: Rect, b: Rect) -> bool {
    &&& max_int(a.x as int, b.x as int) < min_int(a.right_edge(), b.right_edge())
    &&& max_int(a.y as int, b.y as int) < min_int(a.bottom_edge(), b.bottom_edge())
}

/// The pet's rectangle when its top-left corner stands at the given origin.
pub open spec fn pet_rect(origin_x: i32, origin_y: i32, pet: Size) -> Rect {
    Rect { x: origin_x, y: origin_y, width: pet.width, height: pet.height }
}

/// Safe origin range `(min_x, min_y, max_x, max_y)` inside a work area: 16 px
/// horizontal margins, 24 px at the top and 48 px at the bottom. The maxima
/// never fall below the minima.
pub open spec fn origin_bounds(work_area: Rect, pet: Size) -> (int, int, int, int) {
    let min_x = work_area.x + 16;
    let min_y = work_area.y + 24;
    let max_x = max_int(work_area.x + work_area.width - pet.width - 16, min_x);
    let max_y = max_int(work_area.y + work_area.height - pet.height - 48, min_y);
    (min_x, min_y, max_x, max_y)
}

/// Origin clamped into the safe range, keeping a coordinate unchanged when the
/// clamped value does not fit an `i32`.
pub open spec fn clamped_origin(origin_x: i32, origin_y: i32, pet: Size, work_area: Rect) -> (
    i32,
    i32,
) {
    let b = origin_bounds(work_area, pet);
    (
        i32_or(clamp_int(origin_x as int, b.0, b.2), origin_x),
        i32_or(clamp_int(origin_y as int, b.1, b.3), origin_y),
    )
}

/// `(x, y)` lies inside the safe origin range.
pub open spec fn within_origin_bounds(x: int, y: int, pet: Size, work_area: Rect) -> bool {
    let b = origin_bounds(work_area, pet);
    b.0 <= x <= b.2 && b.1 <= y <= b.3
}

/// The whole safe origin range is representable in `i32`.
pub open spec fn bounds_fit_i32(pet: Size, work_area: Rect) -> bool {
    let b = origin_bounds(work_area, pet);
    fits_i32(b.0) && fits_i32(b.1) && fits_i32(b.2) && fits_i32(b.3)
}

/// Deterministic free wander step: 140 px horizontally (right on even
/// sequences) and 32 px vertically (down when `sequence / 2` is even),
/// clamped into the safe range.
pub open spec fn free_wander(
    current_x: i32,
    current_y: i32,
    pet: Size,
    work_area: Rect,
    sequence: u64,
) -> (i32, i32) {
    let b = origin_bounds(work_area, pet);
    let dx: int = if sequence % 2 == 0 {
        140
    } else {
        -140
    };
    let dy: int = if (sequence / 2) % 2 == 0 {
        32
    } else {
        -32
    };
    (
        i32_or(clamp_int(current_x + dx, b.0, b.2), current_x),
        i32_or(clamp_int(current_y + dy, b.1, b.3), current_y),
    )
}

/// Some large obstacle overlaps the pet placed at the origin.
pub open spec fn blocked(origin_x: i32, origin_y: i32, pet: Size, obstacles: Seq<Rect>) -> bool {
    exists|i: int|
        0 <= i < obstacles.len() && #[trigger] obstacles[i].is_large() && overlaps(
            obstacles[i],
            pet_rect(origin_x, origin_y, pet),
        )
}

/// `n / 8`, rounded to the nearest integer with halves away from zero.
pub open spec fn div8_round(n: int) -> int {
    if n >= 0 {
        (n + 4) / 8
    } else {
        -((-n + 4) / 8)
    }
}

/// Point number `step` (of `0..=8`) on the segment from `from` to `to`, rounded
/// to the nearest integer, halves away from zero.
pub open spec fn path_sample(from: int, to: int, step: int) -> int {
    div8_round(8 * from + (to - from) * step)
}

/// One of the nine evenly spaced samples of the straight path is blocked.
pub open spec fn path_blocked_at(
    from_x: i32,
    from_y: i32,
    to_x: i32,
    to_y: i32,
    pet: Size,
    obstacles: Seq<Rect>,
) -> bool {
    exists|step: int|
        0 <= step <= PATH_SAMPLES && #[trigger] blocked(
            path_sample(from_x as int, to_x as int, step) as i32,
            path_sample(from_y as int, to_y as int, step) as i32,
            pet,
            obstacles,
        )
}

/// Midpoint of two integers, rounded towards zero.
pub open spec fn midpoint_int(a: int, b: int) -> int {
    let s = a + b;
    if s >= 0 {
        s / 2
    } else {
        -((-s) / 2)
    }
}

/// The eight perch points around an obstacle before clamping: left, right,
/// above and below the middle of each side, then the four corners; each keeps
/// an 8 px gap from the obstacle.
pub open spec fn raw_perches(obstacle: Rect, pet: Size) -> Seq<(int, int)> {
    let left = obstacle.x - pet.width - 8;
    let right = obstacle.right_edge() + 8;
    let top = obstacle.y - pet.height - 8;
    let bottom = obstacle.bottom_edge() + 8;
    let center_x = midpoint_int(obstacle.x as int, obstacle.right_edge() - pet.width);
    let center_y = midpoint_int(obstacle.y as int, obstacle.bottom_edge() - pet.height);
    seq![
        (left, center_y),
        (right, center_y),
        (center_x, top),
        (center_x, bottom),
        (left, top),
        (right, top),
        (left, bottom),
        (right, bottom),
    ]
}

/// A raw perch clamped into the safe origin range.
pub open spec fn clamped_perch(p: (int, int), pet: Size, work_area: Rect) -> (int, int) {
    let b = origin_bounds(work_area, pet);
    (clamp_int(p.0, b.0, b.2), clamp_int(p.1, b.1, b.3))
}

/// The first `n` clamped perches, keeping those that fit `i32`, in order.
pub open spec fn perch_prefix(obstacle: Rect, pet: Size, work_area: Rect, n: nat) -> Seq<
    (i32, i32),
>
    decreases n,
{
    if n == 0 {
        seq![]
    } else {
        let previous = perch_prefix(obstacle, pet, work_area, (n - 1) as nat);
        let p = clamped_perch(raw_perches(obstacle, pet)[n - 1], pet, work_area);
        if fits_i32(p.0) && fits_i32(p.1) {
            previous.push((p.0 as i32, p.1 as i32))
        } else {
            previous
        }
    }
}

/// Candidate perch origins around an obstacle, in preference order.
pub open spec fn perches(obstacle: Rect, pet: Size, work_area: Rect) -> Seq<(i32, i32)> {
    perch_prefix(obstacle, pet, work_area, 8)
}

/// A perch is usable when the pet fits there and can walk there unblocked.
pub open spec fn perch_usable(request: AvoidRequest, obstacles: Seq<Rect>, p: (i32, i32)) -> bool {
    &&& !blocked(p.0, p.1, request.pet, obstacles)
    &&& !path_blocked_at(
        request.current_x,
        request.current_y,
        p.0,
        p.1,
        request.pet,
        obstacles,
    )
}

/// Manhattan distance from the current origin.
pub open spec fn walk_distance(request: AvoidRequest, p: (i32, i32)) -> int {
    abs_int(p.0 - request.current_x) + abs_int(p.1 - request.current_y)
}

/// Among the first `n` candidates, the first usable one of least distance.
pub open spec fn nearest_usable(
    request: AvoidRequest,
    obstacles: Seq<Rect>,
    candidates: Seq<(i32, i32)>,
    n: nat,
) -> Option<(i32, i32)>
    decreases n,
{
    if n == 0 {
        None
    } else {
        let previous = nearest_usable(request, obstacles, candidates, (n - 1) as nat);
        let p = candidates[n - 1];
        if perch_usable(request, obstacles, p) && (previous is None || walk_distance(request, p)
            < walk_distance(request, previous->0)) {
            Some(p)
        } else {
            previous
        }
    }
}

/// The nearest usable perch around one obstacle.
pub open spec fn obstacle_perch(request: AvoidRequest, obstacles: Seq<Rect>, obstacle: Rect) -> Option<
    (i32, i32),
> {
    let candidates = perches(obstacle, request.pet, request.work_area);
    nearest_usable(request, obstacles, candidates, candidates.len())
}

/// Obstacle `k` is the one whose perch is taken: it is large, offers a usable
/// perch, and no other such obstacle is larger or equally large and earlier.
pub open spec fn preferred_obstacle(request: AvoidRequest, obstacles: Seq<Rect>, k: int) -> bool {
    &&& 0 <= k < obstacles.len()
    &&& obstacles[k].is_large()
    &&& obstacle_perch(request, obstacles, obstacles[k]) is Some
    &&& forall|j: int|
        0 <= j < obstacles.len() && #[trigger] obstacles[j].is_large() && obstacle_perch(
            request,
            obstacles,
            obstacles[j],
        ) is Some ==> obstacles[j].area_value() < obstacles[k].area_value() || (
        obstacles[j].area_value() == obstacles[k].area_value() && k <= j)
}

/// The perch chosen around the largest (earliest on ties) large obstacle that
/// offers one, if any.
pub open spec fn chosen_perch(request: AvoidRequest, obstacles: Seq<Rect>) -> Option<(i32, i32)> {
    if exists|k: int| preferred_obstacle(request, obstacles, k) {
        let k = choose|k: int| preferred_obstacle(request, obstacles, k);
        obstacle_perch(request, obstacles, obstacles[k])
    } else {
        None
    }
}

/// Slides toward the nearer work-area edge: on even sequences the pet keeps the
/// target column and moves to the nearer of the top/bottom bounds, otherwise it
/// keeps the target row and moves to the nearer of the left/right bounds.
pub open spec fn edge_slide(request: AvoidRequest) -> (i32, i32) {
    let b = origin_bounds(request.work_area, request.pet);
    if request.sequence % 2 == 0 {
        let edge_y = if request.current_y - b.1 <= b.3 - request.current_y {
            b.1
        } else {
            b.3
        };
        (
            i32_or(clamp_int(request.target_x as int, b.0, b.2), request.target_x),
            i32_or(edge_y, request.current_y),
        )
    } else {
        let edge_x = if request.current_x - b.0 <= b.2 - request.current_x {
            b.0
        } else {
            b.2
        };
        (
            i32_or(edge_x, request.current_x),
            i32_or(clamp_int(request.target_y as int, b.1, b.3), request.target_y),
        )
    }
}

/// Some obstacle is large.
pub open spec fn has_large(obstacles: Seq<Rect>) -> bool {
    exists|i: int| 0 <= i < obstacles.len() && #[trigger] obstacles[i].is_large()
}

/// Obstacle-aware adjustment of a wander target.
///
/// The target is first clamped into the safe range. It is kept when no large
/// obstacle exists, or when neither the target nor the straight path to it is
/// blocked. Otherwise the chosen perch is taken; without a perch, the edge
/// slide is taken when unblocked, and the clamped current origin otherwise.
pub open spec fn avoided_target(request: AvoidRequest, obstacles: Seq<Rect>) -> (i32, i32) {
    let t = clamped_origin(request.target_x, request.target_y, request.pet, request.work_area);
    if !has_large(obstacles) {
        t
    } else if !blocked(t.0, t.1, request.pet, obstacles) && !path_blocked_at(
        request.current_x,
        request.current_y,
        t.0,
        t.1,
        request.pet,
        obstacles,
    ) {
        t
    } else {
        match chosen_perch(request, obstacles) {
            Some(p) => p,
            None => {
                let slid = edge_slide(AvoidRequest { target_x: t.0, target_y: t.1, ..request });
                if !blocked(slid.0, slid.1, request.pet, obstacles) {
                    slid
                } else {
                    clamped_origin(
                        request.current_x,
                        request.current_y,
                        request.pet,
                        request.work_area,
                    )
                }
            },
        }
    }
}

// ----------------------------------------------------------------------------
// Executable code
// ----------------------------------------------------------------------------

fn clamp_i64(v: i64, lo: i64, hi: i64) -> (r: i64)
    requires
        lo <= hi,
    ensures
        r == clamp_int(v as int, lo as int, hi as int),
{
    if v < lo {
        lo
    } else if v > hi {
        hi
    } else {
        v
    }
}

fn i64_to_i32_or(v: i64, fallback: i32) -> (r: i32)
    ensures
        r == i32_or(v as int, fallback),
{
    if v >= i32::MIN as i64 && v <= i32::MAX as i64 {
        v as i32
    } else {
        fallback
    }
}

fn abs_i64(v: i64) -> (r: i64)
    requires
        v > i64::MIN,
    ensures
        r == abs_int(v as int),
{
    if v < 0 {
        -v
    } else {
        v
    }
}

impl Rect {
    /// Exclusive right edge as `i64`.
    pub fn right(&self) -> (r: i64)
        ensures
            r == self.right_edge(),
    {
        self.x as i64 + self.width as i64
    }

    /// Exclusive bottom edge as `i64`.
    pub fn bottom(&self) -> (r: i64)
        ensures
            r == self.bottom_edge(),
    {
        self.y as i64 + self.height as i64
    }

    /// The pet placed at the origin overlaps this rectangle.
    pub fn contains_origin(&self, origin_x: i32, origin_y: i32, pet: Size) -> (r: bool)
        ensures
            r == overlaps(*self, pet_rect(origin_x, origin_y, pet)),
    {
        let body = Rect { x: origin_x, y: origin_y, width: pet.width, height: pet.height };
        rects_overlap(self, &body)
    }

    /// Area in square pixels.
    pub fn area(&self) -> (r: u64)
        ensures
            r == self.area_value(),
    {
        proof {
            let w = self.width as int;
            let h = self.height as int;
            assert(0 <= w * h <= u32::MAX * u32::MAX) by (nonlinear_arith)
                requires
                    0 <= w <= u32::MAX,
                    0 <= h <= u32::MAX,
            ;
        }
        self.width as u64 * self.height as u64
    }
}

/// Returns true when two axis-aligned rects have positive area overlap.
pub fn rects_overlap(a: &Rect, b: &Rect) -> (r: bool)
    ensures
        r == overlaps(*a, *b),
{
    let left = if a.x >= b.x {
        a.x as i64
    } else {
        b.x as i64
    };
    let top = if a.y >= b.y {
        a.y as i64
    } else {
        b.y as i64
    };
    let ar = a.right();
    let br = b.right();
    let right = if ar <= br {
        ar
    } else {
        br
    };
    let ab = a.bottom();
    let bb = b.bottom();
    let bottom = if ab <= bb {
        ab
    } else {
        bb
    };
    right > left && bottom > top
}

/// Safe pet origin bounds inside a work area (top-left of pet).
pub fn safe_origin_bounds(work_area: Rect, pet: Size) -> (r: (i64, i64, i64, i64))
    ensures
        r.0 == origin_bounds(work_area, pet).0,
        r.1 == origin_bounds(work_area, pet).1,
        r.2 == origin_bounds(work_area, pet).2,
        r.3 == origin_bounds(work_area, pet).3,
        r.0 <= r.2,
        r.1 <= r.3,
{
    let minimum_x = work_area.x as i64 + 16;
    let minimum_y = work_area.y as i64 + 24;
    let far_x = work_area.x as i64 + work_area.width as i64 - pet.width as i64 - 16;
    let far_y = work_area.y as i64 + work_area.height as i64 - pet.height as i64 - 48;
    let maximum_x = if far_x >= minimum_x {
        far_x
    } else {
        minimum_x
    };
    let maximum_y = if far_y >= minimum_y {
        far_y
    } else {
        minimum_y
    };
    (minimum_x, minimum_y, maximum_x, maximum_y)
}

/// Clamps a pet origin into the safe work-area range.
pub fn clamp_pet_origin(origin_x: i32, origin_y: i32, pet: Size, work_area: Rect) -> (r: (
    i32,
    i32,
))
    ensures
        r == clamped_origin(origin_x, origin_y, pet, work_area),
        bounds_fit_i32(pet, work_area) ==> within_origin_bounds(r.0 as int, r.1 as int, pet, work_area),
{
    let (min_x, min_y, max_x, max_y) = safe_origin_bounds(work_area, pet);
    let x = clamp_i64(origin_x as i64, min_x, max_x);
    let y = clamp_i64(origin_y as i64, min_y, max_y);
    (i64_to_i32_or(x, origin_x), i64_to_i32_or(y, origin_y))
}

/// Deterministic free wander step inside the work area (no obstacles).
pub fn free_wander_target(
    current_x: i32,
    current_y: i32,
    pet: Size,
    work_area: Rect,
    sequence: u64,
) -> (r: (i32, i32))
    ensures
        r == free_wander(current_x, current_y, pet, work_area, sequence),
        bounds_fit_i32(pet, work_area) ==> within_origin_bounds(r.0 as int, r.1 as int, pet, work_area),
{
    let (min_x, min_y, max_x, max_y) = safe_origin_bounds(work_area, pet);
    let dx: i64 = if sequence % 2 == 0 {
        140
    } else {
        -140
    };
    let dy: i64 = if (sequence / 2) % 2 == 0 {
        32
    } else {
        -32
    };
    let x = clamp_i64(current_x as i64 + dx, min_x, max_x);
    let y = clamp_i64(current_y as i64 + dy, min_y, max_y);
    (i64_to_i32_or(x, current_x), i64_to_i32_or(y, current_y))
}

fn pet_rect_at(origin_x: i32, origin_y: i32, pet: Size) -> (r: Rect)
    ensures
        r == pet_rect(origin_x, origin_y, pet),
{
    Rect { x: origin_x, y: origin_y, width: pet.width, height: pet.height }
}

fn is_large_obstacle(obstacle: &Rect) -> (r: bool)
    ensures
        r == obstacle.is_large(),
{
    obstacle.area() >= LARGE_OBSTACLE_AREA
}

pub fn blocked_by_any(origin_x: i32, origin_y: i32, pet: Size, obstacles: &[Rect]) -> (r: bool)
    ensures
        r == blocked(origin_x, origin_y, pet, obstacles@),
{
    let body = pet_rect_at(origin_x, origin_y, pet);
    let mut i: usize = 0;
    while i < obstacles.len()
        invariant
            0 <= i <= obstacles@.len(),
            body == pet_rect(origin_x, origin_y, pet),
            forall|j: int|
                0 <= j < i ==> !(#[trigger] obstacles@[j].is_large() && overlaps(
                    obstacles@[j],
                    body,
                )),
        decreases obstacles@.len() - i,
    {
        if is_large_obstacle(&obstacles[i]) && rects_overlap(&obstacles[i], &body) {
            return true;
        }
        i = i + 1;
    }
    false
}

proof fn lemma_div8_round_between(from: int, to: int, step: int)
    requires
        0 <= step <= 8,
    ensures
        min_int(from, to) <= path_sample(from, to, step) <= max_int(from, to),
{
    let n = 8 * from + (to - from) * step;
    let lo = min_int(from, to);
    let hi = max_int(from, to);
    assert(8 * lo <= n <= 8 * hi) by (nonlinear_arith)
        requires
            0 <= step <= 8,
            n == 8 * from + (to - from) * step,
            lo == min_int(from, to),
            hi == max_int(from, to),
    ;
    if n >= 0 {
        assert(lo <= (n + 4) / 8 <= hi) by (nonlinear_arith)
            requires
                8 * lo <= n <= 8 * hi,
                n >= 0,
        ;
    } else {
        assert(lo <= -((-n + 4) / 8) <= hi) by (nonlinear_arith)
            requires
                8 * lo <= n <= 8 * hi,
                n < 0,
        ;
    }
}

/// Sample number `step` on the path from `from` to `to`, computed exactly.
fn sample_coordinate(from: i32, to: i32, step: u32) -> (r: i32)
    requires
        step <= PATH_SAMPLES,
    ensures
        r == path_sample(from as int, to as int, step as int),
{
    proof {
        lemma_div8_round_between(from as int, to as int, step as int);
        let d = to as int - from as int;
        let s = step as int;
        assert(-0x2_0000_0000 * 8 <= d * s <= 0x2_0000_0000 * 8) by (nonlinear_arith)
            requires
                -0x2_0000_0000 <= d <= 0x2_0000_0000,
                0 <= s <= 8,
        ;
    }
    let n: i64 = 8 * (from as i64) + (to as i64 - from as i64) * (step as i64);
    let rounded: i64 = if n >= 0 {
        (n + 4) / 8
    } else {
        -((-n + 4) / 8)
    };
    rounded as i32
}

/// Segment from current pet origin to target origin intersects a large obstacle.
fn path_blocked(
    current_x: i32,
    current_y: i32,
    target_x: i32,
    target_y: i32,
    pet: Size,
    obstacles: &[Rect],
) -> (r: bool)
    ensures
        r == path_blocked_at(current_x, current_y, target_x, target_y, pet, obstacles@),
{
    let mut step: u32 = 0;
    while step <= PATH_SAMPLES
        invariant
            step <= PATH_SAMPLES + 1,
            forall|s: int|
                0 <= s < step ==> !#[trigger] blocked(
                    path_sample(current_x as int, target_x as int, s) as i32,
                    path_sample(current_y as int, target_y as int, s) as i32,
                    pet,
                    obstacles@,
                ),
        decreases PATH_SAMPLES + 1 - step,
    {
        let x = sample_coordinate(current_x, target_x, step);
        let y = sample_coordinate(current_y, target_y, step);
        if blocked_by_any(x, y, pet, obstacles) {
            assert(blocked(
                path_sample(current_x as int, target_x as int, step as int) as i32,
                path_sample(current_y as int, target_y as int, step as int) as i32,
                pet,
                obstacles@,
            ));
            return true;
        }
        step = step + 1;
    }
    false
}

fn midpoint_i64(a: i64, b: i64) -> (r: i64)
    requires
        -0x100_0000_0000 <= a <= 0x100_0000_0000,
        -0x100_0000_0000 <= b <= 0x100_0000_0000,
    ensures
        r == midpoint_int(a as int, b as int),
{
    let s = a + b;
    if s >= 0 {
        s / 2
    } else {
        -((-s) / 2)
    }
}

fn candidate_perches(obstacle: &Rect, pet: Size, work_area: Rect) -> (r: Vec<(i32, i32)>)
    ensures
        r@ == perches(*obstacle, pet, work_area),
{
    let (min_x, min_y, max_x, max_y) = safe_origin_bounds(work_area, pet);
    let gap: i64 = 8;
    let left = obstacle.x as i64 - pet.width as i64 - gap;
    let right = obstacle.right() + gap;
    let top = obstacle.y as i64 - pet.height as i64 - gap;
    let bottom = obstacle.bottom() + gap;
    let center_x = midpoint_i64(obstacle.x as i64, obstacle.right() - pet.width as i64);
    let center_y = midpoint_i64(obstacle.y as i64, obstacle.bottom() - pet.height as i64);
    let raw: Vec<(i64, i64)> = vec![
        (left, center_y),
        (right, center_y),
        (center_x, top),
        (center_x, bottom),
        (left, top),
        (right, top),
        (left, bottom),
        (right, bottom),
    ];
    assert(raw@ =~= raw_perches(*obstacle, pet).map_values(|p: (int, int)| (p.0 as i64, p.1 as i64)));
    let mut out: Vec<(i32, i32)> = Vec::new();
    let mut i: usize = 0;
    while i < 8
        invariant
            0 <= i <= 8,
            raw@.len() == 8,
            min_x == origin_bounds(work_area, pet).0,
            min_y == origin_bounds(work_area, pet).1,
            max_x == origin_bounds(work_area, pet).2,
            max_y == origin_bounds(work_area, pet).3,
            min_x <= max_x,
            min_y <= max_y,
            forall|j: int|
                0 <= j < 8 ==> (#[trigger] raw@[j]).0 == raw_perches(*obstacle, pet)[j].0
                    && raw@[j].1 == raw_perches(*obstacle, pet)[j].1,
            out@ == perch_prefix(*obstacle, pet, work_area, i as nat),
        decreases 8 - i,
    {
        let (px, py) = raw[i];
        let x = clamp_i64(px, min_x, max_x);
        let y = clamp_i64(py, min_y, max_y);
        if x >= i32::MIN as i64 && x <= i32::MAX as i64 && y >= i32::MIN as i64 && y
            <= i32::MAX as i64 {
            out.push((x as i32, y as i32));
        }
        i = i + 1;
    }
    out
}

fn edge_slide_target(request: AvoidRequest) -> (r: (i32, i32))
    ensures
        r == edge_slide(request),
{
    let (min_x, min_y, max_x, max_y) = safe_origin_bounds(request.work_area, request.pet);
    if request.sequence % 2 == 0 {
        let edge_y = if request.current_y as i64 - min_y <= max_y - request.current_y as i64 {
            min_y
        } else {
            max_y
        };
        let x = clamp_i64(request.target_x as i64, min_x, max_x);
        (i64_to_i32_or(x, request.target_x), i64_to_i32_or(edge_y, request.current_y))
    } else {
        let edge_x = if request.current_x as i64 - min_x <= max_x - request.current_x as i64 {
            min_x
        } else {
            max_x
        };
        let y = clamp_i64(request.target_y as i64, min_y, max_y);
        (i64_to_i32_or(edge_x, request.current_x), i64_to_i32_or(y, request.target_y))
    }
}

fn walk_distance_of(request: &AvoidRequest, p: (i32, i32)) -> (r: i64)
    ensures
        r == walk_distance(*request, p),
{
    abs_i64(p.0 as i64 - request.current_x as i64) + abs_i64(p.1 as i64 - request.current_y as i64)
}

/// The nearest usable perch around one obstacle.
fn nearest_perch(request: &AvoidRequest, obstacles: &[Rect], obstacle: &Rect) -> (r: Option<
    (i32, i32),
>)
    ensures
        r == obstacle_perch(*request, obstacles@, *obstacle),
{
    let candidates = candidate_perches(obstacle, request.pet, request.work_area);
    let mut best: Option<(i32, i32)> = None;
    let mut best_distance: i64 = 0;
    let mut i: usize = 0;
    while i < candidates.len()
        invariant
            0 <= i <= candidates@.len(),
            candidates@ == perches(*obstacle, request.pet, request.work_area),
            best == nearest_usable(*request, obstacles@, candidates@, i as nat),
            best is Some ==> best_distance == walk_distance(*request, best->0),
        decreases candidates@.len() - i,
    {
        let p = candidates[i];
        let usable = !blocked_by_any(p.0, p.1, request.pet, obstacles) && !path_blocked(
            request.current_x,
            request.current_y,
            p.0,
            p.1,
            request.pet,
            obstacles,
        );
        if usable {
            let distance = walk_distance_of(request, p);
            if best.is_none() || distance < best_distance {
                best = Some(p);
                best_distance = distance;
            }
        }
        i = i + 1;
    }
    best
}

/// Index of the preferred obstacle and its perch, when some large obstacle
/// offers a usable perch.
fn choose_perch(request: &AvoidRequest, obstacles: &[Rect]) -> (r: Option<(i32, i32)>)
    ensures
        r == chosen_perch(*request, obstacles@),
{
    let mut chosen: Option<(usize, (i32, i32))> = None;
    let mut chosen_area: u64 = 0;
    let mut i: usize = 0;
    while i < obstacles.len()
        invariant
            0 <= i <= obstacles@.len(),
            match chosen {
                Some((k, p)) => {
                    &&& 0 <= k < i
                    &&& obstacles@[k as int].is_large()
                    &&& obstacle_perch(*request, obstacles@, obstacles@[k as int]) == Some(p)
                    &&& chosen_area == obstacles@[k as int].area_value()
                    &&& forall|j: int|
                        0 <= j < i && #[trigger] obstacles@[j].is_large() && obstacle_perch(
                            *request,
                            obstacles@,
                            obstacles@[j],
                        ) is Some ==> obstacles@[j].area_value() < obstacles@[k as int].area_value()
                            || (obstacles@[j].area_value() == obstacles@[k as int].area_value()
                            && k <= j)
                },
                None => forall|j: int|
                    0 <= j < i && #[trigger] obstacles@[j].is_large() ==> obstacle_perch(
                        *request,
                        obstacles@,
                        obstacles@[j],
                    ) is None,
            },
        decreases obstacles@.len() - i,
    {
        let obstacle = &obstacles[i];
        if is_large_obstacle(obstacle) {
            let area = obstacle.area();
            if chosen.is_none() || area > chosen_area {
                let found = nearest_perch(request, obstacles, obstacle);
                if let Some(p) = found {
                    chosen = Some((i, p));
                    chosen_area = area;
                }
            }
        }
        i = i + 1;
    }
    proof {
        match chosen {
            Some((k, p)) => {
                assert(preferred_obstacle(*request, obstacles@, k as int));
                let c = choose|c: int| preferred_obstacle(*request, obstacles@, c);
                assert(c == k as int);
            },
            None => {
                assert(!exists|k: int| preferred_obstacle(*request, obstacles@, k));
            },
        }
    }
    match chosen {
        Some((_, p)) => Some(p),
        None => None,
    }
}

fn any_large(obstacles: &[Rect]) -> (r: bool)
    ensures
        r == has_large(obstacles@),
{
    let mut i: usize = 0;
    while i < obstacles.len()
        invariant
            0 <= i <= obstacles@.len(),
            forall|j: int| 0 <= j < i ==> !#[trigger] obstacles@[j].is_large(),
        decreases obstacles@.len() - i,
    {
        if is_large_obstacle(&obstacles[i]) {
            return true;
        }
        i = i + 1;
    }
    false
}

/// Adjusts a desired target so the pet avoids overlapping large onscreen windows.
///
/// Fail-closed: without large obstacles the clamped target is kept. When the
/// direct path or the target is blocked, the nearest free perch around the
/// largest window that offers one is taken; otherwise the pet slides along the
/// work-area boundary, or stays at its clamped current origin.
pub fn avoid_obstacles(request: AvoidRequest, obstacles: &[Rect]) -> (r: (i32, i32))
    ensures
        r == avoided_target(request, obstacles@),
        !has_large(obstacles@) ==> r == clamped_origin(
            request.target_x,
            request.target_y,
            request.pet,
            request.work_area,
        ),
        bounds_fit_i32(request.pet, request.work_area) ==> within_origin_bounds(
            r.0 as int,
            r.1 as int,
            request.pet,
            request.work_area,
        ),
        r != clamped_origin(request.current_x, request.current_y, request.pet, request.work_area)
            ==> !blocked(r.0, r.1, request.pet, obstacles@) || r == clamped_origin(
            request.target_x,
            request.target_y,
            request.pet,
            request.work_area,
        ),
{
    let (target_x, target_y) = clamp_pet_origin(
        request.target_x,
        request.target_y,
        request.pet,
        request.work_area,
    );
    if obstacles.len() == 0 || !any_large(obstacles) {
        return (target_x, target_y);
    }
    let target_clear = !blocked_by_any(target_x, target_y, request.pet, obstacles);
    let route_clear = !path_blocked(
        request.current_x,
        request.current_y,
        target_x,
        target_y,
        request.pet,
        obstacles,
    );
    if target_clear && route_clear {
        return (target_x, target_y);
    }
    let chosen = choose_perch(&request, obstacles);
    proof {
        lemma_chosen_perch_in_bounds(request, obstacles@);
    }
    if let Some(p) = chosen {
        return p;
    }
    let slid = edge_slide_target(AvoidRequest { target_x, target_y, ..request });
    proof {
        lemma_edge_slide_in_bounds(AvoidRequest { target_x, target_y, ..request });
    }
    if !blocked_by_any(slid.0, slid.1, request.pet, obstacles) {
        return slid;
    }
    clamp_pet_origin(request.current_x, request.current_y, request.pet, request.work_area)
}

proof fn lemma_perch_prefix_in_bounds(obstacle: Rect, pet: Size, work_area: Rect, n: nat)
    requires
        n <= 8,
    ensures
        forall|j: int|
            0 <= j < perch_prefix(obstacle, pet, work_area, n).len() ==> within_origin_bounds(
                (#[trigger] perch_prefix(obstacle, pet, work_area, n)[j]).0 as int,
                perch_prefix(obstacle, pet, work_area, n)[j].1 as int,
                pet,
                work_area,
            ),
    decreases n,
{
    if n > 0 {
        lemma_perch_prefix_in_bounds(obstacle, pet, work_area, (n - 1) as nat);
        let previous = perch_prefix(obstacle, pet, work_area, (n - 1) as nat);
        let p = clamped_perch(raw_perches(obstacle, pet)[n - 1], pet, work_area);
        let b = origin_bounds(work_area, pet);
        assert(b.0 <= p.0 <= b.2 && b.1 <= p.1 <= b.3);
        if fits_i32(p.0) && fits_i32(p.1) {
            let cur = previous.push((p.0 as i32, p.1 as i32));
            assert(cur == perch_prefix(obstacle, pet, work_area, n));
            assert forall|j: int| 0 <= j < cur.len() implies within_origin_bounds(
                (#[trigger] cur[j]).0 as int,
                cur[j].1 as int,
                pet,
                work_area,
            ) by {
                if j < previous.len() {
                    assert(cur[j] == previous[j]);
                }
            }
        }
    }
}

proof fn lemma_nearest_usable_member(
    request: AvoidRequest,
    obstacles: Seq<Rect>,
    candidates: Seq<(i32, i32)>,
    n: nat,
)
    requires
        n <= candidates.len(),
    ensures
        nearest_usable(request, obstacles, candidates, n) is Some ==> exists|j: int|
            0 <= j < n && candidates[j] == nearest_usable(request, obstacles, candidates, n)->0,
    decreases n,
{
    if n > 0 {
        lemma_nearest_usable_member(request, obstacles, candidates, (n - 1) as nat);
        let r = nearest_usable(request, obstacles, candidates, n);
        if r is Some && r->0 == candidates[n - 1] {
            assert(candidates[n - 1] == r->0);
        }
    }
}

proof fn lemma_nearest_usable_is_usable(
    request: AvoidRequest,
    obstacles: Seq<Rect>,
    candidates: Seq<(i32, i32)>,
    n: nat,
)
    requires
        n <= candidates.len(),
    ensures
        nearest_usable(request, obstacles, candidates, n) is Some ==> perch_usable(
            request,
            obstacles,
            nearest_usable(request, obstacles, candidates, n)->0,
        ),
    decreases n,
{
    if n > 0 {
        lemma_nearest_usable_is_usable(request, obstacles, candidates, (n - 1) as nat);
    }
}

proof fn lemma_chosen_perch_in_bounds(request: AvoidRequest, obstacles: Seq<Rect>)
    ensures
        chosen_perch(request, obstacles) is Some ==> {
            let p = chosen_perch(request, obstacles)->0;
            &&& within_origin_bounds(p.0 as int, p.1 as int, request.pet, request.work_area)
            &&& !blocked(p.0, p.1, request.pet, obstacles)
        },
{
    if chosen_perch(request, obstacles) is Some {
        let k = choose|k: int| preferred_obstacle(request, obstacles, k);
        let candidates = perches(obstacles[k], request.pet, request.work_area);
        lemma_perch_prefix_in_bounds(obstacles[k], request.pet, request.work_area, 8);
        lemma_nearest_usable_member(request, obstacles, candidates, candidates.len());
        lemma_nearest_usable_is_usable(request, obstacles, candidates, candidates.len());
    }
}

proof fn lemma_edge_slide_in_bounds(request: AvoidRequest)
    ensures
        bounds_fit_i32(request.pet, request.work_area) ==> within_origin_bounds(
            edge_slide(request).0 as int,
            edge_slide(request).1 as int,
            request.pet,
            request.work_area,
        ),
{
}

} // verus!
