//! Multi-monitor display helpers for host integration.
//!
//! Integral geometry over [`DesktopDisplay`] / [`WorkArea`]; no OS calls.
use crate::obstacles::{fits_i32, max_int, min_int};
use crate::snapshot::{DesktopDisplay, WorkArea};
use vstd::prelude::*;

verus! {

/// An integer point lies inside the display's full bounds.
pub open spec fn display_has_point(display: DesktopDisplay, x: int, y: int) -> bool {
    display.x <= x < display.x + display.width && display.y <= y < display.y + display.height
}

/// An integer point lies inside a non-empty work area.
pub open spec fn area_has_point(area: WorkArea, x: int, y: int) -> bool {
    area.width > 0 && area.height > 0 && area.x <= x < area.right_edge() && area.y <= y
        < area.bottom_edge()
}

/// Full-bounds area of a display.
pub open spec fn display_area(display: DesktopDisplay) -> int {
    display.width * display.height
}

/// Display `i` contains the point and is the smallest such display, the
/// earliest among equally small ones.
pub open spec fn is_containing_display(displays: Seq<DesktopDisplay>, x: int, y: int, i: int) -> bool {
    &&& 0 <= i < displays.len()
    &&& display_has_point(displays[i], x, y)
    &&& forall|j: int|
        0 <= j < displays.len() && #[trigger] display_has_point(displays[j], x, y) ==> display_area(
            displays[i],
        ) < display_area(displays[j]) || (display_area(displays[i]) == display_area(displays[j])
            && i <= j)
}

/// Index of the display containing the point, if any.
pub open spec fn containing_display(displays: Seq<DesktopDisplay>, x: int, y: int) -> Option<int> {
    if exists|i: int| is_containing_display(displays, x, y, i) {
        Some(choose|i: int| is_containing_display(displays, x, y, i))
    } else {
        None
    }
}

/// Returns the primary display when present (first entry; adapters put primary first).
pub fn primary_display(displays: &[DesktopDisplay]) -> (r: Option<&DesktopDisplay>)
    ensures
        displays@.len() == 0 ==> r is None,
        displays@.len() > 0 ==> r == Some(&displays@[0]),
{
    if displays.len() == 0 {
        None
    } else {
        Some(&displays[0])
    }
}

/// Work areas from every known display, in adapter order.
pub fn work_areas(displays: &[DesktopDisplay]) -> (r: Vec<WorkArea>)
    ensures
        r@ == displays@.map_values(|d: DesktopDisplay| d.work_area),
{
    let mut out: Vec<WorkArea> = Vec::new();
    let mut i: usize = 0;
    while i < displays.len()
        invariant
            0 <= i <= displays@.len(),
            out@ == displays@.take(i as int).map_values(|d: DesktopDisplay| d.work_area),
        decreases displays@.len() - i,
    {
        out.push(displays[i].work_area);
        proof {
            assert(displays@.take(i + 1).map_values(|d: DesktopDisplay| d.work_area) =~= displays@.take(
                i as int,
            ).map_values(|d: DesktopDisplay| d.work_area).push(displays@[i as int].work_area));
        }
        i = i + 1;
    }
    proof {
        assert(displays@.take(displays@.len() as int) =~= displays@);
    }
    out
}

/// True when the integer point lies inside the display's full bounds.
pub fn display_contains_origin(display: &DesktopDisplay, x: i32, y: i32) -> (r: bool)
    ensures
        r == display_has_point(*display, x as int, y as int),
{
    let right = display.x as i64 + display.width as i64;
    let bottom = display.y as i64 + display.height as i64;
    x as i64 >= display.x as i64 && (x as i64) < right && y as i64 >= display.y as i64 && (y as i64)
        < bottom
}

/// True when the integer point lies inside a non-empty work area.
pub fn work_area_contains_origin(area: WorkArea, x: i32, y: i32) -> (r: bool)
    ensures
        r == area_has_point(area, x as int, y as int),
{
    if area.width == 0 || area.height == 0 {
        return false;
    }
    x as i64 >= area.x as i64 && (x as i64) < area.right() && y as i64 >= area.y as i64 && (y as i64)
        < area.bottom()
}

fn display_area_of(display: &DesktopDisplay) -> (r: u64)
    ensures
        r == display_area(*display),
{
    proof {
        let w = display.width as int;
        let h = display.height as int;
        assert(0 <= w * h <= u32::MAX * u32::MAX) by (nonlinear_arith)
            requires
                0 <= w <= u32::MAX,
                0 <= h <= u32::MAX,
        ;
    }
    display.width as u64 * display.height as u64
}

/// Index of the smallest display (earliest on ties) whose full bounds contain
/// the integer point.
pub fn display_index_containing_origin(displays: &[DesktopDisplay], x: i32, y: i32) -> (r: Option<
    usize,
>)
    ensures
        match r {
            Some(i) => containing_display(displays@, x as int, y as int) == Some(i as int),
            None => containing_display(displays@, x as int, y as int) is None,
        },
{
    let mut best: Option<usize> = None;
    let mut best_area: u64 = 0;
    let mut i: usize = 0;
    while i < displays.len()
        invariant
            0 <= i <= displays@.len(),
            match best {
                Some(k) => {
                    &&& k < i
                    &&& display_has_point(displays@[k as int], x as int, y as int)
                    &&& best_area == display_area(displays@[k as int])
                    &&& forall|j: int|
                        0 <= j < i && #[trigger] display_has_point(displays@[j], x as int, y as int)
                            ==> display_area(displays@[k as int]) < display_area(displays@[j]) || (
                        display_area(displays@[k as int]) == display_area(displays@[j]) && k <= j)
                },
                None => forall|j: int|
                    0 <= j < i ==> !#[trigger] display_has_point(displays@[j], x as int, y as int),
            },
        decreases displays@.len() - i,
    {
        if display_contains_origin(&displays[i], x, y) {
            let area = display_area_of(&displays[i]);
            if best.is_none() || area < best_area {
                best = Some(i);
                best_area = area;
            }
        }
        i = i + 1;
    }
    proof {
        match best {
            Some(k) => {
                assert(is_containing_display(displays@, x as int, y as int, k as int));
                let c = choose|c: int| is_containing_display(displays@, x as int, y as int, c);
                assert(c == k as int);
            },
            None => {
                assert(!exists|c: int| is_containing_display(displays@, x as int, y as int, c));
            },
        }
    }
    best
}

/// Display whose full bounds contain integer origin `(x, y)`, preferring the
/// smallest area on ties.
pub fn display_containing_origin(displays: &[DesktopDisplay], x: i32, y: i32) -> (r: Option<
    &DesktopDisplay,
>)
    ensures
        match containing_display(displays@, x as int, y as int) {
            Some(i) => r == Some(&displays@[i]),
            None => r is None,
        },
{
    match display_index_containing_origin(displays, x, y) {
        Some(i) => Some(&displays[i]),
        None => None,
    }
}

/// Work area of the display containing the origin, else the primary work area.
pub fn work_area_for_origin(displays: &[DesktopDisplay], x: i32, y: i32) -> (r: Option<WorkArea>)
    ensures
        match containing_display(displays@, x as int, y as int) {
            Some(i) => r == Some(displays@[i].work_area),
            None => if displays@.len() > 0 {
                r == Some(displays@[0].work_area)
            } else {
                r is None
            },
        },
{
    match display_index_containing_origin(displays, x, y) {
        Some(i) => Some(displays[i].work_area),
        None => if displays.len() > 0 {
            Some(displays[0].work_area)
        } else {
            None
        },
    }
}

/// Bounding box `(left, top, right, bottom)` of the non-empty areas among the
/// first `n`, if any.
pub open spec fn bbox_prefix(areas: Seq<WorkArea>, n: nat) -> Option<(int, int, int, int)>
    decreases n,
{
    if n == 0 {
        None
    } else {
        let previous = bbox_prefix(areas, (n - 1) as nat);
        let a = areas[n - 1];
        if a.width > 0 && a.height > 0 {
            match previous {
                None => Some((a.x as int, a.y as int, a.right_edge(), a.bottom_edge())),
                Some(b) => Some(
                    (
                        min_int(b.0, a.x as int),
                        min_int(b.1, a.y as int),
                        max_int(b.2, a.right_edge()),
                        max_int(b.3, a.bottom_edge()),
                    ),
                ),
            }
        } else {
            previous
        }
    }
}

/// The union box as a [`WorkArea`], when one exists and its size fits `u32`.
pub open spec fn union_area(areas: Seq<WorkArea>) -> Option<WorkArea> {
    match bbox_prefix(areas, areas.len()) {
        None => None,
        Some(b) => if b.2 - b.0 <= u32::MAX && b.3 - b.1 <= u32::MAX {
            Some(
                WorkArea {
                    x: b.0 as i32,
                    y: b.1 as i32,
                    width: (b.2 - b.0) as u32,
                    height: (b.3 - b.1) as u32,
                },
            )
        } else {
            None
        },
    }
}

proof fn lemma_bbox_shape(areas: Seq<WorkArea>, n: nat)
    requires
        n <= areas.len(),
    ensures
        bbox_prefix(areas, n) matches Some(b) ==> fits_i32(b.0) && fits_i32(b.1) && b.0 < b.2
            && b.1 < b.3 && b.2 <= i32::MAX + u32::MAX && b.3 <= i32::MAX + u32::MAX,
    decreases n,
{
    if n > 0 {
        lemma_bbox_shape(areas, (n - 1) as nat);
    }
}

fn union_of_areas(areas: &Vec<WorkArea>) -> (r: Option<WorkArea>)
    ensures
        r == union_area(areas@),
{
    let mut found = false;
    let mut left: i64 = 0;
    let mut top: i64 = 0;
    let mut right: i64 = 0;
    let mut bottom: i64 = 0;
    let mut i: usize = 0;
    while i < areas.len()
        invariant
            0 <= i <= areas@.len(),
            match bbox_prefix(areas@, i as nat) {
                None => !found,
                Some(b) => found && left == b.0 && top == b.1 && right == b.2 && bottom == b.3,
            },
        decreases areas@.len() - i,
    {
        proof {
            lemma_bbox_shape(areas@, i as nat);
        }
        let a = areas[i];
        if a.width > 0 && a.height > 0 {
            let a_left = a.x as i64;
            let a_top = a.y as i64;
            let a_right = a.right();
            let a_bottom = a.bottom();
            if !found {
                left = a_left;
                top = a_top;
                right = a_right;
                bottom = a_bottom;
                found = true;
            } else {
                if a_left < left {
                    left = a_left;
                }
                if a_top < top {
                    top = a_top;
                }
                if a_right > right {
                    right = a_right;
                }
                if a_bottom > bottom {
                    bottom = a_bottom;
                }
            }
        }
        i = i + 1;
    }
    proof {
        lemma_bbox_shape(areas@, areas@.len());
    }
    if !found {
        return None;
    }
    let width = right - left;
    let height = bottom - top;
    if width > u32::MAX as i64 || height > u32::MAX as i64 {
        return None;
    }
    Some(WorkArea { x: left as i32, y: top as i32, width: width as u32, height: height as u32 })
}

/// Full bounds of every display.
pub open spec fn display_bounds_seq(displays: Seq<DesktopDisplay>) -> Seq<WorkArea> {
    displays.map_values(|d: DesktopDisplay| d.bounds_value())
}

/// Axis-aligned union of full display bounds, or `None` when empty / invalid.
pub fn union_display_bounds(displays: &[DesktopDisplay]) -> (r: Option<WorkArea>)
    ensures
        r == union_area(display_bounds_seq(displays@)),
{
    let mut bounds: Vec<WorkArea> = Vec::new();
    let mut i: usize = 0;
    while i < displays.len()
        invariant
            0 <= i <= displays@.len(),
            bounds@ == display_bounds_seq(displays@.take(i as int)),
        decreases displays@.len() - i,
    {
        bounds.push(displays[i].bounds());
        proof {
            assert(display_bounds_seq(displays@.take(i + 1)) =~= display_bounds_seq(
                displays@.take(i as int),
            ).push(displays@[i as int].bounds_value()));
        }
        i = i + 1;
    }
    proof {
        assert(displays@.take(displays@.len() as int) =~= displays@);
    }
    union_of_areas(&bounds)
}

/// Union of all work areas (not full bounds), when valid.
pub fn union_work_areas(displays: &[DesktopDisplay]) -> (r: Option<WorkArea>)
    ensures
        r == union_area(displays@.map_values(|d: DesktopDisplay| d.work_area)),
{
    let areas = work_areas(displays);
    union_of_areas(&areas)
}

/// `window` covers `target` up to `tolerance` pixels on every side.
pub open spec fn covers(window: WorkArea, target: WorkArea, tolerance: int) -> bool {
    &&& target.width > 0 && target.height > 0
    &&& window.x <= target.x + tolerance
    &&& window.y <= target.y + tolerance
    &&& window.right_edge() >= target.right_edge() - tolerance
    &&& window.bottom_edge() >= target.bottom_edge() - tolerance
}

fn rect_covers(window: WorkArea, target: WorkArea, tolerance: i32) -> (r: bool)
    ensures
        r == covers(window, target, tolerance as int),
{
    if target.width == 0 || target.height == 0 {
        return false;
    }
    let tol = tolerance as i64;
    window.x as i64 <= target.x as i64 + tol && window.y as i64 <= target.y as i64 + tol
        && window.right() >= target.right() - tol && window.bottom() >= target.bottom() - tol
}

/// Whether `window` covers some display's work area or full bounds within
/// `tolerance` pixels (negative tolerances count as zero).
pub fn is_fullscreen_over_any_display(
    window: WorkArea,
    displays: &[DesktopDisplay],
    tolerance: i32,
) -> (r: bool)
    ensures
        r == exists|i: int|
            0 <= i < displays@.len() && (covers(
                window,
                #[trigger] displays@[i].work_area,
                max_int(tolerance as int, 0),
            ) || covers(window, displays@[i].bounds_value(), max_int(tolerance as int, 0))),
{
    let tol = if tolerance > 0 {
        tolerance
    } else {
        0
    };
    let mut i: usize = 0;
    while i < displays.len()
        invariant
            0 <= i <= displays@.len(),
            tol == max_int(tolerance as int, 0),
            forall|j: int|
                0 <= j < i ==> !(covers(window, #[trigger] displays@[j].work_area, tol as int)
                    || covers(window, displays@[j].bounds_value(), tol as int)),
        decreases displays@.len() - i,
    {
        let on_work_area = rect_covers(window, displays[i].work_area, tol);
        let on_bounds = rect_covers(window, displays[i].bounds(), tol);
        assert(on_work_area == covers(window, displays@[i as int].work_area, tol as int));
        assert(on_bounds == covers(window, displays@[i as int].bounds_value(), tol as int));
        if on_work_area || on_bounds {
            return true;
        }
        assert forall|j: int| 0 <= j < i + 1 implies !(covers(
            window,
            #[trigger] displays@[j].work_area,
            tol as int,
        ) || covers(window, displays@[j].bounds_value(), tol as int)) by {
            if j == i as int {
                assert(!on_work_area && !on_bounds);
            }
        }
        i = i + 1;
    }
    false
}

/// Work-area stage rects for every display (non-empty ones, in order).
pub fn work_area_stages(displays: &[DesktopDisplay]) -> (r: Vec<WorkArea>)
    ensures
        r@ == displays@.map_values(|d: DesktopDisplay| d.work_area).filter(
            |a: WorkArea| a.width > 0 && a.height > 0,
        ),
{
    let areas = work_areas(displays);
    let mut out: Vec<WorkArea> = Vec::new();
    let mut i: usize = 0;
    while i < areas.len()
        invariant
            0 <= i <= areas@.len(),
            out@ == areas@.take(i as int).filter(|a: WorkArea| a.width > 0 && a.height > 0),
        decreases areas@.len() - i,
    {
        proof {
            reveal_with_fuel(Seq::filter, 1);
            assert(areas@.take(i + 1).drop_last() =~= areas@.take(i as int));
        }
        if areas[i].width > 0 && areas[i].height > 0 {
            out.push(areas[i]);
        }
        i = i + 1;
    }
    proof {
        assert(areas@.take(areas@.len() as int) =~= areas@);
    }
    out
}

/// Index of the first display whose work area contains the point.
pub open spec fn first_area_with_point(displays: Seq<DesktopDisplay>, x: int, y: int) -> Option<
    int,
> {
    if exists|i: int|
        0 <= i < displays.len() && area_has_point(displays[i].work_area, x, y) && forall|j: int|
            0 <= j < i ==> !area_has_point(#[trigger] displays[j].work_area, x, y) {
        Some(
            choose|i: int|
                0 <= i < displays.len() && area_has_point(displays[i].work_area, x, y) && forall|
                    j: int,
                | 0 <= j < i ==> !area_has_point(#[trigger] displays[j].work_area, x, y),
        )
    } else {
        None
    }
}

/// The grounded park origin inside a destination work area: the horizontal
/// slot `sequence % 5` of six equal steps over the free width, 16 px above the
/// bottom of the free height; `None` when it does not fit `i32`.
pub open spec fn park_origin(area: WorkArea, pet_w: u32, pet_h: u32, sequence: u64) -> Option<
    (i32, i32),
> {
    let usable_w = area.width - pet_w;
    let usable_h = area.height - pet_h;
    let slot = sequence % 5;
    let local_x = if usable_w <= 0 {
        0
    } else {
        (usable_w * (slot + 1)) / 6
    };
    let local_y = max_int(usable_h - 16, 0);
    if fits_i32(area.x + local_x) && fits_i32(area.y + local_y) {
        Some(((area.x + local_x) as i32, (area.y + local_y) as i32))
    } else {
        None
    }
}

/// The pet's center `(pet_x + pet_w / 2, pet_y + pet_h / 2)`, each coordinate
/// falling back to the origin when it does not fit `i32`.
pub open spec fn pet_center(pet_x: i32, pet_y: i32, pet_w: u32, pet_h: u32) -> (int, int) {
    let cx = pet_x + pet_w / 2;
    let cy = pet_y + pet_h / 2;
    (if fits_i32(cx) {
        cx
    } else {
        pet_x as int
    }, if fits_i32(cy) {
        cy
    } else {
        pet_y as int
    })
}

/// Destination display index for a cross-display walk from display `current`.
pub open spec fn destination_index(current: int, sequence: u64, count: int) -> int {
    (current + 1 + (sequence % ((count - 1) as u64))) % count
}

/// Cross-display walk target: `None` with fewer than two displays or when the
/// pet center lies in no work area; otherwise the park origin on the
/// destination display (`None` when that work area is empty).
pub open spec fn cross_display_target(
    sequence: u64,
    pet_x: i32,
    pet_y: i32,
    pet_w: u32,
    pet_h: u32,
    displays: Seq<DesktopDisplay>,
) -> Option<(i32, i32)> {
    if displays.len() < 2 {
        None
    } else {
        let c = pet_center(pet_x, pet_y, pet_w, pet_h);
        match first_area_with_point(displays, c.0, c.1) {
            None => None,
            Some(current) => {
                let dest = destination_index(current, sequence, displays.len() as int);
                let area = displays[dest].work_area;
                if dest == current || area.width == 0 || area.height == 0 {
                    None
                } else {
                    park_origin(area, pet_w, pet_h, sequence)
                }
            },
        }
    }
}

fn first_work_area_with_origin(displays: &[DesktopDisplay], x: i32, y: i32) -> (r: Option<usize>)
    ensures
        match r {
            Some(i) => first_area_with_point(displays@, x as int, y as int) == Some(i as int),
            None => first_area_with_point(displays@, x as int, y as int) is None,
        },
{
    let mut i: usize = 0;
    while i < displays.len()
        invariant
            0 <= i <= displays@.len(),
            forall|j: int|
                0 <= j < i ==> !area_has_point(#[trigger] displays@[j].work_area, x as int, y as int),
        decreases displays@.len() - i,
    {
        if work_area_contains_origin(displays[i].work_area, x, y) {
            proof {
                let w = i as int;
                let c = choose|c: int|
                    0 <= c < displays@.len() && area_has_point(
                        displays@[c].work_area,
                        x as int,
                        y as int,
                    ) && forall|j: int|
                        0 <= j < c ==> !area_has_point(
                            #[trigger] displays@[j].work_area,
                            x as int,
                            y as int,
                        );
                if c < w {
                    assert(!area_has_point(displays@[c].work_area, x as int, y as int));
                }
                if w < c {
                    assert(!area_has_point(displays@[w].work_area, x as int, y as int));
                }
            }
            return Some(i);
        }
        i = i + 1;
    }
    None
}

/// Picks a grounded cross-display walk target on a different monitor.
///
/// Sequence-stable destination index. Returns `None` when fewer than two
/// valid work areas exist or the pet center cannot be located.
pub fn plan_cross_display_target(
    sequence: u64,
    pet_x: i32,
    pet_y: i32,
    pet_w: u32,
    pet_h: u32,
    displays: &[DesktopDisplay],
) -> (r: Option<(i32, i32)>)
    ensures
        r == cross_display_target(sequence, pet_x, pet_y, pet_w, pet_h, displays@),
{
    if displays.len() < 2 {
        return None;
    }
    let cx = pet_x as i64 + pet_w as i64 / 2;
    let cy = pet_y as i64 + pet_h as i64 / 2;
    let cx_i: i32 = if cx >= i32::MIN as i64 && cx <= i32::MAX as i64 {
        cx as i32
    } else {
        pet_x
    };
    let cy_i: i32 = if cy >= i32::MIN as i64 && cy <= i32::MAX as i64 {
        cy as i32
    } else {
        pet_y
    };
    let ghost center = pet_center(pet_x, pet_y, pet_w, pet_h);
    assert(center.0 == cx_i && center.1 == cy_i);
    let current = match first_work_area_with_origin(displays, cx_i, cy_i) {
        Some(i) => i,
        None => return None,
    };
    let count = displays.len() as u64;
    let step = sequence % (count - 1);
    let dest = ((current as u128 + 1 + step as u128) % (count as u128)) as usize;
    if dest == current {
        return None;
    }
    let area = displays[dest].work_area;
    if area.width == 0 || area.height == 0 {
        return None;
    }
    let usable_w = area.width as i64 - pet_w as i64;
    let usable_h = area.height as i64 - pet_h as i64;
    let slot = (sequence % 5) as i64;
    let local_x: i64 = if usable_w <= 0 {
        0
    } else {
        proof {
            assert(0 <= usable_w * (slot + 1) <= 5 * u32::MAX) by (nonlinear_arith)
                requires
                    0 < usable_w <= u32::MAX,
                    0 <= slot < 5,
            ;
            assert(usable_w * (slot + 1) / 6 <= usable_w) by (nonlinear_arith)
                requires
                    0 < usable_w,
                    0 <= slot < 5,
            ;
        }
        usable_w * (slot + 1) / 6
    };
    let local_y: i64 = if usable_h - 16 > 0 {
        usable_h - 16
    } else {
        0
    };
    let x = area.x as i64 + local_x;
    let y = area.y as i64 + local_y;
    if x < i32::MIN as i64 || x > i32::MAX as i64 || y < i32::MIN as i64 || y > i32::MAX as i64 {
        return None;
    }
    Some((x as i32, y as i32))
}

/// Law: a cross-display target lies on another display, and when the pet fits
/// the destination work area the whole pet stays inside it.
pub proof fn law_cross_display_target_inside_destination(
    sequence: u64,
    pet_x: i32,
    pet_y: i32,
    pet_w: u32,
    pet_h: u32,
    displays: Seq<DesktopDisplay>,
)
    requires
        cross_display_target(sequence, pet_x, pet_y, pet_w, pet_h, displays) is Some,
    ensures
        ({
            let c = pet_center(pet_x, pet_y, pet_w, pet_h);
            let current = first_area_with_point(displays, c.0, c.1)->0;
            let dest = destination_index(current, sequence, displays.len() as int);
            let area = displays[dest].work_area;
            let t = cross_display_target(sequence, pet_x, pet_y, pet_w, pet_h, displays)->0;
            &&& 0 <= dest < displays.len()
            &&& dest != current
            &&& (pet_w <= area.width && pet_h <= area.height) ==> {
                &&& area.x <= t.0
                &&& area.y <= t.1
                &&& t.0 + pet_w <= area.right_edge()
                &&& t.1 + pet_h <= area.bottom_edge()
            }
        }),
{
    let c = pet_center(pet_x, pet_y, pet_w, pet_h);
    let current = first_area_with_point(displays, c.0, c.1)->0;
    let count = displays.len() as int;
    let dest = destination_index(current, sequence, count);
    let area = displays[dest].work_area;
    let usable_w = area.width - pet_w;
    let slot = (sequence % 5) as int;
    if usable_w > 0 {
        assert((usable_w * (slot + 1)) / 6 <= usable_w) by (nonlinear_arith)
            requires
                0 < usable_w,
                0 <= slot < 5,
        ;
        assert(0 <= (usable_w * (slot + 1)) / 6) by (nonlinear_arith)
            requires
                0 < usable_w,
                0 <= slot < 5,
        ;
    }
}

} // verus!
