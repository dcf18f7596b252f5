//! High-level motion goals for the desktop host.
use crate::freshness::{is_usable, obstacles_usable, usable};
use crate::obstacles::{
    avoid_obstacles, avoided_target, clamp_pet_origin, clamped_origin, free_wander,
    free_wander_target, origin_bounds, safe_origin_bounds, AvoidRequest, Rect, Size,
};
use crate::snapshot::{obstacle_areas, DesktopSnapshot, WorkArea};
use vstd::prelude::*;

verus! {

/// Integer size of the pet surface.
pub type Size2 = Size;

/// Integer 2D point (origin of the pet window).
#[derive(Debug, Clone, Copy, PartialEq, Eq, Structural)]
pub struct Vec2i {
    pub x: i32,
    pub y: i32,
}

/// How the host should interpret the motion goal.
#[derive(Debug, Clone, Copy, PartialEq, Eq, Structural)]
pub enum MotionMode {
    Walk,
    Jump,
    Perch,
}

/// Target the host feeds into the spring integrator.
#[derive(Debug, Clone, Copy, PartialEq, Eq, Structural)]
pub struct MotionGoal {
    pub target_x: i32,
    pub target_y: i32,
    pub mode: MotionMode,
}

/// Inputs for [`plan_wander`]. The host keeps the cursor sample and hands the
/// planner the cursor-approach step it derived from it.
#[derive(Debug, Clone, Copy, PartialEq, Eq, Structural)]
pub struct WanderRequest {
    pub sequence: u64,
    pub current: Vec2i,
    pub pet_size: Size2,
    pub work_area: WorkArea,
}

/// A work area as an obstacle-geometry rectangle.
pub open spec fn area_rect(area: WorkArea) -> Rect {
    Rect { x: area.x, y: area.y, width: area.width, height: area.height }
}

/// Motion mode: a jump every seventh sequence; a perch when the target sits
/// within 2 px of the top or bottom of the safe range; otherwise a walk.
pub open spec fn mode_for(sequence: u64, target_y: i32, work_area: Rect, pet: Size) -> MotionMode {
    let b = origin_bounds(work_area, pet);
    if sequence % 7 == 0 {
        MotionMode::Jump
    } else if target_y >= b.3 - 2 || target_y <= b.1 + 2 {
        MotionMode::Perch
    } else {
        MotionMode::Walk
    }
}

/// The wander goal: from the clamped current origin, the approach step when
/// given, else the free wander step; adjusted for obstacles; with its mode.
pub open spec fn wander_goal(
    request: WanderRequest,
    approach: Option<(i32, i32)>,
    obstacles: Seq<Rect>,
) -> MotionGoal {
    let area = area_rect(request.work_area);
    let c = clamped_origin(request.current.x, request.current.y, request.pet_size, area);
    let desired = match approach {
        Some(p) => p,
        None => free_wander(c.0, c.1, request.pet_size, area, request.sequence),
    };
    let t = avoided_target(
        AvoidRequest {
            current_x: c.0,
            current_y: c.1,
            target_x: desired.0,
            target_y: desired.1,
            pet: request.pet_size,
            work_area: area,
            sequence: request.sequence,
        },
        obstacles,
    );
    MotionGoal {
        target_x: t.0,
        target_y: t.1,
        mode: mode_for(request.sequence, t.1, area, request.pet_size),
    }
}

/// Law: how a wander goal moves. Every seventh sequence jumps; otherwise a
/// goal perches exactly when its target lies within 2 px of the bottom or of
/// the top of the safe origin range, and walks when it lies inside both.
pub proof fn law_wander_mode(request: WanderRequest, approach: Option<(i32, i32)>, obstacles: Seq<Rect>)
    ensures
        ({
            let g = wander_goal(request, approach, obstacles);
            let b = origin_bounds(area_rect(request.work_area), request.pet_size);
            &&& request.sequence % 7 == 0 ==> g.mode == MotionMode::Jump
            &&& request.sequence % 7 != 0 && g.target_y >= b.3 - 2 ==> g.mode == MotionMode::Perch
            &&& request.sequence % 7 != 0 && g.target_y <= b.1 + 2 ==> g.mode == MotionMode::Perch
            &&& request.sequence % 7 != 0 && b.1 + 2 < g.target_y < b.3 - 2 ==> g.mode
                == MotionMode::Walk
        }),
{
}

pub fn work_area_to_rect(area: WorkArea) -> (r: Rect)
    ensures
        r == area_rect(area),
{
    Rect { x: area.x, y: area.y, width: area.width, height: area.height }
}

fn select_mode(sequence: u64, target_y: i32, work_area: Rect, pet: Size) -> (r: MotionMode)
    ensures
        r == mode_for(sequence, target_y, work_area, pet),
        sequence % 7 != 0 && target_y >= origin_bounds(work_area, pet).3 - 2 ==> r
            == MotionMode::Perch,
        sequence % 7 != 0 && target_y <= origin_bounds(work_area, pet).1 + 2 ==> r
            == MotionMode::Perch,
{
    let (_, min_y, _, max_y) = safe_origin_bounds(work_area, pet);
    if sequence % 7 == 0 {
        return MotionMode::Jump;
    }
    if target_y as i64 >= max_y - 2 || target_y as i64 <= min_y + 2 {
        return MotionMode::Perch;
    }
    MotionMode::Walk
}

/// Plans a wander goal inside `work_area`, avoiding large obstacles.
///
/// `approach` is the host's small step toward the cursor, computed from the
/// clamped current origin; without it the deterministic free wander step is
/// taken. For snapshot-driven planning prefer [`plan_wander_from_snapshot`],
/// which fail-closes on unusable samples.
pub fn plan_wander(request: WanderRequest, approach: Option<(i32, i32)>, obstacles: &[Rect]) -> (r:
    MotionGoal)
    ensures
        r == wander_goal(request, approach, obstacles@),
        request.sequence % 7 == 0 ==> r.mode == MotionMode::Jump,
        request.sequence % 7 != 0 ==> (r.mode == MotionMode::Perch <==> (r.target_y
            >= origin_bounds(area_rect(request.work_area), request.pet_size).3 - 2 || r.target_y
            <= origin_bounds(area_rect(request.work_area), request.pet_size).1 + 2)),
{
    let area = work_area_to_rect(request.work_area);
    let (current_x, current_y) = clamp_pet_origin(
        request.current.x,
        request.current.y,
        request.pet_size,
        area,
    );
    let desired = match approach {
        Some(p) => p,
        None => free_wander_target(current_x, current_y, request.pet_size, area, request.sequence),
    };
    let target = avoid_obstacles(
        AvoidRequest {
            current_x,
            current_y,
            target_x: desired.0,
            target_y: desired.1,
            pet: request.pet_size,
            work_area: area,
            sequence: request.sequence,
        },
        obstacles,
    );
    let mode = select_mode(request.sequence, target.1, area, request.pet_size);
    MotionGoal { target_x: target.0, target_y: target.1, mode }
}

/// Obstacles of a snapshot as rectangles, in order.
pub open spec fn snapshot_obstacles(snapshot: DesktopSnapshot) -> Seq<Rect> {
    obstacle_areas(snapshot.windows@).map_values(|a: WorkArea| area_rect(a))
}

/// Snapshot-aware planner: fail-closed to free wander when the sample is not
/// usable, ignoring both its obstacles and the cursor approach.
#[verifier::rlimit(40)]
pub fn plan_wander_from_snapshot(
    request: WanderRequest,
    approach: Option<(i32, i32)>,
    snapshot: &DesktopSnapshot,
    now_ms: u64,
) -> (r: MotionGoal)
    ensures
        usable(*snapshot, now_ms) ==> r == wander_goal(
            request,
            approach,
            snapshot_obstacles(*snapshot),
        ),
        !usable(*snapshot, now_ms) ==> r == wander_goal(request, None, Seq::empty()),
{
    let obstacles: Vec<Rect> = if obstacles_usable(snapshot, now_ms) {
        let areas = snapshot.obstacle_windows();
        let mut rects: Vec<Rect> = Vec::new();
        let mut i: usize = 0;
        while i < areas.len()
            invariant
                0 <= i <= areas@.len(),
                rects@ == areas@.take(i as int).map_values(|a: WorkArea| area_rect(a)),
            decreases areas@.len() - i,
        {
            rects.push(work_area_to_rect(areas[i]));
            proof {
                assert(areas@.take(i + 1).map_values(|a: WorkArea| area_rect(a)) =~= areas@.take(
                    i as int,
                ).map_values(|a: WorkArea| area_rect(a)).push(area_rect(areas@[i as int])));
            }
            i = i + 1;
        }
        proof {
            assert(areas@.take(areas@.len() as int) =~= areas@);
        }
        rects
    } else {
        Vec::new()
    };
    let approach = if is_usable(snapshot, now_ms) {
        approach
    } else {
        None
    };
    proof {
        if !usable(*snapshot, now_ms) {
            assert(obstacles@ =~= Seq::<Rect>::empty());
        }
    }
    plan_wander(request, approach, obstacles.as_slice())
}

} // verus!
