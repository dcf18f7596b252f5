use nimora_core::{
    avoid_obstacles, blocked_by_any, clamp_pet_origin, free_wander_target, rects_overlap,
    safe_origin_bounds, AvoidRequest, Rect, Size,
};

#[test]
fn bounds_clamping_keeps_pet_inside_work_area() {
    let work = Rect { x: 0, y: 0, width: 1000, height: 800 };
    let pet = Size { width: 100, height: 100 };
    let (x, y) = clamp_pet_origin(-50, 900, pet, work);
    let (min_x, min_y, max_x, max_y) = safe_origin_bounds(work, pet);
    assert!((min_x..=max_x).contains(&i64::from(x)));
    assert!((min_y..=max_y).contains(&i64::from(y)));
}

#[test]
fn empty_obstacles_fail_closed_to_free_target() {
    let work = Rect { x: 0, y: 0, width: 1200, height: 900 };
    let pet = Size { width: 96, height: 96 };
    let (x, y) = avoid_obstacles(
        AvoidRequest {
            current_x: 100,
            current_y: 100,
            target_x: 500,
            target_y: 400,
            pet,
            work_area: work,
            sequence: 0,
        },
        &[],
    );
    assert_eq!((x, y), clamp_pet_origin(500, 400, pet, work));
}

#[test]
fn obstacle_avoid_changes_target_when_blocked() {
    let work = Rect { x: 0, y: 0, width: 1200, height: 900 };
    let pet = Size { width: 80, height: 80 };
    let obstacle = Rect { x: 200, y: 100, width: 800, height: 600 };
    let desired_x = 500;
    let desired_y = 400;
    let adjusted = avoid_obstacles(
        AvoidRequest {
            current_x: 40,
            current_y: 40,
            target_x: desired_x,
            target_y: desired_y,
            pet,
            work_area: work,
            sequence: 0,
        },
        &[obstacle],
    );
    assert_ne!(
        adjusted,
        clamp_pet_origin(desired_x, desired_y, pet, work),
        "blocked target should be rewritten"
    );
    assert!(
        !blocked_by_any(adjusted.0, adjusted.1, pet, &[obstacle]),
        "adjusted target must not overlap large obstacle: {adjusted:?}"
    );
}

#[test]
fn safe_bounds_use_fixed_margins() {
    let work = Rect { x: 10, y: 20, width: 1000, height: 800 };
    let pet = Size { width: 100, height: 50 };
    assert_eq!(safe_origin_bounds(work, pet), (26, 44, 894, 722));
    let tiny = Rect { x: 0, y: 0, width: 50, height: 50 };
    assert_eq!(safe_origin_bounds(tiny, pet), (16, 24, 16, 24));
}

#[test]
fn free_wander_alternates_direction_by_sequence() {
    let work = Rect { x: 0, y: 0, width: 2000, height: 1000 };
    let pet = Size { width: 100, height: 100 };
    assert_eq!(free_wander_target(500, 400, pet, work, 0), (640, 432));
    assert_eq!(free_wander_target(500, 400, pet, work, 1), (360, 432));
    assert_eq!(free_wander_target(500, 400, pet, work, 2), (640, 368));
    assert_eq!(free_wander_target(500, 400, pet, work, 3), (360, 368));
    assert_eq!(free_wander_target(1850, 400, pet, work, 0), (1884, 432));
}

#[test]
fn overlap_requires_positive_area() {
    let a = Rect { x: 0, y: 0, width: 10, height: 10 };
    let touching = Rect { x: 10, y: 0, width: 10, height: 10 };
    let inside = Rect { x: 5, y: 5, width: 1, height: 1 };
    assert!(!rects_overlap(&a, &touching));
    assert!(rects_overlap(&a, &inside));
    assert_eq!(a.right(), 10);
    assert_eq!(a.bottom(), 10);
    assert_eq!(a.area(), 100);
    assert!(a.contains_origin(5, 5, Size { width: 2, height: 2 }));
}

#[test]
fn small_obstacles_never_block() {
    let work = Rect { x: 0, y: 0, width: 1200, height: 900 };
    let pet = Size { width: 80, height: 80 };
    let small = Rect { x: 450, y: 350, width: 100, height: 100 };
    let request = AvoidRequest {
        current_x: 40,
        current_y: 40,
        target_x: 500,
        target_y: 400,
        pet,
        work_area: work,
        sequence: 0,
    };
    assert_eq!(avoid_obstacles(request, &[small]), (500, 400));
}

#[test]
fn clear_target_and_route_are_kept() {
    let work = Rect { x: 0, y: 0, width: 1200, height: 900 };
    let pet = Size { width: 80, height: 80 };
    let far = Rect { x: 900, y: 600, width: 200, height: 200 };
    let request = AvoidRequest {
        current_x: 100,
        current_y: 100,
        target_x: 300,
        target_y: 200,
        pet,
        work_area: work,
        sequence: 0,
    };
    assert_eq!(avoid_obstacles(request, &[far]), (300, 200));
}

#[test]
fn perch_is_nearest_free_point_beside_the_window() {
    let work = Rect { x: 0, y: 0, width: 1200, height: 900 };
    let pet = Size { width: 80, height: 80 };
    let obstacle = Rect { x: 200, y: 100, width: 800, height: 600 };
    let request = AvoidRequest {
        current_x: 40,
        current_y: 40,
        target_x: 500,
        target_y: 400,
        pet,
        work_area: work,
        sequence: 0,
    };
    // Left perch (112, 360) and top perch (560, 24) are reachable; the
    // top-left corner (112, 24) is the nearest of the usable perches.
    assert_eq!(avoid_obstacles(request, &[obstacle]), (112, 24));
}

fn request_from_corner(sequence: u64) -> AvoidRequest {
    AvoidRequest {
        current_x: 40,
        current_y: 40,
        target_x: 500,
        target_y: 400,
        pet: Size { width: 80, height: 80 },
        work_area: Rect { x: 0, y: 0, width: 1200, height: 900 },
        sequence,
    }
}

#[test]
fn fully_covered_work_area_stays_at_current_origin() {
    let cover = Rect { x: 0, y: 0, width: 1200, height: 900 };
    assert_eq!(avoid_obstacles(request_from_corner(0), &[cover]), (40, 40));
}

#[test]
fn without_perch_the_pet_slides_to_the_nearer_edge() {
    let wall = Rect { x: 100, y: 0, width: 1000, height: 900 };
    assert_eq!(avoid_obstacles(request_from_corner(1), &[wall]), (16, 400));
}

#[test]
fn equal_windows_prefer_the_first_listed() {
    let left = Rect { x: 200, y: 100, width: 300, height: 600 };
    let right = Rect { x: 600, y: 100, width: 300, height: 600 };
    assert_eq!(avoid_obstacles(request_from_corner(0), &[left, right]), (112, 24));
}
