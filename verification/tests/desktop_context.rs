use nimora_core::freshness::{is_expired, is_usable, obstacles_usable, refresh_freshness};
use nimora_core::motion::{
    plan_wander, plan_wander_from_snapshot, work_area_to_rect, MotionMode, Vec2i, WanderRequest,
};
use nimora_core::obstacles::{clamp_pet_origin, Rect, Size};
use nimora_core::snapshot::{
    DegradationReason, DesktopContextError, DesktopDisplay, DesktopSnapshot, DesktopSnapshotParts,
    DesktopWindow, Freshness, MeetingHint, MeetingState, WorkArea, MAX_SNAPSHOT_LIFETIME_MS,
};

fn window(id: &str, x: i32, y: i32, w: u32, h: u32, fullscreen: bool) -> DesktopWindow {
    DesktopWindow {
        id: id.into(),
        title_hash: None,
        title_redacted: true,
        x,
        y,
        width: w,
        height: h,
        z_order: 1,
        owner_pid: 1,
        owner_name: "Blocker".into(),
        onscreen: true,
        is_minimized: false,
        is_fullscreen_candidate: fullscreen,
        is_shell: false,
    }
}

fn parts(freshness: Freshness, observed: u64, expires: u64) -> DesktopSnapshotParts {
    DesktopSnapshotParts {
        windows: Vec::new(),
        foreground: None,
        displays: Vec::new(),
        power: None,
        idle_ms: 0,
        meeting: MeetingState { active: false, hint: MeetingHint::NoHint },
        observed_at_ms: observed,
        expires_at_ms: expires,
        freshness,
        degradation_reason: if freshness == Freshness::Degraded {
            Some(DegradationReason::Timeout)
        } else {
            None
        },
    }
}

fn snap(freshness: Freshness, observed: u64, expires: u64) -> DesktopSnapshot {
    DesktopSnapshot::new(parts(freshness, observed, expires)).expect("valid snapshot")
}

fn work() -> WorkArea {
    WorkArea { x: 0, y: 0, width: 1400, height: 900 }
}

#[test]
fn usable_only_when_fresh_and_unexpired() {
    let fresh = snap(Freshness::Fresh, 1_000, 6_000);
    assert!(is_usable(&fresh, 5_999));
    assert!(!is_usable(&fresh, 6_000));
    assert!(!is_usable(&fresh, 6_001));

    let stale = snap(Freshness::Stale, 1_000, 6_000);
    assert!(!is_usable(&stale, 1_001));
    assert!(!obstacles_usable(&stale, 1_001));

    let degraded = snap(Freshness::Degraded, 1_000, 6_000);
    assert!(!is_usable(&degraded, 1_001));
    assert!(!obstacles_usable(&degraded, 1_001));
}

#[test]
fn refresh_marks_expired_as_stale() {
    let fresh = snap(Freshness::Fresh, 1_000, 6_000);
    assert_eq!(refresh_freshness(&fresh, 5_000), Freshness::Fresh);
    assert_eq!(refresh_freshness(&fresh, 6_000), Freshness::Stale);
    let degraded = snap(Freshness::Degraded, 1_000, 6_000);
    assert_eq!(refresh_freshness(&degraded, 6_000), Freshness::Degraded);
}

#[test]
fn expiry_is_inclusive_of_the_deadline() {
    let fresh = snap(Freshness::Fresh, 1_000, 6_000);
    assert!(!is_expired(&fresh, 5_999));
    assert!(is_expired(&fresh, 6_000));
    assert!(obstacles_usable(&fresh, 5_999));
}

#[test]
fn plan_wander_stays_in_bounds() {
    let pet = Size { width: 100, height: 100 };
    let goal = plan_wander(
        WanderRequest { sequence: 3, current: Vec2i { x: 200, y: 200 }, pet_size: pet, work_area: work() },
        None,
        &[],
    );
    let (cx, cy) = clamp_pet_origin(goal.target_x, goal.target_y, pet, work_area_to_rect(work()));
    assert_eq!((goal.target_x, goal.target_y), (cx, cy));
    assert!(matches!(goal.mode, MotionMode::Walk | MotionMode::Jump | MotionMode::Perch));
}

#[test]
fn stale_snapshot_does_not_use_obstacles() {
    let pet = Size { width: 80, height: 80 };
    let mut stale = parts(Freshness::Stale, 1_000, 6_000);
    stale.windows = vec![window("block", 0, 0, 1400, 900, false)];
    let snapshot = DesktopSnapshot::new(stale).expect("snapshot");
    assert!(!is_usable(&snapshot, 1_500));

    let request =
        WanderRequest { sequence: 0, current: Vec2i { x: 40, y: 40 }, pet_size: pet, work_area: work() };
    let free = plan_wander(request, None, &[]);
    let from_stale = plan_wander_from_snapshot(request, None, &snapshot, 1_500);
    assert_eq!(
        (from_stale.target_x, from_stale.target_y),
        (free.target_x, free.target_y),
        "stale must fail-closed to free wander"
    );

    let mut degraded = snapshot;
    degraded.freshness = Freshness::Degraded;
    degraded.degradation_reason = Some(DegradationReason::PermissionDenied);
    let from_degraded = plan_wander_from_snapshot(request, None, &degraded, 1_500);
    assert_eq!((from_degraded.target_x, from_degraded.target_y), (free.target_x, free.target_y));
}

#[test]
fn jump_mode_every_seventh_sequence() {
    let pet = Size { width: 80, height: 80 };
    let goal = plan_wander(
        WanderRequest { sequence: 7, current: Vec2i { x: 200, y: 300 }, pet_size: pet, work_area: work() },
        None,
        &[],
    );
    assert_eq!(goal.mode, MotionMode::Jump);
}

#[test]
fn fresh_snapshot_uses_obstacles() {
    let pet = Size { width: 80, height: 80 };
    let obstacle = Rect { x: 0, y: 0, width: 1400, height: 900 };
    let mut fresh = parts(Freshness::Fresh, 1_000, 6_000);
    fresh.windows =
        vec![window("block", obstacle.x, obstacle.y, obstacle.width, obstacle.height, true)];
    let snapshot = DesktopSnapshot::new(fresh).expect("snapshot");
    let request =
        WanderRequest { sequence: 0, current: Vec2i { x: 40, y: 40 }, pet_size: pet, work_area: work() };
    let free = plan_wander(request, None, &[]);
    let with_obs = plan_wander_from_snapshot(request, None, &snapshot, 1_500);
    assert_ne!((with_obs.target_x, with_obs.target_y), (free.target_x, free.target_y));
}

#[test]
fn approach_step_replaces_free_wander_when_given() {
    let pet = Size { width: 100, height: 100 };
    let request =
        WanderRequest { sequence: 1, current: Vec2i { x: 100, y: 100 }, pet_size: pet, work_area: work() };
    let goal = plan_wander(request, Some((240, 196)), &[]);
    assert_eq!((goal.target_x, goal.target_y), (240, 196));
    assert_eq!(goal.mode, MotionMode::Walk);
    let clamped = plan_wander(request, Some((5_000, -40)), &[]);
    assert_eq!((clamped.target_x, clamped.target_y), (1284, 24));
    assert_eq!(clamped.mode, MotionMode::Perch);
}

#[test]
fn rejects_invalid_lifetime() {
    let mut p = parts(Freshness::Fresh, 1_000, 6_000);
    p.expires_at_ms = p.observed_at_ms;
    assert_eq!(DesktopSnapshot::new(p), Err(DesktopContextError::InvalidLifetime));

    let mut p = parts(Freshness::Fresh, 1_000, 6_000);
    p.expires_at_ms = p.observed_at_ms + MAX_SNAPSHOT_LIFETIME_MS + 1;
    assert_eq!(DesktopSnapshot::new(p), Err(DesktopContextError::InvalidLifetime));
}

#[test]
fn validate_rejects_unknown_spec() {
    let mut snapshot = snap(Freshness::Fresh, 1_000, 6_000);
    assert_eq!(snapshot.validate(), Ok(()));
    snapshot.spec = "nimora.desktop-context/2".into();
    assert_eq!(snapshot.validate(), Err(DesktopContextError::InvalidSpec));
}

#[test]
fn multi_monitor_helpers_on_snapshot() {
    let mut p = parts(Freshness::Fresh, 1_000, 6_000);
    p.displays = vec![
        DesktopDisplay {
            id: "a".into(),
            x: 0,
            y: 0,
            width: 1920,
            height: 1080,
            work_area: WorkArea { x: 0, y: 25, width: 1920, height: 1055 },
        },
        DesktopDisplay {
            id: "b".into(),
            x: 1920,
            y: 0,
            width: 1280,
            height: 800,
            work_area: WorkArea { x: 1920, y: 0, width: 1280, height: 800 },
        },
    ];
    let mut w = window("w", 10, 40, 400, 300, false);
    w.owner_pid = 9;
    w.owner_name = "App".into();
    p.windows = vec![w];
    let snapshot = DesktopSnapshot::new(p).expect("valid");
    assert_eq!(snapshot.primary_display().map(|d| d.id.as_str()), Some("a"));
    assert_eq!(snapshot.display_containing_origin(2000, 10).map(|d| d.id.as_str()), Some("b"));
    assert_eq!(snapshot.work_areas().len(), 2);
    let union = snapshot.union_display_bounds().expect("union");
    assert_eq!(union.width, 3200);
    assert_eq!(snapshot.obstacle_windows().len(), 1);
    assert_eq!(snapshot.occluders_for_pet(1).len(), 1);
    assert!(snapshot.occluders_for_pet(9).is_empty());
}
