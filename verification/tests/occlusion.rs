use nimora_core::occlusion::{
    intersect_to_local, occluders_from_snapshot, occlusion_coverage, CoverSpan, LocalRect,
    OccluderRect, PetBodyRect, MAX_OCCLUDERS, PET_OCCLUSION_Z_PLANE,
};
use nimora_core::snapshot::{
    DesktopSnapshot, DesktopSnapshotParts, DesktopWindow, Freshness, MeetingHint, MeetingState,
};

fn pet(x: i32, y: i32, w: u32, h: u32) -> PetBodyRect {
    PetBodyRect { x, y, width: w, height: h }
}

fn occ(x: i32, y: i32, w: u32, h: u32, z: i32) -> OccluderRect {
    OccluderRect { x, y, width: w, height: h, z_order: z }
}

#[allow(clippy::too_many_arguments)]
fn window(
    id: &str,
    x: i32,
    y: i32,
    w: u32,
    h: u32,
    z: i32,
    owner_pid: u32,
    onscreen: bool,
    is_minimized: bool,
    is_shell: bool,
) -> DesktopWindow {
    DesktopWindow {
        id: id.into(),
        title_hash: None,
        title_redacted: true,
        x,
        y,
        width: w,
        height: h,
        z_order: z,
        owner_pid,
        owner_name: "App".into(),
        onscreen,
        is_minimized,
        is_fullscreen_candidate: false,
        is_shell,
    }
}

fn snapshot_with(windows: Vec<DesktopWindow>) -> DesktopSnapshot {
    DesktopSnapshot::new(DesktopSnapshotParts {
        windows,
        foreground: None,
        displays: Vec::new(),
        power: None,
        idle_ms: 0,
        meeting: MeetingState { active: false, hint: MeetingHint::NoHint },
        observed_at_ms: 1_000,
        expires_at_ms: 6_000,
        freshness: Freshness::Fresh,
        degradation_reason: None,
    })
    .expect("valid snapshot")
}

#[test]
fn no_occluders_is_empty() {
    let result = occlusion_coverage(pet(10, 20, 100, 200), &[]);
    assert_eq!(result.covered_area, 0);
    assert_eq!(result.pet_area, 20_000);
    assert!(result.spans.is_empty());
    assert!(!result.fully_hidden);
}

#[test]
fn partial_overlap_coverage_and_strip() {
    let result = occlusion_coverage(pet(0, 0, 100, 100), &[occ(0, 0, 50, 100, 1)]);
    assert_eq!(result.covered_area * 2, result.pet_area);
    assert!(!result.fully_hidden);
    assert_eq!(result.spans, vec![CoverSpan { y0: 0, y1: 100, x0: 0, x1: 50 }]);
}

#[test]
fn full_cover_sets_fully_hidden() {
    let result = occlusion_coverage(pet(50, 50, 80, 120), &[occ(0, 0, 400, 400, 2)]);
    assert_eq!(result.covered_area, result.pet_area);
    assert!(result.fully_hidden);
    assert!(!result.spans.is_empty());
}

#[test]
fn shell_minimized_offscreen_own_pid_skipped() {
    let snap = snapshot_with(vec![
        window("shell", 0, 0, 200, 200, 1, 9, true, false, true),
        window("min", 0, 0, 200, 200, 1, 9, true, true, false),
        window("off", 0, 0, 200, 200, 1, 9, false, false, false),
        window("zero", 0, 0, 0, 200, 1, 9, true, false, false),
        window("self", 0, 0, 200, 200, 1, 42, true, false, false),
        window("ok", 0, 0, 200, 200, 3, 9, true, false, false),
    ]);
    let occluders = occluders_from_snapshot(&snap, 42);
    assert_eq!(occluders.len(), 1);
    assert_eq!(occluders[0].z_order, 3);
    assert_eq!(occluders[0].width, 200);
}

#[test]
fn z_order_behind_pet_plane_ignored() {
    let behind = occ(0, 0, 100, 100, -1);
    let result = occlusion_coverage(pet(0, 0, 100, 100), &[behind]);
    assert_eq!(result.covered_area, 0);
    assert!(result.spans.is_empty());
    assert!(!result.fully_hidden);

    let coplanar = occ(0, 0, 50, 100, PET_OCCLUSION_Z_PLANE);
    let result = occlusion_coverage(pet(0, 0, 100, 100), &[coplanar]);
    assert_eq!(result.covered_area * 2, result.pet_area);
}

#[test]
fn strip_merge_unions_overlapping_rects() {
    let left = occ(0, 0, 60, 100, 1);
    let right = occ(40, 0, 60, 100, 2);
    let result = occlusion_coverage(pet(0, 0, 100, 100), &[left, right]);
    assert_eq!(result.covered_area, result.pet_area);
    assert!(result.fully_hidden);
    assert_eq!(result.spans, vec![CoverSpan { y0: 0, y1: 100, x0: 0, x1: 100 }]);
}

#[test]
fn non_overlapping_strips_remain_separate() {
    let top = occ(0, 0, 100, 20, 1);
    let bottom = occ(0, 80, 100, 20, 1);
    let result = occlusion_coverage(pet(0, 0, 100, 100), &[top, bottom]);
    assert_eq!(result.covered_area * 10, result.pet_area * 4);
    assert_eq!(result.spans.len(), 2);
}

#[test]
fn overlapping_rects_are_not_counted_twice() {
    // Two 60x60 squares overlapping in a 20x20 corner: 3600 + 3600 - 400.
    let result = occlusion_coverage(
        pet(0, 0, 100, 100),
        &[occ(0, 0, 60, 60, 1), occ(40, 40, 60, 60, 1)],
    );
    assert_eq!(result.covered_area, 6_800);
    assert_eq!(
        result.spans,
        vec![
            CoverSpan { y0: 0, y1: 40, x0: 0, x1: 60 },
            CoverSpan { y0: 40, y1: 60, x0: 0, x1: 100 },
            CoverSpan { y0: 60, y1: 100, x0: 40, x1: 100 },
        ]
    );
}

#[test]
fn separated_columns_give_separate_spans_in_one_band() {
    let result = occlusion_coverage(
        pet(0, 0, 100, 10),
        &[occ(0, 0, 10, 10, 1), occ(20, 0, 10, 10, 1), occ(10, 0, 10, 10, -5)],
    );
    assert_eq!(result.covered_area, 200);
    assert_eq!(
        result.spans,
        vec![CoverSpan { y0: 0, y1: 10, x0: 0, x1: 10 }, CoverSpan { y0: 0, y1: 10, x0: 20, x1: 30 }]
    );
}

#[test]
fn occluders_are_clipped_to_the_pet_body() {
    let p = pet(100, 100, 50, 50);
    assert_eq!(
        intersect_to_local(p, occ(120, 90, 100, 20, 0)),
        Some(LocalRect { x0: 20, y0: 0, x1: 50, y1: 10 })
    );
    assert_eq!(intersect_to_local(p, occ(0, 0, 100, 100, 0)), None);
    let result = occlusion_coverage(p, &[occ(120, 90, 100, 20, 0)]);
    assert_eq!(result.covered_area, 300);
}

#[test]
fn zero_area_pet_is_never_hidden() {
    let result = occlusion_coverage(pet(0, 0, 0, 10), &[occ(-10, -10, 100, 100, 1)]);
    assert_eq!(result.pet_area, 0);
    assert_eq!(result.covered_area, 0);
    assert!(!result.fully_hidden);
}

#[test]
fn crowded_desktop_keeps_front_most_z_orders_stably() {
    let mut windows = Vec::new();
    for i in 0..50i32 {
        windows.push(window("w", i, 0, 10, 10, 60 - i, 1, true, false, false));
    }
    // Two windows share the front-most z_order 60 (i = 0 and this one at x = 500).
    windows.push(window("dup", 500, 0, 10, 10, 60, 1, true, false, false));
    let occluders = occluders_from_snapshot(&snapshot_with(windows), 42);
    assert_eq!(occluders.len(), MAX_OCCLUDERS);
    assert_eq!(occluders[0].z_order, 60);
    assert_eq!(occluders[0].x, 0);
    assert_eq!(occluders[1].z_order, 60);
    assert_eq!(occluders[1].x, 500);
    assert!(occluders.windows(2).all(|p| p[0].z_order >= p[1].z_order));
    assert_eq!(occluders[MAX_OCCLUDERS - 1].z_order, 14);
    // The back-most candidates (z_order 13, 12, 11) are the ones dropped.
    assert!(occluders.iter().all(|o| o.z_order >= 14));
}
