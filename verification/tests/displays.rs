use nimora_core::displays::{
    display_containing_origin, display_index_containing_origin, is_fullscreen_over_any_display,
    plan_cross_display_target, primary_display, union_display_bounds, union_work_areas,
    work_area_for_origin, work_area_stages, work_areas,
};
use nimora_core::snapshot::{DesktopDisplay, WorkArea};

fn display(id: &str, x: i32, y: i32, w: u32, h: u32, work_inset: i32) -> DesktopDisplay {
    DesktopDisplay {
        id: id.into(),
        x,
        y,
        width: w,
        height: h,
        work_area: WorkArea {
            x: x + work_inset,
            y: y + work_inset,
            width: w.saturating_sub((work_inset * 2) as u32),
            height: h.saturating_sub((work_inset * 2) as u32),
        },
    }
}

fn dual() -> Vec<DesktopDisplay> {
    vec![display("a", 0, 0, 1280, 800, 0), display("b", 1280, 0, 1280, 800, 0)]
}

#[test]
fn primary_and_containing_prefer_smallest() {
    let displays = vec![
        display("main", 0, 0, 1920, 1080, 0),
        display("side", 1920, 0, 1280, 800, 0),
    ];
    assert_eq!(primary_display(&displays).map(|d| d.id.as_str()), Some("main"));
    let hit = display_containing_origin(&displays, 2000, 10).expect("side");
    assert_eq!(hit.id, "side");
    assert!(work_area_for_origin(&displays, -10, 0).is_some());
}

#[test]
fn union_spans_negative_origins() {
    let displays = vec![
        display("left", -1920, 0, 1920, 1080, 0),
        display("right", 0, 0, 1920, 1080, 0),
    ];
    let union = union_display_bounds(&displays).expect("union");
    assert_eq!(union.x, -1920);
    assert_eq!(union.width, 3840);
    assert_eq!(union.height, 1080);
}

#[test]
fn fullscreen_over_work_area() {
    let displays = vec![display("main", 0, 0, 1000, 800, 0)];
    let full = WorkArea { x: 0, y: 0, width: 1000, height: 800 };
    assert!(is_fullscreen_over_any_display(full, &displays, 2));
    let partial = WorkArea { x: 100, y: 100, width: 200, height: 200 };
    assert!(!is_fullscreen_over_any_display(partial, &displays, 2));
}

#[test]
fn stages_and_cross_target() {
    let displays = dual();
    assert_eq!(work_area_stages(&displays).len(), 2);
    let target = plan_cross_display_target(0, 100, 400, 260, 300, &displays).expect("target");
    assert!(target.0 >= 1280);
    let union = union_work_areas(&displays).expect("union");
    assert_eq!(union.width, 2560);
}

#[test]
fn cross_target_single_display_is_none() {
    let one = vec![dual()[0].clone()];
    assert!(plan_cross_display_target(0, 100, 400, 260, 300, &one).is_none());
    assert!(plan_cross_display_target(0, 100, 400, 260, 300, &[]).is_none());
}

#[test]
fn cross_target_stays_inside_destination_work_area() {
    let displays = dual();
    let pet_w = 260u32;
    let pet_h = 300u32;
    let target = plan_cross_display_target(0, 100, 400, pet_w, pet_h, &displays).expect("target");
    let dest = displays[1].work_area;
    assert!(target.0 >= dest.x);
    assert!(target.1 >= dest.y);
    assert!(i64::from(target.0) + i64::from(pet_w) <= i64::from(dest.x) + i64::from(dest.width));
    assert!(i64::from(target.1) + i64::from(pet_h) <= i64::from(dest.y) + i64::from(dest.height));
}

#[test]
fn cross_target_sequence_cycles_among_other_displays() {
    let mut displays = dual();
    displays.push(display("c", 2560, 0, 1280, 800, 0));
    let t0 = plan_cross_display_target(0, 100, 400, 260, 300, &displays).expect("t0");
    let t1 = plan_cross_display_target(1, 100, 400, 260, 300, &displays).expect("t1");
    assert!(t0.0 >= 1280 && t0.0 < 2560, "t0={t0:?}");
    assert!(t1.0 >= 2560, "t1={t1:?}");
    assert_eq!(plan_cross_display_target(0, 100, 400, 260, 300, &displays), Some(t0));
}

#[test]
fn union_work_areas_spans_dual_monitors() {
    let union = union_work_areas(&dual()).expect("union");
    assert_eq!(union.x, 0);
    assert_eq!(union.y, 0);
    assert_eq!(union.width, 2560);
    assert_eq!(union.height, 800);
}

#[test]
fn park_slot_variety_sequence_mod_five() {
    let displays = dual();
    let pet_w = 260u32;
    let pet_h = 300u32;
    let mut xs = Vec::new();
    for sequence in 0..5u64 {
        let (x, y) =
            plan_cross_display_target(sequence, 100, 400, pet_w, pet_h, &displays).expect("target");
        let dest = displays[1].work_area;
        assert!(x >= dest.x);
        assert!(y >= dest.y);
        assert!(i64::from(x) + i64::from(pet_w) <= i64::from(dest.x) + i64::from(dest.width));
        assert!(i64::from(y) + i64::from(pet_h) <= i64::from(dest.y) + i64::from(dest.height));
        xs.push(x);
    }
    let unique: std::collections::BTreeSet<_> = xs.iter().copied().collect();
    assert_eq!(unique.len(), 5, "slots={xs:?}");
    let (x5, _) = plan_cross_display_target(5, 100, 400, pet_w, pet_h, &displays).expect("x5");
    assert_eq!(x5, xs[0]);
}

#[test]
fn containing_display_prefers_the_smallest_area() {
    let displays = vec![
        display("big", 0, 0, 3000, 2000, 0),
        display("inner", 100, 100, 500, 500, 0),
    ];
    assert_eq!(display_index_containing_origin(&displays, 200, 200), Some(1));
    assert_eq!(display_index_containing_origin(&displays, 2000, 1500), Some(0));
    assert_eq!(display_index_containing_origin(&displays, -1, 0), None);
}

#[test]
fn work_area_falls_back_to_primary_outside_all_displays() {
    let displays = vec![display("main", 0, 0, 1000, 800, 40)];
    let area = work_area_for_origin(&displays, 5000, 5000).expect("fallback");
    assert_eq!(area, WorkArea { x: 40, y: 40, width: 920, height: 720 });
    assert!(work_area_for_origin(&[], 0, 0).is_none());
    assert_eq!(work_areas(&displays), vec![area]);
}

#[test]
fn fullscreen_tolerance_is_inclusive() {
    let displays = vec![display("main", 0, 0, 1000, 800, 0)];
    let almost = WorkArea { x: 2, y: 2, width: 996, height: 796 };
    assert!(is_fullscreen_over_any_display(almost, &displays, 2));
    let short = WorkArea { x: 3, y: 0, width: 997, height: 800 };
    assert!(!is_fullscreen_over_any_display(short, &displays, 2));
}
