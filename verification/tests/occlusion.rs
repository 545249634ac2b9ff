use x_desk::occlusion::{is_dock_occluded, Rect, RectArea};

fn rect(left: i32, top: i32, right: i32, bottom: i32) -> RectArea {
    RectArea { left, top, right, bottom }
}

fn win_rect(left: i32, top: i32, right: i32, bottom: i32) -> Rect {
    Rect { left, top, right, bottom }
}

#[test]
fn single_window_covering_dock_is_occluded() {
    assert!(is_dock_occluded(&win_rect(0, 0, 100, 100), &[rect(0, 0, 100, 100)]));
}

#[test]
fn multiple_windows_can_cover_dock_together() {
    assert!(is_dock_occluded(
        &win_rect(0, 0, 100, 100),
        &[rect(0, 0, 50, 100), rect(50, 0, 100, 100)]
    ));
}

#[test]
fn ninety_five_percent_covered_is_occluded() {
    assert!(is_dock_occluded(&win_rect(0, 0, 100, 100), &[rect(0, 0, 95, 100)]));
}

#[test]
fn ninety_four_percent_covered_is_visible() {
    assert!(!is_dock_occluded(&win_rect(0, 0, 100, 100), &[rect(0, 0, 94, 100)]));
}

#[test]
fn non_intersecting_window_does_not_occlude_dock() {
    assert!(!is_dock_occluded(&win_rect(0, 0, 100, 100), &[rect(100, 0, 200, 100)]));
}

#[test]
fn dock_regions_are_evaluated_independently() {
    let docks = [win_rect(0, 0, 100, 100), win_rect(100, 0, 200, 100)];
    let occluders = [rect(0, 0, 100, 100)];

    assert!(is_dock_occluded(&docks[0], &occluders));
    assert!(!is_dock_occluded(&docks[1], &occluders));
}

use x_desk::occlusion::{
    dock_occlusions, is_ignored_window_class, is_regular_visible_window, occluder_rect,
    should_post_occlusion_check, visible_area_after_occlusion, DockRegion, EVENT_OBJECT_CREATE,
};

#[test]
fn visible_area_counts_uncovered_cells_once() {
    let dock = rect(0, 0, 10, 10);
    assert_eq!(visible_area_after_occlusion(dock, &[]), 100);
    assert_eq!(visible_area_after_occlusion(dock, &[rect(0, 0, 5, 10), rect(0, 0, 5, 10)]), 50);
    assert_eq!(visible_area_after_occlusion(dock, &[rect(2, 2, 4, 4), rect(3, 3, 5, 5)]), 93);
    assert_eq!(visible_area_after_occlusion(dock, &[rect(-5, -5, 50, 50)]), 0);
}

#[test]
fn an_empty_dock_is_never_occluded() {
    assert!(!is_dock_occluded(&win_rect(10, 10, 10, 20), &[rect(0, 0, 100, 100)]));
}

#[test]
fn dock_occlusions_keep_dock_order() {
    let docks = [
        DockRegion { hwnd: 7, rect: win_rect(0, 0, 100, 100) },
        DockRegion { hwnd: 9, rect: win_rect(100, 0, 200, 100) },
    ];
    assert_eq!(dock_occlusions(&docks, &[rect(100, 0, 200, 100)]), vec![(7, false), (9, true)]);
}

#[test]
fn ignored_windows_do_not_occlude() {
    assert!(is_ignored_window_class("WorkerW"));
    assert!(is_ignored_window_class("X-Desk-Dock-Class"));
    assert!(!is_ignored_window_class("Notepad"));
    assert!(is_regular_visible_window(true, false, false, Some(0)));
    assert!(!is_regular_visible_window(true, false, false, Some(0x80)));
    assert!(!is_regular_visible_window(true, false, false, Some(0x20)));
    assert!(!is_regular_visible_window(true, true, false, Some(0)));
    assert!(!is_regular_visible_window(true, false, true, Some(0)));
    assert!(!is_regular_visible_window(true, false, false, None));
    assert!(!is_regular_visible_window(false, false, false, Some(0)));
}

#[test]
fn window_events_ask_for_checks() {
    assert!(should_post_occlusion_check(0x800B, false, 0, true, 0x8003));
    assert!(!should_post_occlusion_check(EVENT_OBJECT_CREATE, false, 0, true, 0x8003));
    assert!(!should_post_occlusion_check(0x800B, true, 1, true, 0x8003));
    assert!(!should_post_occlusion_check(0x800B, true, 0, false, 0x8003));
    assert!(!should_post_occlusion_check(0x800B, true, 0, true, 0));
}

#[test]
fn occluder_rects_come_from_regular_windows() {
    let r = win_rect(1, 2, 3, 4);
    assert_eq!(occluder_rect(false, true, Some("Notepad"), Some(r)), Some(rect(1, 2, 3, 4)));
    assert_eq!(occluder_rect(true, true, Some("Notepad"), Some(r)), None);
    assert_eq!(occluder_rect(false, false, Some("Notepad"), Some(r)), None);
    assert_eq!(occluder_rect(false, true, Some("Progman"), Some(r)), None);
    assert_eq!(occluder_rect(false, true, None, Some(r)), Some(rect(1, 2, 3, 4)));
    assert_eq!(occluder_rect(false, true, None, None), None);
    assert_eq!(occluder_rect(false, true, None, Some(win_rect(5, 5, 5, 9))), None);
}

#[test]
fn more_occluders_in_any_order() {
    let dock = win_rect(0, 0, 100, 100);
    let a = rect(0, 0, 60, 100);
    let b = rect(50, 0, 97, 100);
    let c = rect(96, 0, 100, 50);
    assert!(!is_dock_occluded(&dock, &[a]));
    assert!(is_dock_occluded(&dock, &[a, b]));
    assert!(is_dock_occluded(&dock, &[b, a]));
    assert!(is_dock_occluded(&dock, &[c, b, a]));
    assert_eq!(
        visible_area_after_occlusion(rect(0, 0, 100, 100), &[a, b, c]),
        visible_area_after_occlusion(rect(0, 0, 100, 100), &[c, a, b])
    );
}

#[test]
fn subtraction_gives_top_bottom_left_right_strips() {
    let parts = rect(0, 0, 10, 10).subtract(rect(2, 2, 8, 8));
    assert_eq!(
        parts,
        vec![rect(0, 0, 10, 2), rect(0, 8, 10, 10), rect(0, 2, 2, 8), rect(8, 2, 10, 8)]
    );
    assert_eq!(rect(0, 0, 10, 10).subtract(rect(5, -5, 20, 20)), vec![rect(0, 0, 5, 10)]);
    assert_eq!(rect(0, 0, 10, 10).subtract(rect(20, 20, 30, 30)), vec![rect(0, 0, 10, 10)]);
    assert!(rect(0, 0, 10, 10).subtract(rect(-1, -1, 11, 11)).is_empty());
}
