use compositor_slint::cursor::{effective_zone, Coord, HitZone};
use compositor_slint::resize::{
    compute_move, compute_resize, move_target, resize_step, ActiveDrag, ResizeEdge, ShellBands, SizeHints,
    WindowGeomSnapshot, MIN_WINDOW_SIZE,
};
use compositor_slint::snap::{detect, tiled_states, untiled, SnapRect, SnapZone, TiledStates, WorkArea};

const START_PTR_X: f64 = 100.0;
const START_PTR_Y: f64 = 100.0;

fn make_resize_drag(edge: ResizeEdge) -> ActiveDrag {
    ActiveDrag::Resize {
        toplevel_idx: 0,
        edge,
        start_geom: WindowGeomSnapshot { x: 50, y: 50, w: 400, h: 300 },
        last_configure_at: None,
        dock_snapped: false,
    }
}

fn resized(edge: ResizeEdge, ptr_x: f64, ptr_y: f64) -> (i32, i32, i32, i32) {
    let drag = make_resize_drag(edge);
    compute_resize(&drag, (ptr_x - START_PTR_X) as i32, (ptr_y - START_PTR_Y) as i32).unwrap()
}

#[test]
fn test_resize_east() {
    let (nx, ny, nw, nh) = resized(ResizeEdge::East, 150.0, 100.0);
    assert_eq!(nx, 50);
    assert_eq!(ny, 50);
    assert_eq!(nw, 450);
    assert_eq!(nh, 300);
}

#[test]
fn test_resize_west_clamp() {
    // Dragging so far right that the width would be negative keeps the minimum.
    let (nx, _ny, nw, _nh) = resized(ResizeEdge::West, 500.0, 100.0);
    assert_eq!(nw, MIN_WINDOW_SIZE);
    assert_eq!(nx, 50 + 400 - MIN_WINDOW_SIZE);
}

#[test]
fn test_resize_se_corner() {
    let (nx, ny, nw, nh) = resized(ResizeEdge::SouthEast, 120.0, 130.0);
    assert_eq!(nx, 50);
    assert_eq!(ny, 50);
    assert_eq!(nw, 420);
    assert_eq!(nh, 330);
}

#[test]
fn test_move() {
    let drag = ActiveDrag::Move { toplevel_idx: 0, pending_unmaximize: false };
    let (offset_x, offset_y) = (10.0, 15.0);
    let (nx, ny) = compute_move(&drag, (210.0 - offset_x) as i32, (215.0 - offset_y) as i32).unwrap();
    assert_eq!(nx, 200);
    assert_eq!(ny, 200);
}

#[test]
fn a_drag_of_the_other_sort_computes_nothing() {
    let resize = make_resize_drag(ResizeEdge::North);
    let carry = ActiveDrag::Move { toplevel_idx: 0, pending_unmaximize: false };
    assert_eq!(compute_move(&resize, 1, 2), None);
    assert_eq!(compute_resize(&carry, 1, 2), None);
}

#[test]
fn resizing_to_the_north_moves_the_top() {
    assert_eq!(resized(ResizeEdge::North, 100.0, 80.0), (50, 30, 400, 320));
    assert_eq!(resized(ResizeEdge::NorthWest, 90.0, 90.0), (40, 40, 410, 310));
}

#[test]
fn a_resize_never_exceeds_the_largest_size() {
    let (_, _, w, h) = resized(ResizeEdge::SouthEast, 100_000.0, 100_000.0);
    assert_eq!((w, h), (8192, 8192));
}

#[test]
fn zones_map_to_edges() {
    assert_eq!(ResizeEdge::from_zone(HitZone::EdgeNorth), Some(ResizeEdge::North));
    assert_eq!(ResizeEdge::from_zone(HitZone::CornerSW), Some(ResizeEdge::SouthWest));
    assert_eq!(ResizeEdge::from_zone(HitZone::TitleBar), None);
}

#[test]
fn a_maximized_window_cannot_be_resized() {
    assert!(HitZone::EdgeEast.is_resize_zone());
    assert!(!effective_zone(HitZone::EdgeEast, true).is_resize_zone());
    assert_eq!(effective_zone(HitZone::CloseButton, true), HitZone::CloseButton);
}

#[test]
fn a_moved_window_stays_reachable() {
    // Never above the panel, and never wholly below the output.
    assert_eq!(move_target(10, -50, 36, 960), (10, 36));
    let (_, y) = move_target(10, 5000, 36, 960);
    assert!(y < 960);
    assert_eq!(move_target(10, 200, 36, 960), (10, 200));
}

#[test]
fn a_resize_step_is_configured_at_most_once_per_interval() {
    let drag = make_resize_drag(ResizeEdge::East);
    let bands = ShellBands { panel_h: 36, dock_top: 900 };
    let hints = SizeHints { min_w: 0, min_h: 0, max_w: 0, max_h: 0 };
    let first = resize_step(&drag, 50, 0, bands, hints, false, 0).unwrap();
    assert!(first.send_configure);
    assert_eq!(first.geometry, WindowGeomSnapshot { x: 50, y: 50, w: 450, h: 300 });
    let soon = resize_step(&first.drag, 60, 0, bands, hints, false, 1_000_000).unwrap();
    assert!(!soon.send_configure);
    let later = resize_step(&first.drag, 60, 0, bands, hints, false, 16_000_000).unwrap();
    assert!(later.send_configure);
}

fn at(v: i64) -> Coord {
    Coord { floor: v, ceil: v }
}

#[test]
fn the_edges_of_the_work_area_snap() {
    let area = WorkArea { x: 0, y: 36, w: 1280, h: 840 };
    let zone = |x: i64, y: i64| detect(at(x), at(y), area).map(|(z, _)| z);
    assert_eq!(zone(640, 36), Some(SnapZone::Maximize));
    assert_eq!(zone(0, 456), Some(SnapZone::LeftHalf));
    assert_eq!(zone(1279, 456), Some(SnapZone::RightHalf));
    assert_eq!(zone(640, 456), None);
}

#[test]
fn halves_and_the_whole_cover_the_work_area() {
    let area = WorkArea { x: 0, y: 36, w: 1280, h: 840 };
    assert_eq!(
        detect(at(640), at(36), area),
        Some((SnapZone::Maximize, SnapRect { x: 0, y: 36, w: 1280, h: 840 }))
    );
    assert_eq!(
        detect(at(0), at(456), area),
        Some((SnapZone::LeftHalf, SnapRect { x: 0, y: 36, w: 640, h: 840 }))
    );
}

#[test]
fn tiled_windows_know_their_neighbours() {
    assert_eq!(
        tiled_states(SnapZone::LeftHalf),
        TiledStates { left: true, right: false, top: true, bottom: true, maximized: false }
    );
    assert_eq!(
        tiled_states(SnapZone::BottomRightQuarter),
        TiledStates { left: false, right: true, top: false, bottom: true, maximized: false }
    );
    assert!(tiled_states(SnapZone::Maximize).maximized);
    assert!(!untiled().maximized);
}
