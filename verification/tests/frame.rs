use std::collections::HashMap;

use compositor_slint::debug::{DebugInfo, WindowLook};
use compositor_slint::focus::KeyForward;
use compositor_slint::frame::{focused_surface, update_popups, ClosedWindow};
use compositor_slint::keyboard::PendingKeyEvent;
use compositor_slint::layer_shell::Area;
use compositor_slint::pixels::ClientSurfaceData;
use compositor_slint::rows::RowOp;
use compositor_slint::resize::{ActiveDrag, ResizeEdge, WindowGeomSnapshot};
use compositor_slint::shell::{Shell, ShellMetrics};
use compositor_slint::snap::WorkArea;
use compositor_slint::state::{PopupInfo, SpikeState};
use compositor_slint::text::push_number;
use compositor_slint::theme::{AutoConfig, ThemeMode, ThemeState};
use compositor_slint::window_items::{ImageCache, ToplevelProps};
use compositor_slint::windows::WindowState;

fn area(x: i32, y: i32, w: i32, h: i32) -> Area {
    Area { x, y, w, h }
}

fn shell() -> Shell {
    let metrics = ShellMetrics { panel_h: 32, dock_h: 84, titlebar_h: 30, edge: 8 };
    let work_area = WorkArea { x: 0, y: 32, w: 1000, h: 684 };
    Shell::new(1000, 800, metrics, work_area)
}

fn window(id: i32, surface: u64, rect: Area) -> WindowState {
    WindowState {
        id,
        surface,
        shown: rect,
        rect,
        geom: rect,
        z_order: id,
        focused: false,
        minimized: false,
        maximized: false,
        closing: false,
        csd: false,
        settled: true,
        sizing: false,
        awaiting_first_render: true,
        alt_tab_selected: false,
        pre_maximize: None,
        pre_snap: None,
        title: String::new(),
        app_id: String::new(),
    }
}

fn popup(surface: u64, parent: u64) -> PopupInfo {
    PopupInfo {
        surface,
        parent,
        rel: area(10, 20, 30, 40),
        initial_configure_sent: true,
        pixels: image(30, 40),
        surface_pixels: HashMap::new(),
        geom: area(0, 0, 0, 0),
    }
}

fn image(width: u32, height: u32) -> ClientSurfaceData {
    ClientSurfaceData {
        pixels: vec![9; (width * height * 4) as usize],
        width,
        height,
        dirty: true,
        version: 1,
        last_commit: None,
    }
}

fn props(geometry: Area, title: &str, app_id: &str) -> ToplevelProps {
    ToplevelProps {
        geometry,
        title: Some(title.to_string()),
        app_id: app_id.to_string(),
        resize_pending: false,
    }
}

#[test]
fn closed_windows_are_dropped() {
    let mut state = SpikeState::new();
    state.new_toplevel(1);
    state.new_toplevel(2);
    state.new_toplevel(3);
    let mut windows = vec![window(1, 1, area(0, 0, 9, 9)), window(3, 3, area(0, 0, 9, 9))];
    windows[1].focused = true;
    let closed = vec![ClosedWindow { surface: 2, id: 2 }];
    assert_eq!(state.drop_closed(&closed, &windows), Some(3));
    let left: Vec<u64> = state.toplevels.iter().map(|t| t.surface).collect();
    assert_eq!(left, vec![1, 3]);
    assert_eq!(state.active_surface, Some(3));
    state.active_surface = Some(1);
    assert_eq!(state.drop_closed(&Vec::new(), &windows), None);
    assert_eq!(state.active_surface, Some(1));
}

#[test]
fn the_focused_window_has_the_focus() {
    let mut state = SpikeState::new();
    let mut windows = vec![window(1, 10, area(0, 0, 9, 9)), window(2, 20, area(0, 0, 9, 9))];
    assert_eq!(focused_surface(&windows), None);
    windows[1].focused = true;
    assert_eq!(state.update_focused_surface(&windows), Some(20));
    assert_eq!(state.active_surface, Some(20));
}

#[test]
fn closed_windows_lose_their_focus_level() {
    let mut theme = ThemeState::new(AutoConfig { auto_times: None, explicit_mode: None });
    theme.focus_values.insert(1, 0);
    theme.focus_values.insert(2, 0);
    theme.set_window_focused(1, true);
    theme.set_window_focused(2, true);
    assert_eq!(theme.window_tweens.len(), 2);
    theme.forget_windows(&vec![ClosedWindow { surface: 7, id: 1 }]);
    assert!(!theme.focus_values.contains_key(&1));
    assert!(theme.focus_values.contains_key(&2));
    assert_eq!(theme.window_tweens.len(), 1);
    assert_eq!(theme.window_tweens[0].window_id, 2);
}

#[test]
fn windows_learn_what_clients_committed() {
    let mut state = SpikeState::new();
    state.new_toplevel(1);
    state.toplevels[0].pixels = image(40, 30);
    let mut s = shell();
    s.windows.push(window(5, 1, area(100, 100, 1, 1)));
    s.windows[0].focused = true;
    let p = vec![props(area(2, 3, 30, 20), "Notes", "org.example.Notes")];
    let told = s.describe_windows(&state, &p);
    assert_eq!(told.opening, vec![5]);
    assert!(!s.windows[0].awaiting_first_render);
    assert_eq!(s.windows[0].app_id, "org.example.Notes");
    assert_eq!(s.windows[0].geom, area(2, 3, 30, 20));
    assert_eq!(told.metas[0].unwrap().geom, area(2, 3, 30, 20));
    let drawn = s.draw_windows(&state, &p, &told.metas);
    assert_eq!(drawn.items.len(), 1);
    assert_eq!(drawn.items[0].id, 5);
    assert_eq!(drawn.title, "Notes");
    let again = s.describe_windows(&state, &p);
    assert!(again.opening.is_empty());
}

#[test]
fn a_dragged_window_keeps_the_size_of_the_drag() {
    let mut state = SpikeState::new();
    state.new_toplevel(1);
    state.toplevels[0].pixels = image(40, 30);
    let mut s = shell();
    s.windows.push(window(5, 1, area(100, 100, 40, 30)));
    let p = vec![props(area(0, 0, 40, 30), "Notes", "")];
    let free = s.describe_windows(&state, &p);
    assert_eq!(free.sizes.len(), 1);
    s.active_drag = Some(ActiveDrag::Resize {
        toplevel_idx: 0,
        edge: ResizeEdge::South,
        start_geom: WindowGeomSnapshot { x: 100, y: 100, w: 40, h: 30 },
        last_configure_at: None,
        dock_snapped: false,
    });
    let held = s.describe_windows(&state, &p);
    assert!(held.sizes.is_empty());
}

#[test]
fn a_new_mode_is_announced_once() {
    let mut s = shell();
    s.handle_host_resize(1280, 720, None);
    assert_eq!(s.take_output_mode(), Some((1280, 720, 60_000)));
    assert_eq!(s.take_output_mode(), None);
}

#[test]
fn keys_follow_the_focus() {
    let mut state = SpikeState::new();
    let key = PendingKeyEvent { scancode: 30, pressed: true };
    assert_eq!(state.forward_keyboard_event(key, None, None), None);
    state.active_surface = Some(4);
    let sent = KeyForward { surface: 4, set_focus: true, keycode: 38, pressed: true };
    assert_eq!(state.forward_keyboard_event(key, None, Some(9)), Some(sent));
    let sent = KeyForward { set_focus: false, ..sent };
    assert_eq!(state.forward_keyboard_event(key, None, Some(4)), Some(sent));
}

#[test]
fn numbers_are_written_in_decimal() {
    for n in [0, 7, 10, 99, 100, 1234567890, -1, -40, i64::MAX] {
        let mut out = "n".to_string();
        push_number(&mut out, n);
        assert_eq!(out, format!("n{}", n));
    }
}

#[test]
fn the_debug_text_lists_the_windows_by_id() {
    let mut s = shell();
    s.windows.push(window(7, 1, area(10, -20, 300, 200)));
    s.windows.push(window(3, 2, area(0, 0, 5, 6)));
    s.windows[0].focused = true;
    s.windows[1].awaiting_first_render = false;
    let info = DebugInfo {
        mode: ThemeMode::Light,
        mode_level: "1.00".to_string(),
        frames: 1200,
        fps: "59.9".to_string(),
        cursor: "Arrow".to_string(),
        pointer_x: "4".to_string(),
        pointer_y: "5".to_string(),
        drag: None,
    };
    let look = |v: &str| WindowLook { opacity: v.to_string(), scale: "1.00".to_string() };
    let text = s.build_debug_dump(&info, &vec![look("0.50"), look("0.25")]);
    let expected = "theme: Light  mode_t=1.00\n\
        output: 1000\u{d7}800\n\
        frames: 1200  fps: 59.9\n\
        cursor: Arrow at (4,5)\n\
        drag: none\n\
        \nWindows (2):\n\
        \x20 #3  z=3  5\u{d7}6+0+0  focus=false  min=false  max=false  closing=false\n\
        \x20       opacity=0.25  scale=1.00  awaiting_first=false\n\
        \x20 #7  z=7  300\u{d7}200+10+-20  focus=true  min=false  max=false  closing=false\n\
        \x20       opacity=0.50  scale=1.00  awaiting_first=true\n\
        \nKeys: Super+T theme  Super+I debug  Super+W close  Super+M min\n\
        \x20     Super+D show-desktop  Super+/ help  Esc dismiss\n";
    assert_eq!(text, expected);
}

#[test]
fn an_update_draws_and_orders_the_windows() {
    let mut state = SpikeState::new();
    state.new_toplevel(1);
    state.new_toplevel(2);
    state.toplevels[0].pixels = image(40, 30);
    state.toplevels[1].pixels = image(40, 30);
    let mut theme = ThemeState::new(AutoConfig { auto_times: None, explicit_mode: None });
    let mut s = shell();
    s.windows.push(window(5, 1, area(100, 100, 40, 30)));
    s.windows.push(window(3, 2, area(100, 100, 40, 30)));
    s.windows[0].focused = true;
    let p = vec![props(area(0, 0, 40, 30), "Notes", ""), props(area(0, 0, 40, 30), "Mail", "")];
    let mut images = ImageCache::empty();
    let first = s.update_windows(&mut theme, &state, &p, &mut images, &Vec::new());
    assert_eq!(first.described.opening, vec![5, 3]);
    assert_eq!(first.drawn.items.iter().map(|i| i.id).collect::<Vec<i32>>(), vec![3, 5]);
    assert_eq!(first.drawn.title, "Notes");
    assert_eq!(first.ops.len(), 2);
    assert_eq!(first.rebuild, vec![true, true]);
    state.toplevels[0].pixels.version += 1;
    assert_eq!(theme.window_tweens.len(), 2);
    let again = s.update_windows(&mut theme, &state, &p, &mut images, &vec![3, 5]);
    assert!(again.ops.iter().all(|op| matches!(op, RowOp::Update { .. })));
    assert_eq!(theme.window_tweens.len(), 2);
    assert_eq!(again.rebuild, vec![false, true]);
    let closed = s.update_windows(&mut theme, &state, &p, &mut images, &vec![3, 9, 5]);
    assert_eq!(closed.ops[0], RowOp::Remove { at: 1 });
}

#[test]
fn images_of_gone_windows_are_forgotten() {
    let mut state = SpikeState::new();
    state.new_toplevel(1);
    state.new_toplevel(2);
    state.toplevels[0].pixels = image(40, 30);
    state.toplevels[1].pixels = image(40, 30);
    let mut theme = ThemeState::new(AutoConfig { auto_times: None, explicit_mode: None });
    let mut s = shell();
    s.windows.push(window(5, 1, area(100, 100, 40, 30)));
    s.windows.push(window(3, 2, area(100, 100, 40, 30)));
    let p = vec![props(area(0, 0, 40, 30), "", ""), props(area(0, 0, 40, 30), "", "")];
    let mut images = ImageCache::empty();
    images.refresh(9, 4);
    // One image for two windows is kept, whatever it belongs to.
    assert!(images.refresh_all(&Vec::new(), &s.windows).is_empty());
    assert_eq!(images.ids, vec![9]);
    s.update_windows(&mut theme, &state, &p, &mut images, &Vec::new());
    // A third one is too many: the one without a window goes.
    assert_eq!(images.ids.len(), 2);
    assert!(!images.ids.contains(&9));
    assert!(images.ids.contains(&5) && images.ids.contains(&3));
}

#[test]
fn popups_are_listed_and_synced() {
    let mut state = SpikeState::new();
    state.new_toplevel(1);
    state.popups.push(popup(7, 1));
    let windows = vec![window(5, 1, area(100, 100, 40, 30))];
    let placed = vec![Some(area(10, 20, 30, 40))];
    let first = update_popups(&state, &placed, &windows, 30, &vec![4]);
    assert_eq!(first.items.len(), 1);
    assert_eq!((first.items[0].id, first.items[0].x, first.items[0].y), (0, 110, 150));
    assert_eq!(first.ops, vec![RowOp::Remove { at: 0 }, RowOp::Insert { at: 0, item: 0 }]);
    let again = update_popups(&state, &placed, &windows, 30, &vec![0]);
    assert_eq!(again.ops, vec![RowOp::Update { at: 0, item: 0 }]);
    let gone = update_popups(&state, &vec![None], &windows, 30, &vec![0]);
    assert_eq!(gone.ops, vec![RowOp::Remove { at: 0 }]);
}
