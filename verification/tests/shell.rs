use compositor_slint::actions::{client_route, ClientRoute, WmStep};
use compositor_slint::buttons::{
    forward_pointer_axis, scroll_event, touch_events, winit_button_to_evdev, AxisParts, ButtonInput, FocusChange,
    MouseButton, MouseOutcome, PendingPointerEvent, TouchPhase,
};
use compositor_slint::cursor::{Coord, HitZone};
use compositor_slint::dock::pinned_entry;
use compositor_slint::drag::{PointerMotion, StateChange};
use compositor_slint::hotkeys::{KeyInput, KeyRole, KEY_ESC, KEY_LEFTMETA, KEY_SPACE, KEY_T, KEY_W};
use compositor_slint::ipc::{align_toplevels, sync_new_toplevels, IpcCommand};
use compositor_slint::layer_shell::Area;
use compositor_slint::menu::{
    compute_menu_height, place_menu, Menu, MenuBounds, MenuItem, KEY_DOWN, KEY_ENTER, KEY_UP, NO_ROW,
};
use compositor_slint::panel::{desktop_menu_items, window_menu_items};
use compositor_slint::resize::{ActiveDrag, ResizeEdge, SizeHints, WindowGeomSnapshot};
use compositor_slint::shell::{DockAction, MenuClick, MenuKind, PendingSnap, Shell, ShellMetrics};
use compositor_slint::snap::{SnapRect, SnapZone, WorkArea};
use compositor_slint::state::SpikeState;
use compositor_slint::windows::WindowState;

fn shell() -> Shell {
    let metrics = ShellMetrics { panel_h: 36, dock_h: 84, titlebar_h: 33, edge: 6 };
    Shell::new(1280, 960, metrics, WorkArea { x: 0, y: 36, w: 1280, h: 840 })
}

fn window(id: i32, surface: u64, x: i32, y: i32, w: i32, h: i32) -> WindowState {
    let area = Area { x, y, w, h };
    WindowState {
        id,
        surface,
        shown: area,
        rect: area,
        geom: Area { x: 0, y: 0, w, h },
        z_order: id,
        focused: false,
        minimized: false,
        maximized: false,
        closing: false,
        csd: false,
        settled: true,
        sizing: false,
        awaiting_first_render: false,
        alt_tab_selected: false,
        pre_maximize: None,
        pre_snap: None,
        title: String::new(),
        app_id: String::new(),
    }
}

fn key(scancode: u32, pressed: bool) -> KeyInput {
    KeyInput { scancode, pressed, role: KeyRole::Other }
}

fn spot(v: i64) -> Coord {
    Coord { floor: v, ceil: v }
}

fn item(id: i32, separator: bool, enabled: bool) -> MenuItem {
    MenuItem { id, label: String::new(), accelerator: String::new(), separator, enabled }
}

#[test]
fn a_plain_key_goes_to_clients() {
    let mut s = shell();
    let r = s.handle_key(key(30, true), None);
    assert!(!r.consumed);
    assert_eq!(s.pending_keys.len(), 1);
    assert_eq!(s.pending_keys[0].scancode, 30);
}

#[test]
fn super_t_toggles_the_theme_and_keeps_its_release() {
    let mut s = shell();
    s.handle_key(key(KEY_LEFTMETA, true), None);
    s.pending_keys.clear();
    let press = s.handle_key(key(KEY_T, true), None);
    assert!(press.toggle_theme);
    assert!(press.consumed);
    let release = s.handle_key(key(KEY_T, false), None);
    assert!(release.consumed);
    assert!(!release.toggle_theme);
    assert!(s.pending_keys.is_empty());
}

#[test]
fn super_w_closes_the_focused_window() {
    let mut s = shell();
    s.handle_key(key(KEY_LEFTMETA, true), None);
    s.handle_key(key(KEY_W, true), Some(4));
    assert_eq!(s.pending_close, vec![4]);
}

#[test]
fn an_inhibitor_turns_shortcuts_off() {
    let mut s = shell();
    s.shortcuts_inhibited = true;
    s.handle_key(key(KEY_LEFTMETA, true), None);
    let r = s.handle_key(key(KEY_T, true), None);
    assert!(!r.toggle_theme);
    assert!(!r.consumed);
    assert_eq!(s.pending_keys.len(), 2);
}

#[test]
fn a_new_shell_shows_nothing_open() {
    let s = shell();
    assert!(!s.ui.launcher_open);
    assert!(!s.ui.datetime_popout_open && !s.ui.control_centre_open);
    assert!(!s.ui.help_overlay_visible && !s.ui.debug_overlay_visible);
    assert!(s.ui.dock_menu_app_id.is_empty() && s.ui.launcher_query.is_empty());
    assert!(s.pending_dock_action.is_empty());
    assert!(s.windows.is_empty());
}

#[test]
fn escape_closes_what_is_open() {
    let mut s = shell();
    s.handle_key(key(KEY_LEFTMETA, true), None);
    s.handle_key(key(KEY_SPACE, true), None);
    assert!(s.ui.launcher_open);
    s.handle_key(key(KEY_LEFTMETA, false), None);
    let r = s.handle_key(key(KEY_ESC, true), None);
    assert!(r.consumed);
    assert!(!s.ui.launcher_open);
}

#[test]
fn alt_tab_steps_and_commits() {
    let mut s = shell();
    s.handle_key(KeyInput { scancode: 56, pressed: true, role: KeyRole::Alt }, None);
    s.handle_key(KeyInput { scancode: 15, pressed: true, role: KeyRole::Tab }, None);
    assert_eq!(s.pending_alt_tab_step, 1);
    s.handle_key(KeyInput { scancode: 56, pressed: false, role: KeyRole::Alt }, None);
    assert!(s.pending_alt_tab_commit);
    assert_eq!(
        s.process_wm_actions(&Vec::new(), false),
        vec![WmStep::AltTabStart, WmStep::AltTabCommit, WmStep::SyncFocus]
    );
    assert_eq!(s.pending_alt_tab_step, 0);
}

#[test]
fn menus_are_as_high_as_their_rows() {
    assert_eq!(compute_menu_height(&Vec::new()), 40);
    let items = vec![item(1, false, true), item(-1, true, false), item(2, false, true)];
    assert_eq!(compute_menu_height(&items), 12 + 28 + 7 + 28);
}

#[test]
fn menus_stay_on_the_output() {
    let b = MenuBounds { output_w: 1280, output_h: 960, panel_h: 36, dock_h: 84 };
    let p = place_menu(spot(1270), spot(940), 100, b);
    assert!(p.x + 220 <= 1280);
    assert!(p.y + 100 <= 960);
    let q = place_menu(spot(300), spot(300), 100, b);
    assert_eq!((q.x, q.y), (300, 300));
}

#[test]
fn arrows_skip_rows_that_cannot_be_picked() {
    let mut m = Menu::empty();
    m.items = vec![item(1, false, true), item(-1, true, false), item(2, false, false), item(3, false, true)];
    m.open = true;
    assert_eq!(m.selected, NO_ROW);
    assert_eq!(m.navigate(KEY_DOWN), None);
    assert_eq!(m.selected, 0);
    m.navigate(KEY_DOWN);
    assert_eq!(m.selected, 3);
    m.navigate(KEY_UP);
    assert_eq!(m.selected, 0);
    assert_eq!(m.navigate(KEY_ENTER), Some(1));
}

#[test]
fn a_menu_takes_the_arrow_keys() {
    let mut s = shell();
    s.ui.desktop_menu.items = desktop_menu_items();
    s.ui.open_desktop_menu(spot(100), spot(100), s.menu_bounds());
    let r = s.handle_key(key(KEY_DOWN, true), None);
    assert!(r.consumed);
    assert_eq!(s.ui.desktop_menu.selected, 0);
    assert!(s.pending_keys.is_empty());
}

#[test]
fn a_right_click_closes_an_open_menu() {
    let mut s = shell();
    s.ui.desktop_menu.items = desktop_menu_items();
    s.ui.open_desktop_menu(spot(100), spot(100), s.menu_bounds());
    assert_eq!(s.handle_mouse_button(MouseButton::Right, true), MouseOutcome::Dismissed);
    assert!(!s.ui.desktop_menu.open);
    assert_eq!(s.handle_mouse_button(MouseButton::Right, true), MouseOutcome::Queued(0x111));
}

#[test]
fn an_open_overlay_captures_clicks() {
    let mut s = shell();
    s.ui.help_overlay_visible = true;
    assert_eq!(s.handle_mouse_button(MouseButton::Left, true), MouseOutcome::Captured);
    assert!(s.left_button_down);
}

#[test]
fn buttons_have_their_codes() {
    assert_eq!(winit_button_to_evdev(MouseButton::Left), 0x110);
    assert_eq!(winit_button_to_evdev(MouseButton::Middle), 0x112);
    assert_eq!(winit_button_to_evdev(MouseButton::Back), 0x116);
    assert_eq!(winit_button_to_evdev(MouseButton::Forward), 0x115);
    assert_eq!(winit_button_to_evdev(MouseButton::Other(9)), 0x110);
}

#[test]
fn touches_end_with_a_frame() {
    let events = touch_events(3, TouchPhase::Started, (1.5, 2.5));
    assert_eq!(events.len(), 2);
    assert!(matches!(events[0], PendingPointerEvent::TouchDown { slot: 3, .. }));
    assert!(matches!(events[1], PendingPointerEvent::TouchFrame));
    assert!(touch_events(u64::MAX, TouchPhase::Moved, (0.0, 0.0)).is_empty());
}

#[test]
fn a_wheel_counts_its_notches_the_other_way() {
    let e = scroll_event((0.0, 15.0), Some((0, 120)));
    match e {
        PendingPointerEvent::Axis { discrete_v120, is_wheel, .. } => {
            assert_eq!(discrete_v120, Some((0, -120)));
            assert!(is_wheel);
        },
        _ => unreachable!(),
    }
}

#[test]
fn a_scroll_tells_the_axes_that_move() {
    assert_eq!(forward_pointer_axis(false, false, Some((1, 1)), true), None);
    assert_eq!(
        forward_pointer_axis(false, true, Some((0, -120)), true),
        Some(AxisParts { horizontal: false, vertical: true, notches_x: None, notches_y: Some(-120), wheel: true })
    );
}

#[test]
fn the_output_follows_the_host_window() {
    let mut s = shell();
    s.handle_host_resize(0, 700, Some(144_000));
    assert_eq!((s.output_w, s.output_h), (1, 700));
    assert_eq!(s.pending_output_mode, Some((1, 700, 144_000)));
    s.handle_host_resize(800, 600, None);
    assert_eq!(s.pending_output_mode, Some((800, 600, 60_000)));
}

fn click(button: u32, pressed: bool, clicked: Option<u64>) -> ButtonInput {
    ButtonInput {
        button,
        pressed,
        x: spot(300),
        x2: spot(600),
        y: spot(300),
        clicked,
        title_bar: None,
        window: None,
        pointer_focus: None,
        dock_slots: 4,
        tree: None,
    }
}

#[test]
fn a_click_focuses_the_window_below() {
    let mut s = shell();
    let mut state = SpikeState::new();
    state.new_toplevel(1);
    state.new_toplevel(2);
    s.windows.push(window(10, 1, 100, 100, 400, 300));
    s.windows.push(window(11, 2, 600, 100, 400, 300));
    let r = s.forward_pointer_button(&mut state, click(0x110, true, Some(1)));
    assert_eq!(r.focus, FocusChange::Give(1));
    assert_eq!(state.active_surface, Some(1));
}

#[test]
fn a_click_on_nothing_clears_the_focus() {
    let mut s = shell();
    let mut state = SpikeState::new();
    state.new_toplevel(1);
    s.windows.push(window(10, 1, 900, 100, 100, 100));
    s.windows[0].focused = true;
    let r = s.forward_pointer_button(&mut state, click(0x110, true, None));
    assert_eq!(r.focus, FocusChange::Clear);
    assert_eq!(state.active_surface, None);
    assert!(!s.windows[0].focused);
}

fn motion(x: i64, y: i64, hit: Option<HitZone>) -> PointerMotion {
    PointerMotion {
        x: spot(x),
        y: spot(y),
        travel_x: 0,
        travel_y: 0,
        broke_out: false,
        carried_x: 0,
        carried_y: 0,
        past_unmaximize: false,
        restored_x: 0,
        restored_y: 0,
        hints: SizeHints { min_w: 0, min_h: 0, max_w: 0, max_h: 0 },
        now: 0,
        hit,
    }
}

#[test]
fn pressing_the_title_bar_begins_a_move() {
    let mut s = shell();
    let mut state = SpikeState::new();
    state.new_toplevel(1);
    s.windows.push(window(10, 1, 100, 100, 400, 300));
    s.left_button_down = true;
    let r = s.handle_pointer_update(&mut state, motion(200, 110, Some(HitZone::TitleBar)));
    assert!(r.drag_began);
    assert!(matches!(s.active_drag, Some(ActiveDrag::Move { toplevel_idx: 0, .. })));
}

#[test]
fn a_move_carries_the_window() {
    let mut s = shell();
    let mut state = SpikeState::new();
    state.new_toplevel(1);
    s.windows.push(window(10, 1, 100, 100, 400, 300));
    s.left_button_down = true;
    s.active_drag = Some(ActiveDrag::Move { toplevel_idx: 0, pending_unmaximize: false });
    let mut m = motion(400, 400, None);
    m.carried_x = 250;
    m.carried_y = 260;
    let r = s.handle_pointer_update(&mut state, m);
    assert_eq!(r.moved, Some(1));
    assert_eq!((state.toplevels[0].x, state.toplevels[0].y), (250, 260));
    assert_eq!((s.windows[0].rect.x, s.windows[0].rect.y), (250, 260));
    assert_eq!(state.toplevels.len(), 1);
}

#[test]
fn releasing_a_resize_tells_the_client() {
    let mut s = shell();
    let mut state = SpikeState::new();
    state.new_toplevel(1);
    s.windows.push(window(10, 1, 100, 100, 400, 300));
    s.active_drag = Some(ActiveDrag::Resize {
        toplevel_idx: 0,
        edge: ResizeEdge::East,
        start_geom: WindowGeomSnapshot { x: 100, y: 100, w: 400, h: 300 },
        last_configure_at: None,
        dock_snapped: false,
    });
    let c = s.release_drag(&state).unwrap();
    assert_eq!((c.surface, c.w, c.h), (1, 400, 300));
    assert_eq!(c.change, StateChange::Resizing(false));
    assert!(s.active_drag.is_none());
}

#[test]
fn a_pending_snap_is_applied_once() {
    let mut s = shell();
    let mut state = SpikeState::new();
    state.new_toplevel(1);
    s.windows.push(window(10, 1, 100, 100, 400, 300));
    s.pending_snap = Some(PendingSnap {
        window_id: 10,
        zone: SnapZone::LeftHalf,
        rect: SnapRect { x: 0, y: 36, w: 640, h: 840 },
    });
    let done = s.apply_pending_snap(&mut state).unwrap();
    assert_eq!(done.surface, 1);
    assert_eq!(s.windows[0].rect, Area { x: 0, y: 36, w: 640, h: 840 });
    assert_eq!(s.windows[0].pre_snap, Some(Area { x: 100, y: 100, w: 400, h: 300 }));
    assert_eq!((state.toplevels[0].x, state.toplevels[0].y), (0, 36));
    assert!(s.apply_pending_snap(&mut state).is_none());
}

#[test]
fn queued_actions_become_steps_in_order() {
    let mut s = shell();
    s.windows.push(window(10, 1, 0, 0, 10, 10));
    s.pending_close.push(10);
    s.pending_close.push(99);
    s.pending_minimize.push(10);
    let steps = s.process_wm_actions(&Vec::new(), false);
    assert_eq!(
        steps,
        vec![
            WmStep::SendClose(1),
            WmStep::BeginClose(10),
            WmStep::SyncFocus,
            WmStep::SyncFocus,
            WmStep::Minimize(10),
            WmStep::HideX11(1),
            WmStep::SyncFocus,
        ]
    );
    assert!(s.process_wm_actions(&Vec::new(), false).is_empty());
}

#[test]
fn quitting_closes_every_window_of_an_application() {
    let mut s = shell();
    s.windows.push(window(10, 1, 0, 0, 10, 10));
    s.windows.push(window(11, 2, 0, 0, 10, 10));
    s.pending_dock_action.push(DockAction { app_id: "kitty".to_string(), action: 5 });
    assert_eq!(
        s.process_wm_actions(&vec![vec![10, 11]], false),
        vec![
            WmStep::SendClose(1),
            WmStep::BeginClose(10),
            WmStep::SendClose(2),
            WmStep::BeginClose(11),
            WmStep::SyncFocus,
        ]
    );
}

#[test]
fn the_dock_menu_starts_or_defers() {
    let mut s = shell();
    let entries = vec![pinned_entry("kitty".to_string(), "Kitty".to_string(), "kitty -1".to_string())];
    let launch = s.dock_menu_clicked(&entries, "kitty", 1);
    assert_eq!(launch, Some("kitty -1".to_string()));
    assert!(s.pending_dock_action.is_empty());
    assert_eq!(s.dock_menu_clicked(&entries, "kitty", 2), None);
    assert_eq!(s.pending_dock_action.len(), 1);
    assert_eq!(s.pending_dock_action[0].app_id, "kitty");
    assert_eq!(s.pending_dock_action[0].action, 2);
}

#[test]
fn a_client_asks_to_be_resized() {
    let mut s = shell();
    let mut state = SpikeState::new();
    state.new_toplevel(1);
    s.windows.push(window(10, 1, 100, 100, 400, 300));
    s.left_button_down = true;
    state.resize_request(1, compositor_slint::xdg_shell::XdgResizeEdge::Right);
    s.process_xdg_requests(&mut state);
    assert!(matches!(s.active_drag, Some(ActiveDrag::Resize { edge: ResizeEdge::East, .. })));
    assert!(state.pending_xdg_resize.is_empty());
}

#[test]
fn clients_are_reached_over_their_protocol() {
    let mut state = SpikeState::new();
    state.new_toplevel(1);
    assert_eq!(client_route(&state, 1), Some(ClientRoute::Xdg(1)));
    assert_eq!(client_route(&state, 2), None);
}

#[test]
fn commands_move_and_type() {
    let mut s = shell();
    let mut state = SpikeState::new();
    state.new_toplevel(1);
    s.windows.push(window(10, 1, 100, 100, 400, 300));
    let cmds = vec![
        IpcCommand::MoveWindow { wm_id: 10, x: 5, y: 6 },
        IpcCommand::TypeText { text: "aB".to_string() },
        IpcCommand::CloseWindow { wm_id: 10 },
        IpcCommand::ResizeWindow { wm_id: 10, w: 50, h: 60 },
        IpcCommand::ActivateWindow { wm_id: 11 },
        IpcCommand::MinimizeWindow { wm_id: 12 },
        IpcCommand::KeyEvent { scancode: 30, pressed: true },
    ];
    let done = s.process_ipc_commands(&mut state, cmds);
    assert_eq!(done.len(), 7);
    assert_eq!(done[0].moved, Some(1));
    assert_eq!(done[3].configure.unwrap().w, 50);
    assert_eq!((state.toplevels[0].x, state.toplevels[0].y), (5, 6));
    assert_eq!(s.windows[0].rect, Area { x: 5, y: 6, w: 50, h: 60 });
    let codes: Vec<(u32, bool)> = s.pending_keys.iter().map(|k| (k.scancode, k.pressed)).collect();
    assert_eq!(
        codes,
        vec![(30, true), (30, false), (42, true), (48, true), (48, false), (42, false), (30, true)]
    );
    assert_eq!(s.pending_close, vec![10]);
    assert_eq!(s.pending_activate, vec![11]);
    assert_eq!(s.pending_minimize, vec![12]);
}

#[test]
fn a_remote_left_release_ends_the_drag() {
    let mut s = shell();
    let mut state = SpikeState::new();
    let press = s.handle_button(&mut state, 0x110, true);
    assert!(press.update_pointer);
    assert!(s.left_button_down);
    s.active_drag = Some(ActiveDrag::Move { toplevel_idx: 0, pending_unmaximize: false });
    let release = s.handle_button(&mut state, 0x110, false);
    assert!(!release.update_pointer);
    assert!(s.active_drag.is_none());
    assert!(!s.handle_button(&mut state, 0x111, true).update_pointer);
}

#[test]
fn every_window_is_managed() {
    let mut state = SpikeState::new();
    state.new_toplevel(1);
    state.new_toplevel(2);
    state.destroyed_surfaces.push(3);
    let windows = vec![window(10, 1, 0, 0, 10, 10), window(12, 3, 0, 0, 10, 10)];
    let sync = sync_new_toplevels(&mut state, &windows);
    assert_eq!(sync.add, vec![2]);
    assert_eq!(sync.close, vec![3]);
    assert!(state.destroyed_surfaces.is_empty());
}

#[test]
fn toplevels_follow_their_windows() {
    let mut state = SpikeState::new();
    state.new_toplevel(1);
    let mut windows = vec![window(10, 1, 0, 0, 10, 10)];
    windows[0].rect = Area { x: 77, y: 88, w: 10, h: 10 };
    windows[0].focused = true;
    align_toplevels(&mut state, &windows);
    assert_eq!((state.toplevels[0].x, state.toplevels[0].y), (77, 88));
}

#[test]
fn the_menu_of_a_window_takes_the_arrow_keys() {
    let mut s = shell();
    s.ui.window_menu.items = window_menu_items();
    let bounds = s.menu_bounds();
    s.ui.open_window_menu(7, spot(100), spot(100), bounds);
    assert!(s.handle_key(key(KEY_DOWN, true), None).consumed);
    assert!(s.handle_key(key(KEY_DOWN, false), None).consumed);
    assert_eq!(s.ui.window_menu.selected, 0);
    assert!(s.handle_key(key(KEY_UP, true), None).consumed);
    assert!(s.handle_key(key(KEY_UP, false), None).consumed);
    assert_eq!(s.ui.window_menu.selected, 3);
    assert!(s.pending_keys.is_empty());
    let r = s.handle_key(key(KEY_ENTER, true), None);
    assert_eq!(r.click, Some(MenuClick { menu: MenuKind::Window, id: 3 }));
    assert!(!s.ui.window_menu.open);
    let target = s.ui.window_menu_target_id;
    s.window_menu_clicked(target, 3);
    assert_eq!(s.pending_close, vec![7]);
}

#[test]
fn a_selection_that_the_new_rows_lack_is_stepped_from() {
    let mut m = Menu::empty();
    m.items = vec![item(1, false, true), item(2, false, true), item(3, false, true)];
    m.selected = 2;
    m.reload(vec![item(4, false, true)], 10, 20);
    assert!(m.open);
    assert_eq!(m.selected, 2);
    assert_eq!(m.navigate(KEY_ENTER), None);
    assert_eq!(m.navigate(KEY_UP), None);
    assert_eq!(m.selected, 0);
}
