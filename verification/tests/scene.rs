use std::collections::HashMap;

use compositor_slint::cursor::Coord;
use compositor_slint::dock::{
    dock_app_ids, exec_for, find_app, launcher_submit, matches_pinned, pinned_entry, point_in_dock_pill,
    running_apps, update_dock_running, SearchKey,
};
use compositor_slint::keyboard::{ascii_to_scancode, repeat_info, RepeatInfo};
use compositor_slint::layer_shell::{Area, Layer};
use compositor_slint::order::order_by;
use compositor_slint::panel::{
    bar_entries, desktop_menu_items, dock_menu_items, focused_appmenu, pointer_image, submenu_items, tray_items,
    tray_menu_position, window_menu_items, AppMenuNode, PointerImage,
};
use compositor_slint::pixels::ClientSurfaceData;
use compositor_slint::popup::{
    client_popup_surface_under, layer_surface_under, popup_items, popup_rect, popup_surface_under, surface_under_full,
    x11_override_redirect_surface_under, SurfaceHit,
};
use compositor_slint::positioner::Positioner;
use compositor_slint::render::{
    clip, configure_surface, frame_passes, frame_size, lock_copy, overlays, record_frame, restack, texture_stale,
    windows_by_id, FrameClock, LockCopy, Pass, SurfaceFormat, TexelRect, TextureSize,
};
use compositor_slint::rows::{sync_rows, RowOp};
use compositor_slint::scene::{any_animating, refresh_backdrop, visible_surfaces, LayerScene, Overlays};
use compositor_slint::shell::{Shell, ShellMetrics};
use compositor_slint::snap::WorkArea;
use compositor_slint::state::{AppmenuAddress, CursorStatus, SpikeState};
use compositor_slint::surface_tree::{surface_items, tree_surfaces, Offset, TreeNode};
use compositor_slint::theme::ThemeMode;
use compositor_slint::tray::{apply_tray_event, clicked_item, RegisterError, TrayEvent, TrayItem, WatcherState};
use compositor_slint::wallpaper::{
    find_wallpaper_for_mode, find_wallpaper_path, looks_light, name_looks_light, starting_mode,
    swap_wallpaper_for_current_mode, wallpaper_candidates,
};
use compositor_slint::window_items::{focused_title, window_items, window_metas, window_title, ImageCache, ToplevelProps};
use compositor_slint::windows::{
    find_toplevel_idx, front_to_back, id_for_surface, is_maximized_on, surface_for_id, window_rects, windows_sorted,
    WindowState,
};

fn win(id: i32, surface: u64, area: Area) -> WindowState {
    WindowState {
        id,
        surface,
        shown: area,
        rect: area,
        geom: Area { x: 0, y: 0, w: area.w, h: area.h },
        z_order: id,
        focused: false,
        minimized: false,
        maximized: false,
        closing: false,
        csd: false,
        settled: true,
        sizing: false,
        awaiting_first_render: false,
        alt_tab_selected: false,
        pre_maximize: None,
        pre_snap: None,
        title: String::new(),
        app_id: String::new(),
    }
}

fn area(x: i32, y: i32, w: i32, h: i32) -> Area {
    Area { x, y, w, h }
}

fn popup_at(x: i32, y: i32, w: i32, h: i32) -> Positioner {
    let anchor_rect = area(x, y, 0, 0);
    Positioner { w, h, anchor_rect, anchor: 5, gravity: 8, offset_x: 0, offset_y: 0, adjustment: 0 }
}

fn c(v: i64) -> Coord {
    Coord { floor: v, ceil: v }
}

fn image(width: u32, height: u32) -> ClientSurfaceData {
    ClientSurfaceData {
        pixels: vec![255; (width * height * 4) as usize],
        width,
        height,
        dirty: true,
        version: 1,
        last_commit: None,
    }
}

fn texts(list: &[&str]) -> Vec<String> {
    list.iter().map(|s| s.to_string()).collect()
}

#[test]
fn new_pixels_are_taken_once() {
    let mut state = SpikeState::new();
    state.new_toplevel(1);
    state.toplevels[0].pixels = image(2, 2);
    let mut over = Overlays::new();
    let first = over.update_client_texture(&mut state, false);
    assert!(first.windows && first.redraw);
    assert!(!state.toplevels[0].pixels.dirty);
    let second = over.update_client_texture(&mut state, false);
    assert!(!second.windows && !second.redraw);
    assert!(over.update_client_texture(&mut state, true).windows);
}

#[test]
fn the_lock_screen_is_drawn_until_it_is_gone() {
    let mut state = SpikeState::new();
    state.lock();
    state.new_lock_surface(9, 1, &Vec::new());
    state.lock_surfaces[0].pixels = image(2, 1);
    let mut over = Overlays::new();
    assert!(!over.update_client_texture(&mut state, false).redraw);
    state.session_locked = true;
    assert!(over.update_client_texture(&mut state, false).redraw);
    assert_eq!(over.lock.as_ref().unwrap().width, 2);
    state.unlock();
    assert!(over.update_client_texture(&mut state, false).redraw);
    assert!(over.lock.is_none());
    assert!(!over.update_client_texture(&mut state, false).redraw);
}

#[test]
fn a_drag_icon_is_drawn_at_its_hotspot() {
    let mut state = SpikeState::new();
    state.cursor_image(CursorStatus::Surface(8), Some((3, 4)));
    state.dnd_requested(Some(6));
    let mut over = Overlays::new();
    over.update_client_texture(&mut state, false);
    assert!(over.icon.is_none());
    state.dnd_icon_pixels = image(1, 1);
    over.update_client_texture(&mut state, false);
    let icon = over.icon.as_ref().unwrap();
    assert_eq!((icon.hotspot_x, icon.hotspot_y, icon.width), (3, 4, 1));
}

#[test]
fn layers_are_published_when_they_change() {
    let mut state = SpikeState::new();
    state.new_layer_surface(1, Layer::Overlay, "osd".to_string());
    state.new_layer_surface(2, Layer::Background, "wallpaper".to_string());
    for l in state.layer_surfaces.iter_mut() {
        l.area = area(0, 0, 10, 10);
        l.pixels = image(10, 10);
    }
    let mut scene = LayerScene::new();
    let first = scene.update_layers(&mut state);
    assert_eq!(first.uploads, vec![1, 2]);
    let ids: Vec<u64> = first.rows.unwrap().iter().map(|r| r.id).collect();
    assert_eq!(ids, vec![2, 1]);
    assert!(scene.update_layers(&mut state).rows.is_none());
    state.layer_surfaces[0].area = area(5, 0, 10, 10);
    let moved = scene.update_layers(&mut state);
    assert!(moved.uploads.is_empty());
    assert!(moved.rows.is_some());
    state.layer_surfaces[0].pixels.dirty = true;
    assert_eq!(scene.update_layers(&mut state).uploads, vec![1]);
    state.layer_destroyed(1);
    assert_eq!(scene.update_layers(&mut state).rows.unwrap().len(), 1);
    assert!(!scene.cached.contains(&1));
}

#[test]
fn hidden_windows_are_not_asked_to_draw() {
    let mut state = SpikeState::new();
    for id in 1..4u64 {
        state.new_toplevel(id);
    }
    state.toplevels[0].pixels = image(1, 1);
    state.toplevels[1].pixels = image(1, 1);
    state.new_popup(7, Some(1), popup_at(0, 0, 1, 1));
    let mut windows = vec![win(12, 2, area(0, 0, 5, 5)), win(11, 1, area(0, 0, 5, 5)), win(13, 3, area(0, 0, 5, 5))];
    assert_eq!(visible_surfaces(&windows, &state), vec![1, 2, 7]);
    windows[0].minimized = true;
    assert_eq!(visible_surfaces(&windows, &state), vec![1, 7]);
}

#[test]
fn the_backdrop_is_refreshed_when_due() {
    let mut state = SpikeState::new();
    state.new_toplevel(1);
    state.toplevels[0].pixels = image(1, 1);
    let windows = vec![win(11, 1, area(1, 2, 3, 4))];
    assert!(refresh_backdrop(&windows, &state, false).is_none());
    let list = refresh_backdrop(&windows, &state, true).unwrap();
    assert_eq!(list.len(), 1);
    assert_eq!(list[0].area, area(1, 2, 3, 4));
    assert!(!any_animating(&windows));
}

#[test]
fn copies_are_cut_to_the_texture() {
    let size = TextureSize { w: 100, h: 50 };
    assert_eq!(clip(area(-10, -10, 30, 30), size), TexelRect { x: 0, y: 0, w: 20, h: 20 });
    assert_eq!(clip(area(90, 40, 30, 30), size), TexelRect { x: 90, y: 40, w: 10, h: 10 });
    assert_eq!(clip(area(200, 0, 10, 10), size).w, 0);
    let windows = vec![area(0, 0, 10, 10), area(5, 5, 10, 10), area(500, 0, 10, 10)];
    assert_eq!(restack(&windows, size, 0), vec![TexelRect { x: 5, y: 5, w: 10, h: 10 }]);
    assert!(restack(&windows, size, 2).is_empty());
}

#[test]
fn the_shell_is_drawn_above_the_windows() {
    let metrics = ShellMetrics { panel_h: 36, dock_h: 84, titlebar_h: 33, edge: 6 };
    let mut s = Shell::new(1280, 960, metrics, WorkArea { x: 0, y: 36, w: 1280, h: 840 });
    let bands = vec![area(0, 0, 1280, 36), area(0, 876, 1280, 84)];
    assert_eq!(overlays(&s.ui, metrics, 1280, 960), bands);
    s.ui.datetime_popout_open = true;
    s.ui.control_centre_open = true;
    s.ui.launcher_open = true;
    s.ui.help_overlay_visible = true;
    let all = overlays(&s.ui, metrics, 1280, 960);
    assert_eq!(all[2], area(480, 42, 320, 380));
    assert_eq!(all[3], area(966, 42, 300, 220));
    assert_eq!(all[4], area(370, 120, 540, 64));
    assert_eq!(all[5], area(400, 300, 480, 360));
}

#[test]
fn the_lock_screen_is_cut_to_the_frame() {
    let size = TextureSize { w: 100, h: 50 };
    assert_eq!(lock_copy(200, 20, size), Some(LockCopy { w: 100, h: 20, bytes_per_row: 800 }));
    assert_eq!(lock_copy(0, 20, size), None);
    assert_eq!(frame_size(0, 7), TextureSize { w: 1, h: 7 });
}

#[test]
fn the_frame_rate_is_sampled_every_second() {
    let mut clock = FrameClock::new(0);
    clock.rendered();
    clock.rendered();
    let early = clock.begin(999);
    assert!(!early.clock);
    assert_eq!(early.sample, None);
    let due = clock.begin(1000);
    assert!(due.clock);
    assert_eq!(due.sample, Some((2, 1000)));
    assert_eq!(clock.begin(1001).sample, None);
}

#[test]
fn the_frame_chart_scrolls() {
    let mut history: Vec<f32> = Vec::new();
    for i in 0..130 {
        record_frame(&mut history, i as f32);
    }
    assert_eq!(history.len(), 120);
    assert_eq!(history[0], 10.0);
    assert_eq!(history[119], 129.0);
}

#[test]
fn the_surface_format_is_the_best_on_offer() {
    let odd = SurfaceFormat::Other(3);
    assert_eq!(configure_surface(&vec![odd, SurfaceFormat::Bgra8Unorm, SurfaceFormat::Rgba8Unorm]), SurfaceFormat::Rgba8Unorm);
    assert_eq!(configure_surface(&vec![odd, SurfaceFormat::Bgra8Unorm]), SurfaceFormat::Bgra8Unorm);
    assert_eq!(configure_surface(&vec![odd]), odd);
    let size = TextureSize { w: 1, h: 2 };
    assert!(texture_stale(None, size));
    assert!(!texture_stale(Some(size), size));
    assert!(texture_stale(Some(TextureSize { w: 2, h: 2 }), size));
}

#[test]
fn windows_are_ordered_by_depth() {
    let mut windows = vec![win(1, 1, area(0, 0, 5, 5)), win(2, 2, area(0, 0, 5, 5)), win(3, 3, area(0, 0, 5, 5))];
    windows[0].z_order = 9;
    assert_eq!(windows_sorted(&windows), vec![1, 2, 0]);
    assert_eq!(front_to_back(&windows), vec![0, 2, 1]);
    assert_eq!(windows_by_id(&windows), vec![0, 1, 2]);
    assert_eq!(order_by(&vec![5, 1, 5, 0]), vec![3, 1, 0, 2]);
}

#[test]
fn windows_are_found_by_id_and_surface() {
    let mut windows = vec![win(7, 70, area(0, 0, 5, 5))];
    windows[0].maximized = true;
    assert_eq!(surface_for_id(&windows, 7), Some(70));
    assert_eq!(surface_for_id(&windows, 8), None);
    assert_eq!(id_for_surface(&windows, 70), Some(7));
    assert!(is_maximized_on(&windows, 70));
    assert!(!is_maximized_on(&windows, 71));
}

#[test]
fn the_front_window_is_hit_first() {
    let mut state = SpikeState::new();
    state.new_toplevel(1);
    state.new_toplevel(2);
    let windows = vec![win(1, 1, area(0, 0, 100, 100)), win(2, 2, area(50, 50, 100, 100))];
    assert_eq!(find_toplevel_idx(&windows, &state.toplevels, c(75), c(90), 33, 6), Some(1));
    assert_eq!(find_toplevel_idx(&windows, &state.toplevels, c(10), c(10), 33, 6), Some(0));
    assert_eq!(find_toplevel_idx(&windows, &state.toplevels, c(900), c(900), 33, 6), None);
    let rects = window_rects(&windows, &state.toplevels, 33);
    assert_eq!(rects.len(), 2);
}

#[test]
fn a_popup_lies_above_its_window() {
    let mut state = SpikeState::new();
    state.new_toplevel(1);
    state.new_popup(5, Some(1), popup_at(10, 20, 30, 40));
    state.popups[0].pixels = image(30, 40);
    let windows = vec![win(1, 1, area(100, 100, 200, 200))];
    let r = popup_rect(&state.popups, &windows, 33, &state.popups[0]).unwrap();
    assert_eq!((r.x, r.y, r.w, r.h), (110, 153, 30, 40));
    let hit = popup_surface_under(&state.popups, &windows, 33, c(111), c(154), None).unwrap();
    assert_eq!(hit.surface, 5);
    assert!(popup_surface_under(&state.popups, &windows, 33, c(100), c(100), None).is_none());
    let below = Some(SurfaceHit { surface: 1, x: 0, y: 0 });
    assert_eq!(surface_under_full(&state, &windows, 33, c(111), c(154), below, None).unwrap().surface, 5);
    state.session_locked = true;
    assert!(surface_under_full(&state, &windows, 33, c(111), c(154), below, None).is_none());
    assert!(popup_items(&state, &vec![None], &windows, 33).is_empty());
    let items = popup_items(&state, &vec![Some(area(10, 20, 30, 40))], &windows, 33);
    assert_eq!(items.len(), 1);
    assert_eq!((items[0].x, items[0].y, items[0].w, items[0].h), (110, 153, 30, 40));
}

#[test]
fn a_subsurface_gets_the_pointer() {
    let mut state = SpikeState::new();
    state.new_toplevel(1);
    state.new_popup(5, Some(1), popup_at(10, 20, 30, 40));
    state.popups[0].pixels = image(30, 40);
    let windows = vec![win(1, 1, area(100, 100, 200, 200))];
    let inner = Some(SurfaceHit { surface: 50, x: 112, y: 155 });
    assert_eq!(popup_surface_under(&state.popups, &windows, 33, c(113), c(156), inner), inner);
    assert!(popup_surface_under(&state.popups, &windows, 33, c(100), c(100), inner).is_none());
    assert_eq!(client_popup_surface_under(&state, &windows, 33, c(113), c(156), inner), inner);
    assert_eq!(surface_under_full(&state, &windows, 33, c(113), c(156), None, inner), inner);
    let tops = &state.toplevels;
    assert_eq!(x11_override_redirect_surface_under(tops, c(113), c(156), inner), None);
}

#[test]
fn a_layer_is_hit_inside_its_area() {
    let mut state = SpikeState::new();
    state.new_layer_surface(4, Layer::Top, "panel".to_string());
    state.layer_surfaces[0].area = area(0, 0, 100, 30);
    let hit = layer_surface_under(&state.layer_surfaces, Layer::Top, c(5), c(6), None).unwrap();
    assert_eq!(hit.surface, 4);
    let inner = Some(SurfaceHit { surface: 40, x: 2, y: 3 });
    assert_eq!(layer_surface_under(&state.layer_surfaces, Layer::Top, c(5), c(6), inner), inner);
    assert!(layer_surface_under(&state.layer_surfaces, Layer::Overlay, c(5), c(6), inner).is_none());
    assert!(layer_surface_under(&state.layer_surfaces, Layer::Top, c(5), c(60), inner).is_none());
}

#[test]
fn the_dock_is_a_pill_at_the_bottom() {
    // Four slots: 272 pixels around the middle of the output.
    let hit = |x: i64, y: i64| point_in_dock_pill(c(2 * x), c(y), 4, 1280, 960, 84);
    assert!(hit(640, 900));
    assert!(hit(504, 900));
    assert!(!hit(503, 900));
    assert!(!hit(640, 800));
    assert!(!hit(640, 955));
}

#[test]
fn applications_are_matched_by_their_last_part() {
    assert!(matches_pinned("org.mozilla.firefox", "firefox"));
    assert!(matches_pinned("firefox", "org.mozilla.firefox"));
    assert!(!matches_pinned("org.mozilla.firefox", "kitty"));
    assert_eq!(running_apps(&texts(&["b", "a", "b", ""])), texts(&["a", "b"]));
}

#[test]
fn running_applications_show_in_the_dock() {
    let entries = vec![pinned_entry("kitty".to_string(), "Kitty".to_string(), "kitty".to_string())];
    let mut last = Vec::new();
    let mut front = None;
    let focused = Some("code".to_string());
    let first = update_dock_running(&entries, &mut last, &mut front, &texts(&["kitty", "code"]), &focused).unwrap();
    assert!(first.pinned[0].running);
    assert!(!first.pinned[0].focused);
    assert_eq!(first.extras.len(), 1);
    assert_eq!(first.extras[0].app_id, "code");
    assert!(first.extras[0].focused);
    assert!(update_dock_running(&entries, &mut last, &mut front, &texts(&["code", "kitty"]), &focused).is_none());
    // The focus moves while the same applications run.
    let focused = Some("kitty".to_string());
    let moved = update_dock_running(&entries, &mut last, &mut front, &texts(&["code", "kitty"]), &focused).unwrap();
    assert!(moved.pinned[0].focused);
    assert!(!moved.extras[0].focused);
    assert_eq!(front, focused);
}

#[test]
fn an_empty_dock_gets_the_default_applications() {
    assert_eq!(dock_app_ids(texts(&["a"])), texts(&["a"]));
    assert_eq!(
        dock_app_ids(Vec::new()),
        texts(&["org.gnome.Nautilus", "org.mozilla.firefox", "kitty", "code"])
    );
}

#[test]
fn the_launcher_finds_applications_or_runs_the_text() {
    let entries = vec![pinned_entry("org.mozilla.firefox".to_string(), "Firefox".to_string(), "ff".to_string())];
    assert_eq!(launcher_submit(&entries, "  FIRE  "), Some("ff".to_string()));
    assert_eq!(launcher_submit(&entries, " xterm -e top "), Some("xterm -e top".to_string()));
    assert_eq!(launcher_submit(&entries, "   "), None);
    assert_eq!(launcher_submit(&entries, "\u{3000}\u{a0}\t x y\u{85}\u{2028}\n"), Some("x y".to_string()));
    assert_eq!(launcher_submit(&entries, "\u{200b}x\u{1f}"), Some("\u{200b}x\u{1f}".to_string()));
    assert_eq!(exec_for(&entries, "org.mozilla.firefox"), Some("ff".to_string()));
    assert_eq!(exec_for(&entries, "firefox"), None);
    let keys = vec![SearchKey { app_id: "kitty".to_string(), name: "terminal".to_string() }];
    assert_eq!(find_app(&keys, "mina"), Some(0));
    assert_eq!(find_app(&keys, "x"), None);
}

#[test]
fn keys_are_found_for_characters() {
    assert_eq!(ascii_to_scancode('a'), Some((30, false)));
    assert_eq!(ascii_to_scancode('A'), Some((30, true)));
    assert_eq!(ascii_to_scancode(' '), Some((57, false)));
    assert_eq!(ascii_to_scancode('\u{e9}'), None);
}

#[test]
fn repeat_settings_fall_back() {
    assert_eq!(repeat_info(None, None), RepeatInfo { delay: 500, rate: 33 });
    assert_eq!(repeat_info(Some("250"), Some("+40")), RepeatInfo { delay: 250, rate: 40 });
    assert_eq!(repeat_info(Some("fast"), Some("99999999999")), RepeatInfo { delay: 500, rate: 33 });
    assert_eq!(repeat_info(Some("-1"), Some("")), RepeatInfo { delay: -1, rate: 33 });
}

fn menu_node(id: i32, label: &str, separator: bool) -> AppMenuNode {
    AppMenuNode { id, label: label.to_string(), separator, enabled: true, has_submenu: false }
}

#[test]
fn exported_menus_become_rows() {
    let nodes = vec![menu_node(4, "File", false), menu_node(5, "", true), menu_node(6, "Edit", false)];
    let bar = bar_entries(&nodes);
    assert!(bar.iter().any(|e| e.id == 4 && e.label == "File"));
    let rows = submenu_items(&nodes);
    assert_eq!(rows.len(), 3);
    assert!(rows[1].separator);
    let tray = tray_items(&nodes);
    assert!(tray.iter().all(|r| r.id != 0));
}

#[test]
fn the_tray_menu_opens_below_the_pointer() {
    assert_eq!(tray_menu_position(c(300), c(10), 1280), (290, 16));
    assert_eq!(tray_menu_position(c(1275), c(10), 1280), (1052, 16));
    assert_eq!(tray_menu_position(c(0), c(-50), 1280), (8, 8));
}

#[test]
fn the_fixed_menus_have_their_rows() {
    let labels = |items: Vec<compositor_slint::menu::MenuItem>| -> Vec<String> {
        items.into_iter().filter(|i| !i.separator).map(|i| i.label).collect()
    };
    assert_eq!(
        labels(desktop_menu_items()),
        texts(&["New Folder", "Get Info", "Change Wallpaper\u{2026}", "Toggle Theme", "Show Debug Overlay", "About this DE"])
    );
    assert_eq!(
        labels(dock_menu_items()),
        texts(&["Open New Window", "Show All Windows", "Keep in Dock", "Show in Files", "Quit"])
    );
    assert_eq!(labels(window_menu_items()), texts(&["Minimize", "Maximize", "Close"]));
}

#[test]
fn the_panel_shows_the_focused_windows_menu() {
    let mut state = SpikeState::new();
    state.new_toplevel(1);
    let address = AppmenuAddress { service: "org.example".to_string(), path: "/menu".to_string() };
    state.set_appmenu_address(1, address);
    let mut windows = vec![win(1, 1, area(0, 0, 5, 5))];
    assert!(focused_appmenu(&windows, &state.toplevels).is_none());
    windows[0].focused = true;
    assert_eq!(focused_appmenu(&windows, &state.toplevels).unwrap().service, "org.example");
}

#[test]
fn the_pointer_follows_the_client() {
    let mut state = SpikeState::new();
    assert_eq!(pointer_image(&state, true), PointerImage::Arrow);
    state.cursor_image(CursorStatus::Hidden, None);
    assert_eq!(pointer_image(&state, false), PointerImage::Hidden);
    assert_eq!(pointer_image(&state, true), PointerImage::Arrow);
}

fn props(title: Option<&str>) -> ToplevelProps {
    ToplevelProps {
        geometry: area(0, 0, 0, 0),
        title: title.map(|t| t.to_string()),
        app_id: String::new(),
        resize_pending: false,
    }
}

#[test]
fn windows_become_items() {
    let mut state = SpikeState::new();
    state.new_toplevel(1);
    state.toplevels[0].pixels = image(8, 8);
    let mut windows = vec![win(1, 1, area(3, 4, 8, 8))];
    windows[0].focused = true;
    let p = vec![props(Some("Editor"))];
    let metas = window_metas(&state.toplevels, &p, None);
    assert_eq!(metas[0].unwrap().geom, area(0, 0, 8, 8));
    let items = window_items(&windows, &state.toplevels, &p, &metas, None);
    assert_eq!(items.len(), 1);
    assert_eq!(items[0].title, "Editor");
    assert_eq!(focused_title(&items), "Editor");
    assert_eq!(window_title(&None, &"old".to_string()), "old");
}

#[test]
fn images_are_rebuilt_for_new_versions() {
    let mut cache = ImageCache::empty();
    assert!(cache.refresh(1, 5));
    assert!(!cache.refresh(1, 5));
    assert!(cache.refresh(1, 6));
    cache.evict(&Vec::new());
    assert!(cache.refresh(1, 6));
}

#[test]
fn a_surface_tree_is_drawn_from_below() {
    let leaf = |key: u32, x: i32, y: i32| TreeNode {
        key,
        view: None,
        location_x: x,
        location_y: y,
        above: Vec::new(),
        below: Vec::new(),
    };
    let root = TreeNode {
        key: 1,
        view: None,
        location_x: 0,
        location_y: 0,
        above: vec![leaf(2, 5, 6)],
        below: vec![leaf(3, 1, 1)],
    };
    let keys: Vec<u32> = tree_surfaces(&root).iter().map(|s| s.key).collect();
    assert_eq!(keys.len(), 3);
    let pixels: HashMap<u32, ClientSurfaceData> = HashMap::new();
    assert!(surface_items(&root, Offset { x: 0, y: 0 }, &pixels).is_empty());
}

#[test]
fn rows_are_changed_in_place() {
    let ops = sync_rows(&vec![1, 2], &vec![1, 2]);
    assert!(ops.iter().all(|op| matches!(op, RowOp::Update { .. })));
    let ops = sync_rows(&vec![1, 2, 3], &vec![3, 4]);
    let mut rows = vec![1, 2, 3];
    let wanted = vec![3, 4];
    for op in ops {
        match op {
            RowOp::Remove { at } => {
                rows.remove(at);
            },
            RowOp::Insert { at, item } => rows.insert(at, wanted[item]),
            RowOp::Move { from, to } => {
                let v = rows.remove(from);
                rows.insert(to, v);
            },
            RowOp::Update { at, item } => rows[at] = wanted[item],
        }
    }
    assert_eq!(rows, wanted);
}

#[test]
fn tray_items_are_registered() {
    let mut watcher = WatcherState::new();
    let path = watcher.register_status_notifier_item("/StatusNotifierItem", Some(":1.7")).unwrap();
    assert_eq!(path.service, ":1.7");
    assert_eq!(path.object_path, "/StatusNotifierItem");
    let name = watcher.register_status_notifier_item("org.example.Item", Some(":1.8")).unwrap();
    assert_eq!(name.service, "org.example.Item");
    assert_eq!(name.object_path, "/StatusNotifierItem");
    assert!(name.id != path.id);
    assert!(matches!(
        watcher.register_status_notifier_item("/Item", None),
        Err(RegisterError::MissingSender)
    ));
    assert_eq!(watcher.registered_status_notifier_items().len(), 2);
    assert_eq!(watcher.protocol_version(), 0);
}

#[test]
fn tray_events_keep_the_list() {
    let entry = |id: u32| TrayItem {
        id,
        service: String::new(),
        object_path: String::new(),
        title: String::new(),
        icon_name: String::new(),
    };
    let mut items = Vec::new();
    apply_tray_event(&mut items, TrayEvent::Added(entry(1)));
    apply_tray_event(&mut items, TrayEvent::Added(entry(2)));
    apply_tray_event(&mut items, TrayEvent::Removed(1));
    assert_eq!(items.len(), 1);
    assert_eq!(clicked_item(&items, 2), Some(0));
    assert_eq!(clicked_item(&items, 1), None);
}

#[test]
fn wallpapers_are_looked_for_in_order() {
    let all = wallpaper_candidates("/home/u");
    assert!(!all.is_empty());
    let last = all.last().unwrap().clone();
    assert_eq!(find_wallpaper_path("/home/u", &vec![last.clone()]), Some(last));
    assert_eq!(find_wallpaper_path("/home/u", &all), Some(all[0].clone()));
    assert_eq!(find_wallpaper_path("/home/u", &Vec::new()), None);
    assert_eq!(find_wallpaper_for_mode("/home/u", "dark", &Vec::new()), None);
}

#[test]
fn a_light_wallpaper_is_known_by_its_file_name() {
    assert!(looks_light("/home/u/Pictures/hills_light.png"));
    assert!(!looks_light("/home/light/Pictures/hills_dark.png"));
    assert!(!looks_light("/"));
    assert!(name_looks_light("Light.jpg") || name_looks_light("a_light.jpg"));
}

#[test]
fn frames_are_drawn_below_the_windows_in_front() {
    let size = TextureSize { w: 100, h: 50 };
    let windows = vec![area(0, 0, 10, 10), area(5, 5, 10, 10)];
    let shown = vec![area(0, 0, 100, 4), area(0, 60, 100, 4)];
    let front = TexelRect { x: 5, y: 5, w: 10, h: 10 };
    let panel = TexelRect { x: 0, y: 0, w: 100, h: 4 };
    assert_eq!(
        frame_passes(true, &windows, &shown, true, false, None, size),
        vec![
            Pass::Scene,
            Pass::Chrome(0),
            Pass::Copy(front),
            Pass::Chrome(1),
            Pass::Copy(panel),
            Pass::Icon,
        ]
    );
    assert_eq!(frame_passes(false, &windows, &shown, false, false, None, size), vec![Pass::Scene]);
}

#[test]
fn a_locked_frame_ends_black_and_locked() {
    let size = TextureSize { w: 100, h: 50 };
    let windows = vec![area(0, 0, 10, 10)];
    let copy = LockCopy { w: 60, h: 50, bytes_per_row: 240 };
    assert_eq!(
        frame_passes(true, &windows, &Vec::new(), true, true, Some((60, 70)), size),
        vec![Pass::Scene, Pass::Chrome(0), Pass::Icon, Pass::Clear, Pass::Lock(copy)]
    );
    assert_eq!(
        frame_passes(false, &windows, &Vec::new(), false, true, Some((0, 0)), size),
        vec![Pass::Scene, Pass::Clear]
    );
}

#[test]
fn a_light_wallpaper_that_loads_starts_light() {
    let light = "/home/u/Documents/wallpaper_light.png";
    assert_eq!(starting_mode(Some(light), true), Some(ThemeMode::Light));
    assert_eq!(starting_mode(Some(light), false), None);
    assert_eq!(starting_mode(Some("/home/u/Documents/wallpaper_dark.png"), true), None);
    assert_eq!(starting_mode(None, true), None);
}

#[test]
fn file_names_are_last_components() {
    assert!(looks_light("light"));
    assert!(looks_light("/a/light/"));
    assert!(looks_light("/a/light//./"));
    assert!(!looks_light("light/.."));
    assert!(!looks_light("light/../"));
    assert!(!looks_light(""));
    assert!(!looks_light("."));
    assert!(!looks_light("light/a"));
}

#[test]
fn a_tray_item_can_name_its_path() {
    let mut watcher = WatcherState::new();
    let full = watcher.register_status_notifier_item("org.example.Item/org/Tray", None).unwrap();
    assert_eq!(full.service, "org.example.Item");
    assert_eq!(full.object_path, "/org/Tray");
    let bare = watcher.register_status_notifier_item("org.example.Item", None).unwrap();
    assert_eq!(bare.id, full.id);
    assert_eq!(bare.object_path, "/StatusNotifierItem");
    assert!(watcher.register_status_notifier_item("", None).is_err());
}

#[test]
fn a_wallpaper_is_swapped_only_for_another() {
    let light = "/home/u/Documents/wallpaper_light.png".to_string();
    let dark = "/home/u/Documents/wallpaper_dark.jpg".to_string();
    let both = vec![light.clone(), dark.clone()];
    let swap = |mode: ThemeMode, present: &Vec<String>, shown: Option<&str>| {
        swap_wallpaper_for_current_mode("/home/u", mode, present, shown)
    };
    assert_eq!(swap(ThemeMode::Dark, &both, Some(&light)), Some(dark.clone()));
    assert_eq!(swap(ThemeMode::Light, &both, Some(&dark)), Some(light.clone()));
    assert_eq!(swap(ThemeMode::Light, &both, Some(&light)), None);
    let one = vec![light.clone()];
    assert_eq!(swap(ThemeMode::Dark, &one, Some(&light)), None);
    assert_eq!(swap(ThemeMode::Dark, &one, None), Some(light));
    assert_eq!(swap(ThemeMode::Dark, &Vec::new(), None), None);
}

#[test]
fn a_lock_without_pixels_shows_black() {
    let mut state = SpikeState::new();
    assert!(state.lock());
    state.new_lock_surface(8, 1, &Vec::new());
    state.new_lock_surface(9, 1, &Vec::new());
    state.lock_surfaces[1].pixels = image(2, 1);
    state.session_locked = true;
    let mut over = Overlays::new();
    assert!(over.update_client_texture(&mut state, false).redraw);
    assert!(over.locked && over.lock.is_none());
    assert!(over.update_client_texture(&mut state, false).redraw);
    let size = TextureSize { w: 100, h: 50 };
    let windows = vec![area(0, 0, 10, 10)];
    let passes = over.passes(true, &windows, &Vec::new(), size);
    assert_eq!(passes, vec![Pass::Scene, Pass::Chrome(0), Pass::Clear]);
    state.unlock();
    assert!(over.update_client_texture(&mut state, false).redraw);
    assert_eq!(over.passes(false, &windows, &Vec::new(), size), vec![Pass::Scene]);
    assert!(!over.update_client_texture(&mut state, false).redraw);
}
