use std::collections::HashMap;

use compositor_slint::capture::{CaptureSession, CaptureSessions, Constraints, FramesDue};
use compositor_slint::clients::{client_has_no_security_context, ClientState};
use compositor_slint::commit::{move_hotspot, CommitTarget, CommitTree};
use compositor_slint::decoration::{DecorationMode, DecorationRequest};
use compositor_slint::focus::{Activation, Advertised, ForeignUpdate, Grab};
use compositor_slint::idle::ContentType;
use compositor_slint::layer_shell::{
    Anchor, Area, Edge, ExclusiveZone, KeyboardInteractivity, Layer, LayerConfig, Margins, ReservedZones,
};
use compositor_slint::outputs::OutputMode;
use compositor_slint::pixels::{ShmBuffer, SurfaceNode};
use compositor_slint::positioner::{
    reposition_request, Positioner, FLIP_X, FLIP_Y, RESIZE_X, RESIZE_Y, SLIDE_X, SLIDE_Y,
};
use compositor_slint::presentation::refresh_nanos_for;
use compositor_slint::requests::DialogHint;
use compositor_slint::screencopy::CaptureSize;
use compositor_slint::session_lock::{output_size, LockOutput};
use compositor_slint::state::{AppmenuAddress, Backing, CursorStatus, DndIcon, SpikeState};
use compositor_slint::xdg_shell::XdgResizeEdge;
use compositor_slint::resize::ResizeEdge;
use compositor_slint::xwayland::{configure_request, X11Window};

const NOWHERE: Area = Area { x: 0, y: 0, w: 0, h: 0 };

fn mode(w: i32, h: i32, refresh: i32) -> OutputMode {
    OutputMode { w, h, refresh }
}

fn address(service: &str) -> AppmenuAddress {
    AppmenuAddress { service: service.to_string(), path: "/menu".to_string() }
}

fn dot_tree() -> CommitTree {
    let buffer = ShmBuffer { data: vec![1, 2, 3, 255], width: 1, height: 1, stride: 4, has_alpha: true };
    let node = SurfaceNode { offset_x: 0, offset_y: 0, width: 1, height: 1, buffer: Some(buffer) };
    CommitTree { nodes: vec![node], surfaces: Vec::new(), root_key: 1 }
}

#[test]
fn a_lock_is_confirmed_by_its_first_pixels() {
    let mut state = SpikeState::new();
    assert!(state.lock());
    assert!(!state.session_locked);
    assert_eq!(state.new_lock_surface(9, 1, &Vec::new()), (1280, 960));
    assert_eq!(state.commit_target(9, 9, false), CommitTarget::Lock(0));
    assert!(state.commit(CommitTarget::Lock(0), &dot_tree(), None, NOWHERE));
    assert!(state.session_locked);
    assert!(!state.pending_session_lock);
}

#[test]
fn a_second_lock_is_refused() {
    let mut state = SpikeState::new();
    assert!(state.lock());
    assert!(!state.lock());
    state.unlock();
    assert!(state.lock_surfaces.is_empty());
    assert!(state.lock());
}

#[test]
fn a_lock_surface_has_the_size_of_its_output() {
    let small = LockOutput { named: false, mode: Some(mode(800, 600, 60_000)) };
    let big = LockOutput { named: true, mode: Some(mode(2560, 1440, 60_000)) };
    let off = LockOutput { named: true, mode: None };
    assert_eq!(output_size(&vec![small, big]), (2560, 1440));
    assert_eq!(output_size(&vec![small, off]), (800, 600));
    assert_eq!(output_size(&vec![off]), (1280, 960));
    assert_eq!(output_size(&vec![LockOutput { named: true, mode: Some(mode(0, -5, 0)) }]), (1, 1));
}

#[test]
fn while_locked_keys_go_to_the_lock_alone() {
    let mut state = SpikeState::new();
    state.new_toplevel(3);
    assert_eq!(state.keyboard_target(Some(9)), Some(3));
    state.session_locked = true;
    assert_eq!(state.keyboard_target(Some(9)), Some(9));
    assert_eq!(state.keyboard_target(None), None);
}

#[test]
fn a_decoration_object_defaults_to_the_client() {
    let mut state = SpikeState::new();
    state.new_toplevel(3);
    assert!(!state.toplevels[0].csd);
    let r = state.new_decoration(3, false);
    assert_eq!(r.mode, DecorationMode::ClientSide);
    assert!(!r.send);
    assert!(state.toplevels[0].csd);
}

#[test]
fn an_explicit_wish_for_our_frame_is_honoured() {
    let mut state = SpikeState::new();
    state.new_toplevel(3);
    let r = state.request_mode(3, DecorationRequest::ServerSide, true);
    assert_eq!(r.mode, DecorationMode::ServerSide);
    assert!(r.send);
    assert!(!state.toplevels[0].csd);
    state.unset_mode(3, true);
    assert!(state.toplevels[0].csd);
    assert_eq!(state.request_kde_mode(3, DecorationRequest::ServerSide).mode, DecorationMode::ServerSide);
    assert_eq!(state.request_kde_mode(3, DecorationRequest::Unknown).mode, DecorationMode::ClientSide);
}

#[test]
fn a_menu_address_waits_for_its_window() {
    let mut state = SpikeState::new();
    state.set_appmenu_address(3, address("org.example.Early"));
    assert!(state.pending_appmenu.contains_key(&3));
    state.new_toplevel(3);
    assert_eq!(state.toplevels[0].appmenu, Some(address("org.example.Early")));
    assert!(state.pending_appmenu.is_empty());
}

#[test]
fn a_released_menu_is_forgotten() {
    let mut state = SpikeState::new();
    state.new_toplevel(3);
    state.set_appmenu_address(3, address("org.example.App"));
    state.release_appmenu(3);
    assert_eq!(state.toplevels[0].appmenu, None);
    state.set_appmenu_address(4, address("org.example.Other"));
    state.release_appmenu(4);
    assert!(state.pending_appmenu.is_empty());
}

#[test]
fn a_blind_activation_is_ignored() {
    let mut state = SpikeState::new();
    state.new_toplevel(1);
    state.new_toplevel(2);
    assert!(!state.request_activation(1, false));
    assert_eq!(state.active_surface, Some(2));
    assert!(state.request_activation(1, true));
    assert_eq!(state.active_surface, Some(1));
}

#[test]
fn the_bell_rings_at_the_focused_window() {
    let mut state = SpikeState::new();
    state.new_toplevel(1);
    state.ring(None);
    assert_eq!(state.pending_bell, Some(1));
    state.ring(Some(7));
    assert_eq!(state.pending_bell, Some(7));
}

#[test]
fn windows_are_named_by_their_role() {
    let mut state = SpikeState::new();
    state.new_toplevel(1);
    state.new_toplevel(2);
    let roles = vec![None, Some(40)];
    state.set_icon(&roles, 40, Some("mail".to_string()));
    state.set_tag(&roles, 40, "inbox".to_string());
    state.set_description(&roles, 40, "The inbox".to_string());
    state.set_tag(&roles, 41, "nobody".to_string());
    assert_eq!(state.toplevels[1].icon_name, Some("mail".to_string()));
    assert_eq!(state.toplevels[1].tag, Some("inbox".to_string()));
    assert_eq!(state.toplevels[1].description, Some("The inbox".to_string()));
    assert_eq!(state.toplevels[0].tag, None);
}

#[test]
fn dialogs_are_marked() {
    let mut state = SpikeState::new();
    state.new_toplevel(1);
    state.dialog_hint_changed(1, DialogHint::Modal);
    assert!(state.toplevels[0].is_dialog);
    state.dialog_hint_changed(1, DialogHint::Plain);
    assert!(!state.toplevels[0].is_dialog);
}

#[test]
fn positions_in_a_surface_count_from_its_window() {
    let mut state = SpikeState::new();
    state.new_toplevel(1);
    state.place_on(1, 30, 40);
    assert_eq!(state.surface_origin(1), Some((30, 40)));
    assert_eq!(state.surface_origin(2), None);
    assert_eq!(state.parent_geometry(1), Area { x: 30, y: 40, w: 1, h: 1 });
    assert_eq!(state.parent_geometry(2), NOWHERE);
}

#[test]
fn a_popup_is_kept_on_the_output() {
    let mut state = SpikeState::new();
    state.new_toplevel(1);
    state.place_on(1, 30, 40);
    let none = Vec::new();
    let place = |p: Positioner, adjustment: u32| {
        state.unconstrain_popup(1, &Positioner { adjustment, ..p }, &none, 1280, 960)
    };
    let inside = at_point(10, 20, 30, 40);
    assert_eq!(place(inside, 63), Some(Area { x: 10, y: 20, w: 30, h: 40 }));
    let right = at_point(1240, 20, 30, 40);
    assert_eq!(place(right, 0), Some(Area { x: 1240, y: 20, w: 30, h: 40 }));
    assert_eq!(place(right, SLIDE_X), Some(Area { x: 1220, y: 20, w: 30, h: 40 }));
    assert_eq!(place(right, FLIP_X), Some(Area { x: 1210, y: 20, w: 30, h: 40 }));
    assert_eq!(place(right, RESIZE_X), Some(Area { x: 1240, y: 20, w: 10, h: 40 }));
    assert_eq!(place(right, FLIP_X + SLIDE_X), Some(Area { x: 1210, y: 20, w: 30, h: 40 }));
    let low = at_point(10, 900, 30, 40);
    assert_eq!(place(low, SLIDE_X), Some(Area { x: 10, y: 900, w: 30, h: 40 }));
    assert_eq!(place(low, SLIDE_Y), Some(Area { x: 10, y: 880, w: 30, h: 40 }));
    assert_eq!(place(low, FLIP_Y), Some(Area { x: 10, y: 860, w: 30, h: 40 }));
    assert_eq!(place(low, RESIZE_Y), Some(Area { x: 10, y: 900, w: 30, h: 20 }));
    let wide = at_point(-100, 20, 2000, 40);
    assert_eq!(place(wide, SLIDE_X), Some(Area { x: -30, y: 20, w: 2000, h: 40 }));
    assert_eq!(place(wide, SLIDE_X + RESIZE_X), Some(Area { x: -30, y: 20, w: 1280, h: 40 }));
    assert_eq!(state.unconstrain_popup(2, &inside, &none, 1280, 960), None);
    assert!(inside.can_adjust());
    assert!(!Positioner { w: -1, ..inside }.can_adjust());
}

#[test]
fn a_nested_popup_counts_from_its_window() {
    let mut state = SpikeState::new();
    state.new_toplevel(1);
    state.place_on(1, 30, 40);
    state.new_popup(5, Some(1), at_point(100, 50, 300, 300));
    let right = Positioner { adjustment: SLIDE_X, ..at_point(1240, 20, 30, 40) };
    let drawn = vec![Some(Area { x: 100, y: 50, w: 300, h: 300 })];
    let place = state.unconstrain_popup(5, &right, &drawn, 1280, 960);
    assert_eq!(place, Some(Area { x: 1120, y: 20, w: 30, h: 40 }));
    let place = state.unconstrain_popup(5, &right, &vec![None], 1280, 960);
    assert_eq!(place, Some(Area { x: 1220, y: 20, w: 30, h: 40 }));
    // Two popups that are each other's parent belong to no window.
    state.new_popup(6, Some(7), at_point(0, 0, 10, 10));
    state.new_popup(7, Some(6), at_point(0, 0, 10, 10));
    assert_eq!(state.unconstrain_popup(6, &right, &vec![None, None, None], 1280, 960), None);
}

fn at_point(x: i32, y: i32, w: i32, h: i32) -> Positioner {
    let anchor_rect = Area { x, y, w: 0, h: 0 };
    Positioner { w, h, anchor_rect, anchor: 5, gravity: 8, offset_x: 0, offset_y: 0, adjustment: 0 }
}

#[test]
fn a_positioner_places_its_popup() {
    let below_right = at_point(10, 20, 30, 40);
    assert_eq!(reposition_request(below_right), Area { x: 10, y: 20, w: 30, h: 40 });
    let anchor_rect = Area { x: 100, y: 200, w: 50, h: 21 };
    let p = Positioner { anchor_rect, anchor: 2, gravity: 1, offset_x: 3, offset_y: -4, ..below_right };
    assert_eq!(reposition_request(p), Area { x: 113, y: 177, w: 30, h: 40 });
    let p = Positioner { anchor: 0, gravity: 0, ..p };
    assert_eq!(reposition_request(p), Area { x: 113, y: 186, w: 30, h: 40 });
    assert!(p.can_place());
    assert!(!Positioner { w: -1, ..p }.can_place());
    assert!(!Positioner { gravity: 9, ..p }.can_place());
    let corner = Area { x: 0, y: 0, w: 0, h: 0 };
    assert!(!Positioner { anchor_rect: corner, gravity: 3, offset_x: i32::MIN, ..p }.can_place());
    let p = Positioner { anchor: 7, gravity: 3, ..p };
    assert_eq!(reposition_request(p), Area { x: 123, y: 176, w: 30, h: 40 });
}

#[test]
fn the_screen_stays_awake_while_asked_to() {
    let mut state = SpikeState::new();
    let still = vec![ContentType::Plain, ContentType::Photo];
    assert!(!state.refresh_content_type_idle_inhibit(&still));
    assert!(state.refresh_content_type_idle_inhibit(&vec![ContentType::Video]));
    assert!(state.refresh_content_type_idle_inhibit(&vec![ContentType::Game]));
    state.inhibit(5);
    state.inhibit(5);
    assert!(state.refresh_content_type_idle_inhibit(&still));
    state.uninhibit(5);
    assert!(!state.refresh_content_type_idle_inhibit(&still));
}

#[test]
fn the_oldest_output_is_the_primary_one() {
    let mut state = SpikeState::new();
    assert_eq!(state.primary_output(), None);
    state.register_output(10);
    state.register_output(11);
    state.register_output(10);
    assert_eq!(state.outputs, vec![10, 11]);
    assert_eq!(state.primary_output(), Some(10));
    state.unregister_output(10);
    assert_eq!(state.primary_output(), Some(11));
    state.unregister_output(11);
    assert_eq!(state.primary_output(), None);
}

#[test]
fn a_surface_is_on_the_first_output_of_its_client() {
    let mut state = SpikeState::new();
    state.register_output(10);
    state.register_output(11);
    assert_eq!(state.output_for_surface(&vec![false, true]), Some(11));
    assert_eq!(state.output_for_surface(&vec![true, true]), Some(10));
    assert_eq!(state.output_for_surface(&vec![false, false]), None);
}

#[test]
fn surfaces_that_move_leave_their_output() {
    let mut state = SpikeState::new();
    state.register_output(10);
    state.new_toplevel(1);
    state.cursor_image(CursorStatus::Surface(8), None);
    assert_eq!(state.surface_roots(&Vec::new()), vec![(1, 10), (8, 10)]);
    let mut outputs: HashMap<u64, u32> = HashMap::new();
    outputs.insert(2, 99);
    let left = state.bind_surfaces_to_output(&mut outputs, &Vec::new(), &vec![vec![1, 2], vec![8]]);
    assert_eq!(left, vec![(2, 99)]);
    assert_eq!(outputs[&1], 10);
    assert_eq!(outputs[&2], 10);
    assert_eq!(outputs[&8], 10);
}

#[test]
fn frame_times_follow_the_refresh_rate() {
    assert_eq!(refresh_nanos_for(Some(mode(1, 1, 60_000))), 16_666_666);
    assert_eq!(refresh_nanos_for(Some(mode(1, 1, 144_000))), 6_944_444);
    assert_eq!(refresh_nanos_for(Some(mode(1, 1, 0))), 16_666_667);
    assert_eq!(refresh_nanos_for(None), 16_666_667);
    let state = SpikeState::new();
    assert_eq!(state.send_presentation_feedback_for(0, None), None);
    assert_eq!(state.send_presentation_feedback_for(2, None), Some(16_666_667));
}

#[test]
fn each_surface_gets_one_frame_callback() {
    let mut state = SpikeState::new();
    assert_eq!(state.send_frame_callbacks_for_render_state(&vec![3, 1, 3, 2, 1]), vec![3, 1, 2]);
    assert_eq!(state.pre_render_drive_clients(&vec![Some(5), None, Some(5), Some(6)]), vec![5, 6]);
    state.new_toplevel(1);
    state.new_layer_surface(2, Layer::Top, "panel".to_string());
    assert_eq!(state.driven_surfaces(), vec![1, 2]);
}

#[test]
fn only_the_focused_window_is_active() {
    let mut state = SpikeState::new();
    state.new_toplevel(1);
    state.new_toplevel(2);
    state.take_initial_configure(1);
    assert_eq!(state.focus_changed(Some(1)), vec![Activation::Configure(1)]);
    assert!(state.toplevels[0].activated);
    assert_eq!(state.focus_changed(Some(1)), Vec::new());
    // The second window has not been configured yet.
    assert_eq!(state.focus_changed(Some(2)), vec![Activation::Configure(1)]);
    assert!(state.toplevels[1].activated);
    assert!(!state.toplevels[0].activated);
}

#[test]
fn a_grab_needs_a_press_of_the_same_client() {
    let state = SpikeState::new();
    let own = Some(Grab { active: true, focus_client: Some(7) });
    let stale = Some(Grab { active: false, focus_client: Some(7) });
    let other = Some(Grab { active: true, focus_client: Some(8) });
    assert!(state.validate_grab_serial(true, own, None, 7));
    assert!(state.validate_grab_serial(true, None, own, 7));
    assert!(!state.validate_grab_serial(false, own, own, 7));
    assert!(!state.validate_grab_serial(true, stale, other, 7));
    assert!(!state.validate_grab_serial(true, None, None, 7));
    assert!(state.new_constraint(3, Some(3)));
    assert!(!state.new_constraint(3, Some(4)));
    assert!(!state.new_constraint(3, None));
}

#[test]
fn a_drag_icon_takes_the_pointers_hotspot() {
    let mut state = SpikeState::new();
    state.dnd_requested(Some(6));
    assert_eq!(state.dnd_icon, Some(DndIcon { surface: 6, offset_x: 0, offset_y: 0 }));
    state.cursor_image(CursorStatus::Surface(8), Some((4, 5)));
    state.dnd_requested(Some(6));
    assert_eq!(state.dnd_icon, Some(DndIcon { surface: 6, offset_x: 4, offset_y: 5 }));
    state.commit(CommitTarget::Icon(6), &dot_tree(), Some((1, 1)), NOWHERE);
    assert_eq!(state.dnd_icon_pixels.width, 1);
    state.dnd_ended();
    assert_eq!(state.dnd_icon, None);
    assert_eq!(state.dnd_icon_pixels.width, 0);
}

#[test]
fn taskbars_hear_of_changes_once() {
    let mut state = SpikeState::new();
    state.new_toplevel(1);
    let now = vec![Some(Advertised { title: "Mail".to_string(), app_id: String::new() })];
    let first = state.sync_foreign_toplevels(&now);
    assert_eq!(first, vec![ForeignUpdate { surface: 1, title: true, app_id: false }]);
    assert_eq!(state.toplevels[0].last_advertised_title, "Mail");
    assert_eq!(state.sync_foreign_toplevels(&now), Vec::new());
    assert_eq!(state.sync_foreign_toplevels(&vec![None]), Vec::new());
}

fn bar(height: u32, edge: Edge) -> LayerConfig {
    let side = edge == Edge::Left || edge == Edge::Right;
    LayerConfig {
        layer: Layer::Top,
        anchor: Anchor {
            top: edge != Edge::Bottom,
            bottom: edge != Edge::Top,
            left: !side || edge == Edge::Left,
            right: !side || edge == Edge::Right,
        },
        exclusive_zone: ExclusiveZone::Exclusive(height),
        exclusive_edge: None,
        margin: Margins { top: 0, right: 0, bottom: 0, left: 0 },
        keyboard_interactivity: KeyboardInteractivity::Never,
        desired_w: if side { height as i32 } else { 0 },
        desired_h: if side { 0 } else { height as i32 },
    }
}

#[test]
fn panels_reserve_their_strip() {
    let mut state = SpikeState::new();
    state.new_layer_surface(1, Layer::Top, "panel".to_string());
    state.new_layer_surface(2, Layer::Top, "dock".to_string());
    let configs = vec![bar(30, Edge::Top), bar(60, Edge::Bottom)];
    state.refresh_layer_layout(&configs, 1000, 800);
    assert_eq!(state.layer_surfaces()[0].area, Area { x: 0, y: 0, w: 1000, h: 30 });
    assert_eq!(state.layer_surfaces()[1].area, Area { x: 0, y: 740, w: 1000, h: 60 });
    assert_eq!(state.reserved_zones(), ReservedZones { top: 30, bottom: 60, left: 0, right: 0 });
    state.layer_destroyed(1);
    assert_eq!(state.layer_surfaces().len(), 1);
    assert_eq!(state.reserved_zones(), ReservedZones { top: 0, bottom: 60, left: 0, right: 0 });
}

#[test]
fn the_newest_overlay_has_the_keyboard() {
    let mut state = SpikeState::new();
    for id in 1..4u64 {
        state.new_layer_surface(id, Layer::Top, "layer".to_string());
    }
    let mut top = bar(10, Edge::Top);
    top.keyboard_interactivity = KeyboardInteractivity::Exclusive;
    let mut overlay = top;
    overlay.layer = Layer::Overlay;
    assert_eq!(state.exclusive_keyboard_layer(), None);
    state.refresh_layer_layout(&vec![overlay, top, bar(10, Edge::Top)], 1000, 800);
    assert_eq!(state.exclusive_keyboard_layer(), Some(1));
    state.refresh_layer_layout(&vec![top, top, bar(10, Edge::Top)], 1000, 800);
    assert_eq!(state.exclusive_keyboard_layer(), Some(2));
    assert!(state.layer_surfaces()[0].wants_exclusive_keyboard());
    assert!(!state.layer_surfaces()[2].can_receive_keyboard_focus());
}

#[test]
fn windows_are_cascaded_and_take_the_focus() {
    let mut state = SpikeState::new();
    state.new_toplevel(1);
    state.new_toplevel(2);
    assert_eq!((state.toplevels[0].x, state.toplevels[0].y), (100, 100));
    assert_eq!((state.toplevels[1].x, state.toplevels[1].y), (140, 140));
    assert_eq!(state.active_surface, Some(2));
    state.toplevel_destroyed(2);
    assert_eq!(state.active_surface, Some(1));
    assert_eq!(state.destroyed_surfaces, vec![2]);
    assert_eq!(state.toplevels.len(), 2);
}

#[test]
fn requests_wait_for_the_next_frame() {
    let mut state = SpikeState::new();
    state.move_request(1);
    state.resize_request(1, XdgResizeEdge::TopLeft);
    state.resize_request(1, XdgResizeEdge::NoEdge);
    assert!(state.maximize_request(1, true, true));
    assert!(!state.fullscreen_request(1, false, false));
    state.minimize_request(1);
    state.unminimize_request(1);
    assert_eq!(state.pending_xdg_move, vec![1]);
    assert_eq!(state.pending_xdg_resize, vec![(1, ResizeEdge::NorthWest)]);
    assert_eq!(state.pending_xdg_maximize, vec![(1, true)]);
    assert_eq!(state.pending_xdg_fullscreen, vec![(1, false)]);
    assert_eq!(state.pending_xdg_minimize, vec![1]);
    assert_eq!(state.pending_xdg_restore, vec![1]);
}

#[test]
fn a_popup_needs_a_parent() {
    let mut state = SpikeState::new();
    assert!(!state.new_popup(5, None, at_point(0, 0, 1, 1)));
    assert!(state.new_popup(5, Some(1), at_point(1, 2, 3, 4)));
    assert_eq!(state.popups.len(), 1);
    assert_eq!(state.popups[0].rel, Area { x: 1, y: 2, w: 3, h: 4 });
    state.popup_destroyed(5);
    assert!(state.popups.is_empty());
}

fn x11(window: u32, override_redirect: bool) -> X11Window {
    X11Window {
        window,
        is_mapped: true,
        override_redirect,
        decorated: true,
        geometry: Area { x: 7, y: 8, w: 90, h: 60 },
    }
}

#[test]
fn x11_windows_join_the_list_once() {
    let mut state = SpikeState::new();
    assert!(!state.map_window_request(None, x11(70, false)));
    assert!(state.surface_associated(1, x11(70, false)));
    assert!(!state.map_window_request(Some(1), x11(70, false)));
    assert_eq!(state.toplevels.len(), 1);
    assert_eq!(state.active_surface, Some(1));
    assert_eq!(state.transient_parent(Some(70), None), Some(1));
    assert_eq!(state.transient_parent(Some(71), None), None);
    assert_eq!(state.transient_parent(None, Some(4)), Some(4));
}

#[test]
fn unmanaged_x11_windows_stay_where_they_are() {
    let mut state = SpikeState::new();
    state.new_toplevel(1);
    state.mapped_override_redirect_window(Some(2), x11(71, true));
    assert_eq!((state.toplevels[1].x, state.toplevels[1].y), (7, 8));
    assert!(state.toplevels[1].backing.override_redirect());
    assert_eq!(state.active_surface, Some(1));
    assert!(!state.unmapped_window(Some(2), true));
    assert_eq!(state.toplevels.len(), 1);
}

#[test]
fn an_x11_window_may_choose_its_size() {
    let now = Area { x: 1, y: 2, w: 3, h: 4 };
    assert_eq!(configure_request(now, Some(30), None), Area { x: 1, y: 2, w: 30, h: 4 });
}

#[test]
fn a_commit_goes_to_the_role_of_its_surface() {
    let mut state = SpikeState::new();
    state.new_toplevel(1);
    assert_eq!(state.commit_target(1, 1, false), CommitTarget::Toplevel(0));
    assert_eq!(state.commit_target(2, 2, false), CommitTarget::Unknown);
    assert_eq!(state.commit_target(2, 1, true), CommitTarget::Unknown);
    state.cursor_image(CursorStatus::Surface(4), None);
    assert_eq!(state.commit_target(4, 4, false), CommitTarget::Cursor(4));
    state.commit(CommitTarget::Toplevel(0), &dot_tree(), None, NOWHERE);
    assert_eq!(state.toplevels[0].pixels.pixels, vec![3, 2, 1, 255]);
    assert!(state.toplevels[0].pixels.dirty);
}

#[test]
fn the_first_commit_is_answered_with_a_configure() {
    let mut state = SpikeState::new();
    state.new_toplevel(1);
    assert_eq!(state.take_initial_configure(1), (true, false));
    assert_eq!(state.toplevels[0].backing, Backing::Xdg { initial_configure_sent: true });
    assert_eq!(state.take_initial_configure(1), (false, false));
}

#[test]
fn sandboxed_clients_are_kept_out() {
    assert!(client_has_no_security_context(None));
    assert!(client_has_no_security_context(Some(&ClientState { security_context: false })));
    assert!(!client_has_no_security_context(Some(&ClientState { security_context: true })));
}

#[test]
fn capture_sessions_follow_the_output() {
    let mut sessions = CaptureSessions::new();
    let live = CaptureSession { id: 1, mode: Some(mode(640, 480, 0)), alive: true };
    let dead = CaptureSession { id: 2, mode: Some(mode(640, 480, 0)), alive: false };
    let blind = CaptureSession { id: 3, mode: None, alive: true };
    assert_eq!(sessions.new_session(live), Some(Constraints { session: 1, w: 640, h: 480 }));
    assert_eq!(sessions.new_session(blind), None);
    sessions.sessions.push(dead);
    assert_eq!(sessions.refresh_capture_constraints(), vec![Constraints { session: 1, w: 640, h: 480 }]);
    assert_eq!(sessions.sessions, vec![live, blind]);
}

#[test]
fn waiting_frames_are_served_or_fail() {
    let mut sessions = CaptureSessions::new();
    sessions.frame(4);
    sessions.frame(5);
    let size = CaptureSize { width: 2, height: 2 };
    assert_eq!(sessions.process_capture_frames(true, true, size), FramesDue::Serve(vec![4, 5]));
    sessions.frame(6);
    assert_eq!(sessions.process_capture_frames(true, false, size), FramesDue::Fail(vec![6]));
    assert!(sessions.pending_frames.is_empty());
}

#[test]
fn the_hotspot_moves_against_the_buffer() {
    assert_eq!(move_hotspot((10, 12), (3, -2)), (7, 14));
    assert_eq!(move_hotspot((i32::MIN, i32::MAX), (1, -1)), (i32::MIN, i32::MAX));
    let mut state = SpikeState::new();
    state.cursor_image(CursorStatus::Surface(8), Some((10, 12)));
    state.commit(CommitTarget::Cursor(8), &dot_tree(), Some((3, -2)), NOWHERE);
    assert_eq!(state.cursor_hotspot, Some((7, 14)));
    assert_eq!(state.cursor_surface_pixels.width, 1);
    state.commit(CommitTarget::Cursor(8), &dot_tree(), None, NOWHERE);
    assert_eq!(state.cursor_hotspot, Some((7, 14)));
    state.dnd_requested(Some(6));
    assert_eq!(state.dnd_icon, Some(DndIcon { surface: 6, offset_x: 7, offset_y: 14 }));
}
