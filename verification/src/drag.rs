//! Dragging windows with the pointer: starting, following and ending a move or a
//! resize, and snapping into place.

use vstd::prelude::*;

use crate::cursor::{effective_zone, Coord, HitZone};
use crate::layer_shell::Area;
use crate::num::{clamp_int, max_int, sat32, saturate};
use crate::resize::{
    move_target, resize_outcome, resize_step, ActiveDrag, ResizeEdge, ShellBands, SizeHints,
    WindowGeomSnapshot, MOVE_BOTTOM_MARGIN,
};
use crate::shell::{PendingSnap, Shell, ShellView};
use crate::snap::{
    detect, free_states, tiled_states, untiled, zone_at, zone_rect, zone_states, SnapRect, SnapZone,
    TiledStates,
};
use crate::state::{Backing, SpikeState, SpikeView, ToplevelInfo};
use crate::surface::{index_of, position, SurfaceId};
use crate::windows::{
    find_toplevel_idx, find_window, is_maximized_on, maximized_on, toplevel_near, window_of, WindowState,
};

verus! {

/// How a configure changes the states that the client is told of.
#[derive(Clone, Copy, Debug, PartialEq, Eq, Structural)]
pub enum StateChange {
    /// Only the size is given.
    Keep,
    /// An interactive resize is going on, or over.
    Resizing(bool),
    /// The window is no longer maximized.
    Unmaximized,
    /// These replace the tiled and maximized states.
    Tiled(TiledStates),
}

/// A configure to send to a native client.
#[derive(Clone, Copy, Debug, PartialEq, Eq, Structural)]
pub struct ConfigureRequest {
    pub surface: SurfaceId,
    pub w: i32,
    pub h: i32,
    pub change: StateChange,
}

/// What a pointer motion leaves to be done.
#[derive(Clone, Copy, Debug, PartialEq, Eq, Structural)]
pub struct PointerOutcome {
    pub configure: Option<ConfigureRequest>,
    /// The window that moved: popups that follow it have to be placed again.
    pub moved: Option<SurfaceId>,
    /// The window that is restored from being maximized.
    pub unmaximized: Option<SurfaceId>,
    pub refresh_windows: bool,
    /// The part of a window that the pointer's shape is to show.
    pub cursor: Option<HitZone>,
    /// A drag began; the pointer's position anchors it.
    pub drag_began: bool,
}

/// A pointer motion as the shell sees it. Distances are in whole pixels.
#[derive(Clone, Copy, Debug)]
pub struct PointerMotion {
    pub x: Coord,
    pub y: Coord,
    /// How far the pointer is from where the resize began.
    pub travel_x: i32,
    pub travel_y: i32,
    /// The pointer has left the place where the dock caught the window's edge.
    pub broke_out: bool,
    /// Where the corner of the moved window is carried to.
    pub carried_x: i32,
    pub carried_y: i32,
    /// The pointer has travelled far enough to restore a maximized window.
    pub past_unmaximize: bool,
    /// Where the window goes when it is restored or taken out of a snap, so that
    /// the pointer stays on its title bar.
    pub restored_x: i32,
    pub restored_y: i32,
    /// Size limits of the window being resized.
    pub hints: SizeHints,
    /// The time in nanoseconds.
    pub now: u64,
    /// The part of a window under the pointer.
    pub hit: Option<HitZone>,
}

pub open spec fn nothing_to_do() -> PointerOutcome {
    PointerOutcome {
        configure: None,
        moved: None,
        unmaximized: None,
        refresh_windows: false,
        cursor: None,
        drag_began: false,
    }
}

fn no_outcome() -> (r: PointerOutcome)
    ensures
        r == nothing_to_do(),
{
    PointerOutcome {
        configure: None,
        moved: None,
        unmaximized: None,
        refresh_windows: false,
        cursor: None,
        drag_began: false,
    }
}

/// The toplevels with one of them moved.
pub open spec fn placed(toplevels: Seq<ToplevelInfo>, idx: int, x: i32, y: i32) -> Seq<ToplevelInfo> {
    toplevels.update(idx, ToplevelInfo { x, y, ..toplevels[idx] })
}

/// The windows with the one on a surface put into a rectangle.
pub open spec fn with_rect(windows: Seq<WindowState>, surface: SurfaceId, rect: Area) -> Seq<WindowState> {
    match index_of(windows, surface) {
        Some(i) => windows.update(i, WindowState { rect, ..windows[i] }),
        None => windows,
    }
}

/// The windows with the one on a surface moved.
pub open spec fn with_position(windows: Seq<WindowState>, surface: SurfaceId, x: i32, y: i32) -> Seq<WindowState> {
    match index_of(windows, surface) {
        Some(i) => windows.update(
            i,
            WindowState { rect: Area { x, y, ..windows[i].rect }, ..windows[i] },
        ),
        None => windows,
    }
}

/// A configure for a surface, if it is that of a native client.
pub open spec fn configure_for(t: &ToplevelInfo, w: i32, h: i32, change: StateChange) -> Option<ConfigureRequest> {
    match t.backing {
        Backing::Xdg { .. } => Some(ConfigureRequest { surface: t.surface, w, h, change }),
        Backing::X11 { .. } => None,
    }
}

fn request_configure(t: &ToplevelInfo, w: i32, h: i32, change: StateChange) -> (r: Option<ConfigureRequest>)
    ensures
        r == configure_for(t, w, h, change),
{
    match t.backing {
        Backing::Xdg { .. } => Some(ConfigureRequest { surface: t.surface, w, h, change }),
        Backing::X11 { .. } => None,
    }
}

/// The panel and dock lines that a resize respects.
pub open spec fn bands_of(s: ShellView) -> ShellBands {
    ShellBands { panel_h: s.metrics.panel_h, dock_top: sat32(s.output_h - s.metrics.dock_h) }
}

/// The drag with only its hold at the dock brought up to date.
pub open spec fn only_hold(drag: ActiveDrag, after: ActiveDrag) -> ActiveDrag {
    match (drag, after) {
        (
            ActiveDrag::Resize { toplevel_idx, edge, start_geom, last_configure_at, dock_snapped },
            ActiveDrag::Resize { dock_snapped: held, .. },
        ) => ActiveDrag::Resize { toplevel_idx, edge, start_geom, last_configure_at, dock_snapped: held },
        _ => drag,
    }
}

/// The window after it snapped into a zone. The first snap remembers where the
/// window came from.
pub open spec fn snapped(w: WindowState, zone: SnapZone, rect: SnapRect) -> WindowState {
    let to = Area { x: rect.x, y: rect.y, w: rect.w, h: rect.h };
    if zone == SnapZone::Maximize {
        WindowState {
            pre_maximize: if w.pre_maximize is None {
                Some(w.rect)
            } else {
                w.pre_maximize
            },
            maximized: true,
            rect: to,
            ..w
        }
    } else {
        WindowState {
            pre_snap: if w.pre_snap is None {
                Some(w.rect)
            } else {
                w.pre_snap
            },
            maximized: false,
            rect: to,
            ..w
        }
    }
}

/// What a snap leaves to be done.
#[derive(Clone, Copy, Debug, PartialEq, Eq, Structural)]
pub struct SnapOutcome {
    pub surface: SurfaceId,
    pub configure: Option<ConfigureRequest>,
}

/// A toplevel moved, if it is tracked.
pub open spec fn placed_on(toplevels: Seq<ToplevelInfo>, surface: SurfaceId, x: i32, y: i32) -> Seq<ToplevelInfo> {
    match index_of(toplevels, surface) {
        Some(i) => placed(toplevels, i, x, y),
        None => toplevels,
    }
}

/// What the client of a resized window is told when the drag ends: its final size, and
/// that the resize is over.
pub open spec fn release_configure(s: ShellView, st: SpikeView) -> Option<ConfigureRequest> {
    match s.active_drag {
        Some(ActiveDrag::Resize { toplevel_idx, .. }) => if toplevel_idx < st.toplevels.len() {
            let t = st.toplevels[toplevel_idx as int];
            match index_of(s.windows, t.surface) {
                Some(i) => configure_for(
                    &t,
                    s.windows[i].rect.w,
                    s.windows[i].rect.h,
                    StateChange::Resizing(false),
                ),
                None => None,
            }
        } else {
            None
        },
        _ => None,
    }
}

/// A pending snap carried out: the window takes its place and its client is told.
pub open spec fn snap_applied(s: ShellView, st: SpikeView) -> (ShellView, SpikeView, Option<SnapOutcome>) {
    let cleared = ShellView { pending_snap: None, snap_preview: None, ..s };
    match s.pending_snap {
        Some(p) => match window_of(s.windows, p.window_id) {
            Some(i) => {
                let w = s.windows[i];
                (
                    ShellView {
                        windows: s.windows.update(i, snapped(w, p.zone, p.rect)),
                        redraw: true,
                        ..cleared
                    },
                    SpikeView { toplevels: placed_on(st.toplevels, w.surface, p.rect.x, p.rect.y), ..st },
                    Some(
                        SnapOutcome {
                            surface: w.surface,
                            configure: configure_on(
                                st.toplevels,
                                w.surface,
                                p.rect.w,
                                p.rect.h,
                                StateChange::Tiled(zone_states(p.zone)),
                            ),
                        },
                    ),
                )
            },
            None => (cleared, st, None),
        },
        None => (cleared, st, None),
    }
}

impl WindowState {
    fn snap_into(&mut self, zone: SnapZone, rect: SnapRect)
        ensures
            *final(self) == snapped(*old(self), zone, rect),
    {
        if zone == SnapZone::Maximize {
            if self.pre_maximize.is_none() {
                self.pre_maximize = Some(self.rect);
            }
            self.maximized = true;
        } else {
            if self.pre_snap.is_none() {
                self.pre_snap = Some(self.rect);
            }
            self.maximized = false;
        }
        self.rect = Area { x: rect.x, y: rect.y, w: rect.w, h: rect.h };
    }
}

impl SpikeState {
    /// Moves a toplevel, if it is tracked.
    pub fn place_on(&mut self, surface: SurfaceId, x: i32, y: i32)
        ensures
            final(self)@ == (SpikeView {
                toplevels: placed_on(old(self)@.toplevels, surface, x, y),
                ..old(self)@
            }),
    {
        if let Some(t) = position(&self.toplevels, surface) {
            self.toplevels[t].x = x;
            self.toplevels[t].y = y;
        }
    }

    /// A configure for the toplevel on a surface, if a native client has one there.
    pub fn configure_on(&self, surface: SurfaceId, w: i32, h: i32, change: StateChange) -> (r: Option<ConfigureRequest>)
        ensures
            r == configure_on(self@.toplevels, surface, w, h, change),
    {
        match position(&self.toplevels, surface) {
            Some(t) => request_configure(&self.toplevels[t], w, h, change),
            None => None,
        }
    }
}

/// A configure for the toplevel on a surface, if a native client has one there.
pub open spec fn configure_on(
    toplevels: Seq<ToplevelInfo>,
    surface: SurfaceId,
    w: i32,
    h: i32,
    change: StateChange,
) -> Option<ConfigureRequest> {
    match index_of(toplevels, surface) {
        Some(t) => configure_for(&toplevels[t], w, h, change),
        None => None,
    }
}

impl Shell {
    fn set_rect(&mut self, surface: SurfaceId, rect: Area)
        requires
            old(self).wf(),
        ensures
            final(self).wf(),
            final(self)@ == (ShellView { windows: with_rect(old(self)@.windows, surface, rect), ..old(self)@ }),
    {
        if let Some(i) = position(&self.windows, surface) {
            self.windows[i].rect = rect;
        }
    }

    fn set_position(&mut self, surface: SurfaceId, x: i32, y: i32) -> (r: Option<i32>)
        requires
            old(self).wf(),
        ensures
            final(self).wf(),
            final(self)@ == (ShellView {
                windows: with_position(old(self)@.windows, surface, x, y),
                ..old(self)@
            }),
            r == crate::windows::id_of(old(self)@.windows, surface),
    {
        match position(&self.windows, surface) {
            Some(i) => {
                let mut rect = self.windows[i].rect;
                rect.x = x;
                rect.y = y;
                self.windows[i].rect = rect;
                Some(self.windows[i].id)
            },
            None => None,
        }
    }

    /// Ends the drag. A client that was being resized is told its final size, and
    /// that the resize is over.
    pub fn release_drag(&mut self, state: &SpikeState) -> (r: Option<ConfigureRequest>)
        requires
            old(self).wf(),
        ensures
            final(self).wf(),
            final(self)@ == (ShellView { active_drag: None, ..old(self)@ }),
            r == release_configure(old(self)@, state@),
    {
        let drag = self.active_drag;
        self.active_drag = None;
        if let Some(ActiveDrag::Resize { toplevel_idx, .. }) = drag {
            if toplevel_idx < state.toplevels.len() {
                let t = &state.toplevels[toplevel_idx];
                if let Some(i) = position(&self.windows, t.surface) {
                    let rect = self.windows[i].rect;
                    return request_configure(t, rect.w, rect.h, StateChange::Resizing(false));
                }
            }
        }
        None
    }

    /// The pointer was released: a window dragged to an edge takes its place there.
    pub fn apply_pending_snap(&mut self, state: &mut SpikeState) -> (r: Option<SnapOutcome>)
        requires
            old(self).wf(),
        ensures
            final(self).wf(),
            final(self)@ == snap_applied(old(self)@, old(state)@).0,
            final(state)@ == snap_applied(old(self)@, old(state)@).1,
            r == snap_applied(old(self)@, old(state)@).2,
    {
        self.snap_preview = None;
        let p = match self.pending_snap {
            Some(p) => p,
            None => {
                return None;
            },
        };
        self.pending_snap = None;
        let i: usize = match find_window(&self.windows, p.window_id) {
            Some(i) => i,
            None => {
                return None;
            },
        };
        let surface: SurfaceId = self.windows[i].surface;
        self.windows[i].snap_into(p.zone, p.rect);
        let configure = state.configure_on(surface, p.rect.w, p.rect.h, StateChange::Tiled(tiled_states(p.zone)));
        state.place_on(surface, p.rect.x, p.rect.y);
        self.redraw = true;
        Some(SnapOutcome { surface, configure })
    }
}

/// A motion of a resize drag: the window follows the pointer, and from time to time
/// the client is told its new size.
pub open spec fn resize_motion(s: ShellView, st: SpikeView, drag: ActiveDrag, m: PointerMotion) -> (
    ShellView,
    SpikeView,
    PointerOutcome,
) {
    let step = resize_outcome(drag, m.travel_x, m.travel_y, bands_of(s), m.hints, m.broke_out, m.now)->0;
    let idx = drag->Resize_toplevel_idx;
    let g = step.geometry;
    if idx < st.toplevels.len() {
        let t = st.toplevels[idx as int];
        (
            ShellView {
                active_drag: Some(step.drag),
                windows: with_rect(s.windows, t.surface, Area { x: g.x, y: g.y, w: g.w, h: g.h }),
                redraw: true,
                ..s
            },
            SpikeView { toplevels: placed(st.toplevels, idx as int, g.x, g.y), ..st },
            PointerOutcome {
                configure: if step.send_configure {
                    configure_for(&t, g.w, g.h, StateChange::Resizing(true))
                } else {
                    None
                },
                moved: Some(t.surface),
                refresh_windows: true,
                ..nothing_to_do()
            },
        )
    } else {
        (
            ShellView { active_drag: Some(only_hold(drag, step.drag)), redraw: true, ..s },
            st,
            PointerOutcome { refresh_windows: true, ..nothing_to_do() },
        )
    }
}

/// What a maximized window goes back to when it is dragged off the top.
pub open spec fn restore_of(s: ShellView, st: SpikeView, idx: int) -> Option<Area> {
    if 0 <= idx < st.toplevels.len() {
        match index_of(s.windows, st.toplevels[idx].surface) {
            Some(i) => s.windows[i].pre_maximize,
            None => None,
        }
    } else {
        None
    }
}

/// The windows with the one on a surface restored from being maximized.
pub open spec fn unmaximized_at(windows: Seq<WindowState>, surface: SurfaceId, rect: Area) -> Seq<WindowState> {
    match index_of(windows, surface) {
        Some(i) => windows.update(i, WindowState { maximized: false, rect, ..windows[i] }),
        None => windows,
    }
}

/// A motion of a move drag that began on a maximized window. Nothing moves until the
/// pointer has travelled far enough; then the window is restored under it.
pub open spec fn unmaximize_motion(s: ShellView, st: SpikeView, idx: usize, m: PointerMotion) -> (
    ShellView,
    SpikeView,
    PointerOutcome,
) {
    if !m.past_unmaximize {
        (s, st, nothing_to_do())
    } else {
        match restore_of(s, st, idx as int) {
            Some(back) => {
                let t = st.toplevels[idx as int];
                let rect = Area { x: m.restored_x, y: m.restored_y, w: back.w, h: back.h };
                (
                    ShellView {
                        windows: unmaximized_at(s.windows, t.surface, rect),
                        active_drag: Some(ActiveDrag::Move { toplevel_idx: idx, pending_unmaximize: false }),
                        redraw: true,
                        ..s
                    },
                    SpikeView { toplevels: placed(st.toplevels, idx as int, rect.x, rect.y), ..st },
                    PointerOutcome {
                        configure: configure_for(&t, back.w, back.h, StateChange::Unmaximized),
                        moved: Some(t.surface),
                        unmaximized: Some(t.surface),
                        ..nothing_to_do()
                    },
                )
            },
            None => (ShellView { redraw: true, ..s }, st, nothing_to_do()),
        }
    }
}

/// The snap preview and the pending snap for a pointer position, when window `id`
/// is being moved.
pub open spec fn snap_preview(s: ShellView, x: Coord, y: Coord, id: Option<i32>) -> ShellView {
    match zone_at(x, y, s.work_area) {
        Some(zone) => {
            let rect = zone_rect(zone, s.work_area);
            ShellView {
                snap_preview: Some(rect),
                pending_snap: match id {
                    Some(window_id) => Some(PendingSnap { window_id, zone, rect }),
                    None => s.pending_snap,
                },
                ..s
            }
        },
        None => ShellView { snap_preview: None, pending_snap: None, ..s },
    }
}

/// A motion of a move drag: the window follows the pointer, its title bar stays
/// below the panel, and the place it would snap to is shown.
pub open spec fn move_motion(s: ShellView, st: SpikeView, idx: usize, m: PointerMotion) -> (
    ShellView,
    SpikeView,
    PointerOutcome,
) {
    if idx < st.toplevels.len() {
        let t = st.toplevels[idx as int];
        let y = clamp_int(
            m.carried_y as int,
            s.metrics.panel_h as int,
            max_int(sat32(s.output_h - MOVE_BOTTOM_MARGIN) as int, s.metrics.panel_h as int),
        ) as i32;
        let s1 = ShellView { windows: with_position(s.windows, t.surface, m.carried_x, y), redraw: true, ..s };
        (
            snap_preview(s1, m.x, m.y, crate::windows::id_of(s.windows, t.surface)),
            SpikeView { toplevels: placed(st.toplevels, idx as int, m.carried_x, y), ..st },
            PointerOutcome { moved: Some(t.surface), refresh_windows: true, ..nothing_to_do() },
        )
    } else {
        (
            snap_preview(ShellView { redraw: true, ..s }, m.x, m.y, None),
            st,
            PointerOutcome { refresh_windows: true, ..nothing_to_do() },
        )
    }
}

impl SpikeState {
    fn place_at(&mut self, idx: usize, x: i32, y: i32)
        requires
            idx < old(self)@.toplevels.len(),
        ensures
            final(self)@ == (SpikeView {
                toplevels: placed(old(self)@.toplevels, idx as int, x, y),
                ..old(self)@
            }),
    {
        self.toplevels[idx].x = x;
        self.toplevels[idx].y = y;
    }
}

impl Shell {
    fn bands(&self) -> (r: ShellBands)
        ensures
            r == bands_of(self@),
    {
        ShellBands {
            panel_h: self.metrics.panel_h,
            dock_top: saturate(self.output_h as i64 - self.metrics.dock_h as i64),
        }
    }

    fn follow_resize(&mut self, state: &mut SpikeState, drag: ActiveDrag, m: PointerMotion) -> (r: PointerOutcome)
        requires
            old(self).wf(),
            drag is Resize,
        ensures
            final(self).wf(),
            final(self)@ == resize_motion(old(self)@, old(state)@, drag, m).0,
            final(state)@ == resize_motion(old(self)@, old(state)@, drag, m).1,
            r == resize_motion(old(self)@, old(state)@, drag, m).2,
    {
        let bands = self.bands();
        let mut out = no_outcome();
        out.refresh_windows = true;
        self.redraw = true;
        if let Some(step) = resize_step(&drag, m.travel_x, m.travel_y, bands, m.hints, m.broke_out, m.now) {
            if let ActiveDrag::Resize { toplevel_idx, edge, start_geom, last_configure_at, .. } = drag {
                if toplevel_idx < state.toplevels.len() {
                    let g = step.geometry;
                    let surface: SurfaceId = state.toplevels[toplevel_idx].surface;
                    if step.send_configure {
                        out.configure = request_configure(
                            &state.toplevels[toplevel_idx],
                            g.w,
                            g.h,
                            StateChange::Resizing(true),
                        );
                    }
                    out.moved = Some(surface);
                    state.place_at(toplevel_idx, g.x, g.y);
                    self.set_rect(surface, Area { x: g.x, y: g.y, w: g.w, h: g.h });
                    self.active_drag = Some(step.drag);
                } else if let ActiveDrag::Resize { dock_snapped, .. } = step.drag {
                    self.active_drag = Some(
                        ActiveDrag::Resize { toplevel_idx, edge, start_geom, last_configure_at, dock_snapped },
                    );
                }
            }
        }
        out
    }

    fn restore_for(&self, state: &SpikeState, idx: usize) -> (r: Option<Area>)
        ensures
            r == restore_of(self@, state@, idx as int),
    {
        if idx < state.toplevels.len() {
            if let Some(i) = position(&self.windows, state.toplevels[idx].surface) {
                return self.windows[i].pre_maximize;
            }
        }
        None
    }

    fn unmaximize_on(&mut self, surface: SurfaceId, rect: Area)
        requires
            old(self).wf(),
        ensures
            final(self).wf(),
            final(self)@ == (ShellView { windows: unmaximized_at(old(self)@.windows, surface, rect), ..old(self)@ }),
    {
        if let Some(i) = position(&self.windows, surface) {
            self.windows[i].maximized = false;
            self.windows[i].rect = rect;
        }
    }

    fn follow_unmaximize(&mut self, state: &mut SpikeState, idx: usize, m: PointerMotion) -> (r: PointerOutcome)
        requires
            old(self).wf(),
        ensures
            final(self).wf(),
            final(self)@ == unmaximize_motion(old(self)@, old(state)@, idx, m).0,
            final(state)@ == unmaximize_motion(old(self)@, old(state)@, idx, m).1,
            r == unmaximize_motion(old(self)@, old(state)@, idx, m).2,
    {
        let mut out = no_outcome();
        if !m.past_unmaximize {
            return out;
        }
        if let Some(back) = self.restore_for(state, idx) {
            let surface: SurfaceId = state.toplevels[idx].surface;
            out.configure = request_configure(&state.toplevels[idx], back.w, back.h, StateChange::Unmaximized);
            out.moved = Some(surface);
            out.unmaximized = Some(surface);
            state.place_at(idx, m.restored_x, m.restored_y);
            self.unmaximize_on(surface, Area { x: m.restored_x, y: m.restored_y, w: back.w, h: back.h });
            self.active_drag = Some(ActiveDrag::Move { toplevel_idx: idx, pending_unmaximize: false });
        }
        self.redraw = true;
        out
    }

    fn preview_snap(&mut self, x: Coord, y: Coord, id: Option<i32>)
        requires
            old(self).wf(),
        ensures
            final(self).wf(),
            final(self)@ == snap_preview(old(self)@, x, y, id),
    {
        match detect(x, y, self.work_area) {
            Some((zone, rect)) => {
                self.snap_preview = Some(rect);
                if let Some(window_id) = id {
                    self.pending_snap = Some(PendingSnap { window_id, zone, rect });
                }
            },
            None => {
                self.snap_preview = None;
                self.pending_snap = None;
            },
        }
    }

    fn follow_move(&mut self, state: &mut SpikeState, idx: usize, m: PointerMotion) -> (r: PointerOutcome)
        requires
            old(self).wf(),
        ensures
            final(self).wf(),
            final(self)@ == move_motion(old(self)@, old(state)@, idx, m).0,
            final(state)@ == move_motion(old(self)@, old(state)@, idx, m).1,
            r == move_motion(old(self)@, old(state)@, idx, m).2,
    {
        let mut out = no_outcome();
        out.refresh_windows = true;
        let mut id: Option<i32> = None;
        if idx < state.toplevels.len() {
            let surface: SurfaceId = state.toplevels[idx].surface;
            let (x, y): (i32, i32) = move_target(m.carried_x, m.carried_y, self.metrics.panel_h, self.output_h);
            state.place_at(idx, x, y);
            id = self.set_position(surface, x, y);
            out.moved = Some(surface);
        }
        self.redraw = true;
        self.preview_snap(m.x, m.y, id);
        out
    }
}

/// The windows with the one on a surface taken out of its snap.
pub open spec fn unsnapped_at(windows: Seq<WindowState>, surface: SurfaceId, rect: Area) -> Seq<WindowState> {
    match index_of(windows, surface) {
        Some(i) => windows.update(i, WindowState { pre_snap: None, rect, ..windows[i] }),
        None => windows,
    }
}

/// Where the window on a surface was before it was tiled.
pub open spec fn snapped_from(windows: Seq<WindowState>, surface: SurfaceId) -> Option<Area> {
    match index_of(windows, surface) {
        Some(i) => windows[i].pre_snap,
        None => None,
    }
}

/// The beginning of a move drag of toplevel `idx`: a tiled window gets its old size
/// back first.
pub open spec fn move_began(s: ShellView, st: SpikeView, idx: int, m: PointerMotion) -> (
    ShellView,
    SpikeView,
    PointerOutcome,
) {
    let t = st.toplevels[idx];
    let drag = Some(
        ActiveDrag::Move { toplevel_idx: idx as usize, pending_unmaximize: maximized_on(s.windows, t.surface) },
    );
    match snapped_from(s.windows, t.surface) {
        Some(back) => {
            let rect = Area { x: m.restored_x, y: m.restored_y, w: back.w, h: back.h };
            (
                ShellView { windows: unsnapped_at(s.windows, t.surface, rect), active_drag: drag, ..s },
                SpikeView { toplevels: placed(st.toplevels, idx, rect.x, rect.y), ..st },
                PointerOutcome {
                    configure: configure_for(&t, back.w, back.h, StateChange::Tiled(free_states())),
                    moved: Some(t.surface),
                    drag_began: true,
                    ..nothing_to_do()
                },
            )
        },
        None => (
            ShellView { active_drag: drag, ..s },
            st,
            PointerOutcome { drag_began: true, ..nothing_to_do() },
        ),
    }
}

/// The content size that a resize starts from: the window's, or that of the buffer.
pub open spec fn content_size(windows: Seq<WindowState>, t: &ToplevelInfo) -> (i32, i32) {
    match index_of(windows, t.surface) {
        Some(i) => (windows[i].rect.w, windows[i].rect.h),
        None => (t.pixels.width as i32, t.pixels.height as i32),
    }
}

/// The beginning of a resize drag of toplevel `idx`.
pub open spec fn resize_drag(s: ShellView, st: SpikeView, idx: int, edge: ResizeEdge) -> ActiveDrag {
    let t = st.toplevels[idx];
    let (w, h) = content_size(s.windows, &t);
    ActiveDrag::Resize {
        toplevel_idx: idx as usize,
        edge,
        start_geom: WindowGeomSnapshot { x: t.x, y: t.y, w, h },
        last_configure_at: None,
        dock_snapped: false,
    }
}

/// The toplevel that the pointer would grab.
pub open spec fn grabbed(s: ShellView, st: SpikeView, m: PointerMotion) -> Option<int> {
    toplevel_near(s.windows, st.toplevels, m.x, m.y, s.metrics.titlebar_h, s.metrics.edge)
}

/// The part of a window under the pointer. The edges of a maximized window cannot
/// be dragged and count as nothing.
pub open spec fn zone_under(s: ShellView, st: SpikeView, m: PointerMotion) -> HitZone {
    let raw = match m.hit {
        Some(z) => z,
        None => HitZone::Outside,
    };
    let maximized = grabbed(s, st, m) matches Some(idx) && maximized_on(s.windows, st.toplevels[idx].surface);
    if raw.resizes() && maximized {
        HitZone::Outside
    } else {
        raw
    }
}

/// A motion without a drag: the pointer's shape follows what is under it, and with
/// the button down a drag begins there.
pub open spec fn free_motion(s: ShellView, st: SpikeView, m: PointerMotion) -> (
    ShellView,
    SpikeView,
    PointerOutcome,
) {
    let zone = zone_under(s, st, m);
    let idle = (s, st, PointerOutcome { cursor: Some(zone), ..nothing_to_do() });
    if !s.left_button_down || m.hit is None {
        idle
    } else {
        match grabbed(s, st, m) {
            Some(idx) => if s.super_held || zone == HitZone::TitleBar {
                let (s1, st1, out) = move_began(s, st, idx, m);
                (s1, st1, PointerOutcome { cursor: Some(zone), ..out })
            } else {
                match ResizeEdge::of_zone(zone) {
                    Some(edge) => (
                        ShellView { active_drag: Some(resize_drag(s, st, idx, edge)), ..s },
                        st,
                        PointerOutcome { cursor: Some(zone), drag_began: true, ..nothing_to_do() },
                    ),
                    None => idle,
                }
            },
            None => idle,
        }
    }
}

/// Everything that a pointer motion does to windows.
pub open spec fn pointer_motion(s: ShellView, st: SpikeView, m: PointerMotion) -> (
    ShellView,
    SpikeView,
    PointerOutcome,
) {
    match s.active_drag {
        Some(ActiveDrag::Resize { .. }) => resize_motion(s, st, s.active_drag->0, m),
        Some(ActiveDrag::Move { toplevel_idx, pending_unmaximize }) => if pending_unmaximize {
            unmaximize_motion(s, st, toplevel_idx, m)
        } else {
            move_motion(s, st, toplevel_idx, m)
        },
        None => free_motion(s, st, m),
    }
}

impl Shell {
    /// Where the window on a surface was before it was tiled.
    pub fn unsnap_target(&self, surface: SurfaceId) -> (r: Option<Area>)
        ensures
            r == snapped_from(self@.windows, surface),
    {
        match position(&self.windows, surface) {
            Some(i) => self.windows[i].pre_snap,
            None => None,
        }
    }

    fn unsnap(&mut self, surface: SurfaceId, rect: Area)
        requires
            old(self).wf(),
        ensures
            final(self).wf(),
            final(self)@ == (ShellView { windows: unsnapped_at(old(self)@.windows, surface, rect), ..old(self)@ }),
    {
        if let Some(i) = position(&self.windows, surface) {
            self.windows[i].pre_snap = None;
            self.windows[i].rect = rect;
        }
    }

    fn begin_move(&mut self, state: &mut SpikeState, idx: usize, m: PointerMotion) -> (r: PointerOutcome)
        requires
            old(self).wf(),
            idx < old(state)@.toplevels.len(),
        ensures
            final(self).wf(),
            final(self)@ == move_began(old(self)@, old(state)@, idx as int, m).0,
            final(state)@ == move_began(old(self)@, old(state)@, idx as int, m).1,
            r == move_began(old(self)@, old(state)@, idx as int, m).2,
    {
        let mut out = no_outcome();
        out.drag_began = true;
        let surface: SurfaceId = state.toplevels[idx].surface;
        let maximized = is_maximized_on(&self.windows, surface);
        if let Some(back) = self.unsnap_target(surface) {
            out.configure = request_configure(
                &state.toplevels[idx],
                back.w,
                back.h,
                StateChange::Tiled(untiled()),
            );
            out.moved = Some(surface);
            state.place_at(idx, m.restored_x, m.restored_y);
            self.unsnap(surface, Area { x: m.restored_x, y: m.restored_y, w: back.w, h: back.h });
        }
        self.active_drag = Some(ActiveDrag::Move { toplevel_idx: idx, pending_unmaximize: maximized });
        out
    }

    fn content_size_of(&self, t: &ToplevelInfo) -> (r: (i32, i32))
        ensures
            r == content_size(self@.windows, t),
    {
        match position(&self.windows, t.surface) {
            Some(i) => (self.windows[i].rect.w, self.windows[i].rect.h),
            None => (t.pixels.width as i32, t.pixels.height as i32),
        }
    }

    /// A resize drag of a toplevel as it begins.
    pub fn resize_from(&self, state: &SpikeState, idx: usize, edge: ResizeEdge) -> (r: ActiveDrag)
        requires
            idx < state@.toplevels.len(),
        ensures
            r == resize_drag(self@, state@, idx as int, edge),
    {
        let t = &state.toplevels[idx];
        let (w, h): (i32, i32) = self.content_size_of(t);
        let start_geom = WindowGeomSnapshot { x: t.x, y: t.y, w, h };
        ActiveDrag::Resize { toplevel_idx: idx, edge, start_geom, last_configure_at: None, dock_snapped: false }
    }

    fn begin_resize(&mut self, state: &SpikeState, idx: usize, edge: ResizeEdge)
        requires
            old(self).wf(),
            idx < state@.toplevels.len(),
        ensures
            final(self).wf(),
            final(self)@ == (ShellView {
                active_drag: Some(resize_drag(old(self)@, state@, idx as int, edge)),
                ..old(self)@
            }),
    {
        self.active_drag = Some(self.resize_from(state, idx, edge));
    }

    fn follow_free(&mut self, state: &mut SpikeState, m: PointerMotion) -> (r: PointerOutcome)
        requires
            old(self).wf(),
        ensures
            final(self).wf(),
            final(self)@ == free_motion(old(self)@, old(state)@, m).0,
            final(state)@ == free_motion(old(self)@, old(state)@, m).1,
            r == free_motion(old(self)@, old(state)@, m).2,
    {
        let raw = match m.hit {
            Some(z) => z,
            None => HitZone::Outside,
        };
        let idx = find_toplevel_idx(
            &self.windows,
            &state.toplevels,
            m.x,
            m.y,
            self.metrics.titlebar_h,
            self.metrics.edge,
        );
        let maximized = match idx {
            Some(i) => is_maximized_on(&self.windows, state.toplevels[i].surface),
            None => false,
        };
        let zone = effective_zone(raw, maximized);
        let mut out = no_outcome();
        out.cursor = Some(zone);
        if !self.left_button_down || m.hit.is_none() {
            return out;
        }
        if let Some(i) = idx {
            if self.super_held || zone == HitZone::TitleBar {
                out = self.begin_move(state, i, m);
                out.cursor = Some(zone);
            } else if let Some(edge) = ResizeEdge::from_zone(zone) {
                self.begin_resize(state, i, edge);
                out.drag_began = true;
            }
        }
        out
    }

    /// Handles a pointer motion: a drag in progress follows the pointer; otherwise
    /// the pointer's shape is chosen, and with the left button down a drag begins on
    /// an edge, on a title bar or, while Super is held, anywhere on a window.
    pub fn handle_pointer_update(&mut self, state: &mut SpikeState, m: PointerMotion) -> (r: PointerOutcome)
        requires
            old(self).wf(),
        ensures
            final(self).wf(),
            final(self)@ == pointer_motion(old(self)@, old(state)@, m).0,
            final(state)@ == pointer_motion(old(self)@, old(state)@, m).1,
            r == pointer_motion(old(self)@, old(state)@, m).2,
    {
        match self.active_drag {
            Some(ActiveDrag::Move { toplevel_idx, pending_unmaximize }) => {
                if pending_unmaximize {
                    self.follow_unmaximize(state, toplevel_idx, m)
                } else {
                    self.follow_move(state, toplevel_idx, m)
                }
            },
            Some(drag) => self.follow_resize(state, drag, m),
            None => self.follow_free(state, m),
        }
    }
}

/// Whatever the pointer does, windows are only moved, sized and flagged: none
/// appears, disappears or changes places in the list, and the protocol state
/// changes in nothing but window positions.
pub proof fn law_motion_keeps_windows(s: ShellView, st: SpikeView, m: PointerMotion)
    ensures
        ({
            let (s1, st1, out) = pointer_motion(s, st, m);
            &&& s1.windows.len() == s.windows.len()
            &&& forall|i: int|
                0 <= i < s.windows.len() ==> (#[trigger] s1.windows[i]).id == s.windows[i].id
                    && s1.windows[i].surface == s.windows[i].surface
            &&& st1.toplevels.len() == st.toplevels.len()
            &&& forall|i: int|
                0 <= i < st.toplevels.len() ==> #[trigger] st1.toplevels[i] == (ToplevelInfo {
                    x: st1.toplevels[i].x,
                    y: st1.toplevels[i].y,
                    ..st.toplevels[i]
                })
            &&& st1 == (SpikeView { toplevels: st1.toplevels, ..st })
        }),
{
    match s.active_drag {
        Some(ActiveDrag::Resize { toplevel_idx, .. }) => {
            if toplevel_idx < st.toplevels.len() {
                crate::surface::lemma_index_of(s.windows, st.toplevels[toplevel_idx as int].surface);
            }
        },
        Some(ActiveDrag::Move { toplevel_idx, .. }) => {
            if toplevel_idx < st.toplevels.len() {
                crate::surface::lemma_index_of(s.windows, st.toplevels[toplevel_idx as int].surface);
            }
        },
        None => {
            if let Some(idx) = grabbed(s, st, m) {
                crate::surface::lemma_index_of(s.windows, st.toplevels[idx].surface);
                lemma_near_is_toplevel(s, st, m, 0);
            }
        },
    }
}

proof fn lemma_near_is_toplevel(s: ShellView, st: SpikeView, m: PointerMotion, from: int)
    requires
        0 <= from,
    ensures
        crate::windows::first_near(
            s.windows,
            st.toplevels,
            m.x,
            m.y,
            s.metrics.titlebar_h,
            s.metrics.edge,
            crate::order::ordered(crate::windows::front_keys(s.windows)),
            from,
        ) matches Some(idx) ==> 0 <= idx < st.toplevels.len(),
    decreases crate::order::ordered(crate::windows::front_keys(s.windows)).len() - from,
{
    let order = crate::order::ordered(crate::windows::front_keys(s.windows));
    if from < order.len() {
        let w = s.windows[order[from] as int];
        crate::surface::lemma_index_of(st.toplevels, w.surface);
        lemma_near_is_toplevel(s, st, m, from + 1);
    }
}

/// A moved window goes where the pointer carries it, its toplevel with it, and keeps its
/// size; all other windows stay. Only its upper side is held between the panel and the
/// bottom of the output.
pub proof fn law_moved_window_is_carried(s: ShellView, st: SpikeView, idx: usize, m: PointerMotion, i: int)
    requires
        s.active_drag == Some(ActiveDrag::Move { toplevel_idx: idx, pending_unmaximize: false }),
        idx < st.toplevels.len(),
        index_of(s.windows, st.toplevels[idx as int].surface) == Some(i),
        s.metrics.panel_h >= 0,
        s.output_h >= s.metrics.panel_h + 24,
    ensures
        0 <= i < s.windows.len(),
        ({
            let (t, st1, out) = pointer_motion(s, st, m);
            let r = t.windows[i].rect;
            let top = st1.toplevels[idx as int];
            &&& r.x == m.carried_x && r.w == s.windows[i].rect.w && r.h == s.windows[i].rect.h
            &&& s.metrics.panel_h <= r.y <= s.output_h - 24
            &&& s.metrics.panel_h <= m.carried_y <= s.output_h - 24 ==> r.y == m.carried_y
            &&& m.carried_y < s.metrics.panel_h ==> r.y == s.metrics.panel_h
            &&& m.carried_y > s.output_h - 24 ==> r.y == s.output_h - 24
            &&& top.x == r.x && top.y == r.y
            &&& forall|k: int| 0 <= k < s.windows.len() && k != i ==> #[trigger] t.windows[k] == s.windows[k]
            &&& forall|k: int|
                0 <= k < st.toplevels.len() && k != idx ==> #[trigger] st1.toplevels[k] == st.toplevels[k]
            &&& out.moved == Some(st.toplevels[idx as int].surface) && out.configure is None && t.active_drag
                == s.active_drag
        }),
{
    crate::surface::lemma_index_of(s.windows, st.toplevels[idx as int].surface);
}

/// While a window is moved the place that it would snap to is shown exactly when the
/// pointer is near an edge that snaps, and letting go puts the window there.
pub proof fn law_preview_is_where_it_snaps(s: ShellView, x: Coord, y: Coord, id: i32)
    ensures
        ({
            let t = snap_preview(s, x, y, Some(id));
            &&& t.snap_preview is Some <==> t.pending_snap is Some
            &&& t.snap_preview is Some <==> zone_at(x, y, s.work_area) is Some
            &&& t.pending_snap matches Some(p) ==> p.window_id == id && t.snap_preview == Some(p.rect) && zone_at(
                x,
                y,
                s.work_area,
            ) == Some(p.zone) && p.rect == zone_rect(p.zone, s.work_area)
            &&& t == (ShellView { snap_preview: t.snap_preview, pending_snap: t.pending_snap, ..s })
        }),
{
}

/// A window that snaps takes the rectangle that was shown, its toplevel goes there, and its
/// client is told that size and the sides that are tiled. The preview is gone then.
pub proof fn law_snap_takes_its_place(s: ShellView, st: SpikeView, p: PendingSnap, i: int)
    requires
        s.pending_snap == Some(p),
        window_of(s.windows, p.window_id) == Some(i),
    ensures
        0 <= i < s.windows.len(),
        ({
            let (t, st1, out) = snap_applied(s, st);
            let w = t.windows[i];
            &&& w.rect == (Area { x: p.rect.x, y: p.rect.y, w: p.rect.w, h: p.rect.h })
            &&& w.maximized <==> p.zone is Maximize
            &&& w.id == p.window_id && w.surface == s.windows[i].surface
            &&& t.pending_snap is None && t.snap_preview is None && t.redraw
            &&& forall|k: int| 0 <= k < s.windows.len() && k != i ==> #[trigger] t.windows[k] == s.windows[k]
            &&& out matches Some(o) && o.surface == w.surface && (o.configure matches Some(c) ==> c.surface == w.surface
                && c.w == p.rect.w && c.h == p.rect.h && c.change == StateChange::Tiled(zone_states(p.zone)))
            &&& index_of(st.toplevels, w.surface) matches Some(k) ==> st1.toplevels[k].x == p.rect.x
                && st1.toplevels[k].y == p.rect.y
        }),
{
    crate::windows::lemma_window_from(s.windows, p.window_id, 0);
    crate::surface::lemma_index_of(st.toplevels, s.windows[i].surface);
}

/// A window that is dragged out of a snap has the size again that it had before the first
/// of them, and one that is dragged off the top the size before it was maximized.
pub proof fn law_size_comes_back(w: WindowState, zone: SnapZone, rect: SnapRect, again: SnapZone, rect2: SnapRect)
    ensures
        ({
            let once = snapped(w, zone, rect);
            let twice = snapped(once, again, rect2);
            &&& !(zone is Maximize) && w.pre_snap is None ==> once.pre_snap == Some(w.rect)
            &&& !(zone is Maximize) && !(again is Maximize) && w.pre_snap is None ==> twice.pre_snap == Some(w.rect)
            &&& zone is Maximize && w.pre_maximize is None ==> once.pre_maximize == Some(w.rect)
            &&& zone is Maximize && again is Maximize && w.pre_maximize is None ==> twice.pre_maximize == Some(w.rect)
        }),
{
}

/// A drag of a tiled window begins with its old size, under the pointer, and its client is
/// told so; a maximized one waits until the pointer has gone far enough.
pub proof fn law_move_begins(s: ShellView, st: SpikeView, idx: int, m: PointerMotion, i: int)
    requires
        0 <= idx < st.toplevels.len() <= usize::MAX,
        index_of(s.windows, st.toplevels[idx].surface) == Some(i),
    ensures
        0 <= i < s.windows.len(),
        ({
            let (t, st1, out) = move_began(s, st, idx, m);
            let native = st.toplevels[idx].backing is Xdg;
            &&& t.active_drag == Some(
                ActiveDrag::Move { toplevel_idx: idx as usize, pending_unmaximize: s.windows[i].maximized },
            )
            &&& out.drag_began
            &&& s.windows[i].pre_snap is None ==> t.windows == s.windows && st1 == st && out.configure is None
            &&& s.windows[i].pre_snap matches Some(back) ==> {
                &&& t.windows[i].rect == (Area { x: m.restored_x, y: m.restored_y, w: back.w, h: back.h })
                &&& t.windows[i].pre_snap is None
                &&& st1.toplevels[idx].x == m.restored_x && st1.toplevels[idx].y == m.restored_y
                &&& native ==> (out.configure matches Some(c) && c.surface == st.toplevels[idx].surface && c.w == back.w
                    && c.h == back.h && c.change == StateChange::Tiled(
                    TiledStates { left: false, right: false, top: false, bottom: false, maximized: false },
                ))
            }
        }),
{
    crate::surface::lemma_index_of(s.windows, st.toplevels[idx].surface);
}

/// A maximized window stays put until the pointer has gone far enough; then it is restored
/// under the pointer to the size it had, and follows as any other.
pub proof fn law_maximized_is_pulled_off(s: ShellView, st: SpikeView, idx: usize, m: PointerMotion, i: int)
    requires
        s.active_drag == Some(ActiveDrag::Move { toplevel_idx: idx, pending_unmaximize: true }),
        idx < st.toplevels.len(),
        index_of(s.windows, st.toplevels[idx as int].surface) == Some(i),
    ensures
        0 <= i < s.windows.len(),
        ({
            let (t, st1, out) = pointer_motion(s, st, m);
            &&& !m.past_unmaximize ==> t == s && st1 == st && out.moved is None && out.configure is None
            &&& m.past_unmaximize ==> (s.windows[i].pre_maximize matches Some(back) ==> {
                &&& !t.windows[i].maximized
                &&& t.windows[i].rect == (Area { x: m.restored_x, y: m.restored_y, w: back.w, h: back.h })
                &&& st1.toplevels[idx as int].x == m.restored_x && st1.toplevels[idx as int].y == m.restored_y
                &&& t.active_drag == Some(ActiveDrag::Move { toplevel_idx: idx, pending_unmaximize: false })
                &&& out.unmaximized == Some(st.toplevels[idx as int].surface)
                &&& st.toplevels[idx as int].backing is Xdg ==> out.configure == Some(
                    ConfigureRequest {
                        surface: st.toplevels[idx as int].surface,
                        w: back.w,
                        h: back.h,
                        change: StateChange::Unmaximized,
                    },
                )
            })
        }),
{
    crate::surface::lemma_index_of(s.windows, st.toplevels[idx as int].surface);
}

/// In a resize the window, its toplevel and what its client is told are all of the geometry
/// that the drag comes to; nothing else moves.
pub proof fn law_resized_window_and_client_agree(s: ShellView, st: SpikeView, m: PointerMotion, i: int)
    requires
        s.active_drag matches Some(d) && d is Resize && d->Resize_toplevel_idx < st.toplevels.len() && index_of(
            s.windows,
            st.toplevels[d->Resize_toplevel_idx as int].surface,
        ) == Some(i),
    ensures
        0 <= i < s.windows.len(),
        ({
            let (t, st1, out) = pointer_motion(s, st, m);
            let idx = (s.active_drag->0)->Resize_toplevel_idx as int;
            let r = t.windows[i].rect;
            let step = resize_outcome(s.active_drag->0, m.travel_x, m.travel_y, bands_of(s), m.hints, m.broke_out, m.now);
            &&& step matches Some(step) && r == (Area {
                x: step.geometry.x,
                y: step.geometry.y,
                w: step.geometry.w,
                h: step.geometry.h,
            }) && t.active_drag == Some(step.drag)
            &&& st1.toplevels[idx].x == r.x && st1.toplevels[idx].y == r.y
            &&& out.configure matches Some(c) ==> c.surface == t.windows[i].surface && c.w == r.w && c.h == r.h
                && c.change == StateChange::Resizing(true)
            &&& out.configure is Some <==> st.toplevels[idx].backing is Xdg && (step->0).send_configure
            &&& forall|k: int| 0 <= k < s.windows.len() && k != i ==> #[trigger] t.windows[k] == s.windows[k]
        }),
{
    crate::surface::lemma_index_of(s.windows, st.toplevels[(s.active_drag->0)->Resize_toplevel_idx as int].surface);
}

/// When a resize ends its client is told the size that the window has, and that the resize
/// is over; the end of a move tells a client nothing.
pub proof fn law_release_tells_the_size(s: ShellView, st: SpikeView)
    ensures
        release_configure(s, st) matches Some(c) ==> s.active_drag is Some && s.active_drag->0 is Resize && c.change
            == StateChange::Resizing(false) && index_of(s.windows, c.surface) is Some && c.w == s.windows[index_of(
            s.windows,
            c.surface,
        )->0].rect.w && c.h == s.windows[index_of(s.windows, c.surface)->0].rect.h,
        s.active_drag is Some && s.active_drag->0 is Resize ==> {
            let idx = (s.active_drag->0)->Resize_toplevel_idx as int;
            idx < st.toplevels.len() && st.toplevels[idx].backing is Xdg && index_of(
                s.windows,
                st.toplevels[idx].surface,
            ) is Some ==> release_configure(s, st) is Some && (release_configure(s, st)->0).surface
                == st.toplevels[idx].surface
        },
{
}

/// Without the left button, or with no window under the pointer, a motion only changes the
/// pointer's shape. With it a drag begins: a move on the title bar, or anywhere while Super is
/// held, and a resize on an edge, from the geometry that the window has. The edges of a
/// maximized window begin none.
pub proof fn law_drag_begins_with_the_button(s: ShellView, st: SpikeView, m: PointerMotion, zone: HitZone)
    requires
        s.active_drag is None,
        m.hit == Some(zone),
        st.toplevels.len() <= usize::MAX,
    ensures
        ({
            let (t, st1, out) = pointer_motion(s, st, m);
            let under = grabbed(s, st, m);
            let maximized = under matches Some(idx) && maximized_on(s.windows, st.toplevels[idx].surface);
            &&& !s.left_button_down || under is None ==> t == s && st1 == st && !out.drag_began && out.configure is None
            &&& s.left_button_down && under is Some && (s.super_held || zone is TitleBar) ==> out.drag_began
                && (t.active_drag matches Some(d) && d is Move && d->Move_toplevel_idx == under->0
                && d->pending_unmaximize == maximized)
            &&& s.left_button_down && under is Some && !s.super_held && !maximized && zone.resizes() ==> out.drag_began
                && (t.active_drag matches Some(d) && d is Resize && d->Resize_toplevel_idx == under->0 && Some(d->edge)
                == ResizeEdge::of_zone(zone) && d->start_geom.x == st.toplevels[under->0].x && d->start_geom.y
                == st.toplevels[under->0].y && !d->dock_snapped && d->last_configure_at is None && t.windows
                == s.windows && (index_of(s.windows, st.toplevels[under->0].surface) matches Some(i) ==> d->start_geom.w
                == s.windows[i].rect.w && d->start_geom.h == s.windows[i].rect.h))
            &&& s.left_button_down && !s.super_held && (maximized && zone.resizes() || zone is Content
                || zone.is_control() || zone is Outside) ==> t == s && st1 == st && !out.drag_began
            &&& out.cursor == Some(
                if maximized && zone.resizes() {
                    HitZone::Outside
                } else {
                    zone
                },
            )
        }),
{
    if let Some(idx) = grabbed(s, st, m) {
        lemma_near_is_toplevel(s, st, m, 0);
        crate::resize::law_zone_drags_its_edges(zone);
    }
}

} // verus!
