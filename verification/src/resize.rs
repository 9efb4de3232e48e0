//! Window resizing and moving by dragging.
//!
//! A drag remembers the window's geometry at its start. Every motion derives the
//! new geometry from that and from how far the pointer has travelled since.

use vstd::prelude::*;

use crate::cursor::HitZone;
use crate::num::{clamp_int, max_i32, max_int, min_i32, min_int, sat32, saturate};

verus! {

/// Smallest window content side, in logical pixels.
pub const MIN_WINDOW_SIZE: i32 = 120;

/// Largest window content side, in logical pixels.
pub const MAX_WINDOW_SIZE: i32 = 8192;

/// How much of a window dragged to the bottom stays on screen.
pub const MOVE_BOTTOM_MARGIN: i32 = 24;

/// Shortest time between two resize configures, in nanoseconds.
pub const CONFIGURE_INTERVAL_NS: u64 = 16_000_000;

/// Which edges are being resized.
#[derive(Clone, Copy, Debug, PartialEq, Eq, Structural)]
pub enum ResizeEdge {
    North,
    South,
    East,
    West,
    NorthWest,
    NorthEast,
    SouthWest,
    SouthEast,
}

impl ResizeEdge {
    pub open spec fn moves_left(self) -> bool {
        self == ResizeEdge::West || self == ResizeEdge::NorthWest || self == ResizeEdge::SouthWest
    }

    pub open spec fn moves_right(self) -> bool {
        self == ResizeEdge::East || self == ResizeEdge::NorthEast || self == ResizeEdge::SouthEast
    }

    pub open spec fn moves_top(self) -> bool {
        self == ResizeEdge::North || self == ResizeEdge::NorthWest || self == ResizeEdge::NorthEast
    }

    pub open spec fn moves_bottom(self) -> bool {
        self == ResizeEdge::South || self == ResizeEdge::SouthWest || self == ResizeEdge::SouthEast
    }

    /// The edge or corner that a zone resizes.
    pub open spec fn of_zone(zone: HitZone) -> Option<ResizeEdge> {
        match zone {
            HitZone::EdgeNorth => Some(ResizeEdge::North),
            HitZone::EdgeSouth => Some(ResizeEdge::South),
            HitZone::EdgeEast => Some(ResizeEdge::East),
            HitZone::EdgeWest => Some(ResizeEdge::West),
            HitZone::CornerNW => Some(ResizeEdge::NorthWest),
            HitZone::CornerNE => Some(ResizeEdge::NorthEast),
            HitZone::CornerSW => Some(ResizeEdge::SouthWest),
            HitZone::CornerSE => Some(ResizeEdge::SouthEast),
            _ => None,
        }
    }

    /// Maps a hit zone to the edge it resizes, if it is an edge or a corner.
    pub fn from_zone(zone: HitZone) -> (r: Option<ResizeEdge>)
        ensures
            r == ResizeEdge::of_zone(zone),
    {
        match zone {
            HitZone::EdgeNorth => Some(ResizeEdge::North),
            HitZone::EdgeSouth => Some(ResizeEdge::South),
            HitZone::EdgeEast => Some(ResizeEdge::East),
            HitZone::EdgeWest => Some(ResizeEdge::West),
            HitZone::CornerNW => Some(ResizeEdge::NorthWest),
            HitZone::CornerNE => Some(ResizeEdge::NorthEast),
            HitZone::CornerSW => Some(ResizeEdge::SouthWest),
            HitZone::CornerSE => Some(ResizeEdge::SouthEast),
            _ => None,
        }
    }

    fn is_left(self) -> (r: bool)
        ensures
            r == self.moves_left(),
    {
        match self {
            ResizeEdge::West | ResizeEdge::NorthWest | ResizeEdge::SouthWest => true,
            _ => false,
        }
    }

    fn is_right(self) -> (r: bool)
        ensures
            r == self.moves_right(),
    {
        match self {
            ResizeEdge::East | ResizeEdge::NorthEast | ResizeEdge::SouthEast => true,
            _ => false,
        }
    }

    fn is_top(self) -> (r: bool)
        ensures
            r == self.moves_top(),
    {
        match self {
            ResizeEdge::North | ResizeEdge::NorthWest | ResizeEdge::NorthEast => true,
            _ => false,
        }
    }

    fn is_bottom(self) -> (r: bool)
        ensures
            r == self.moves_bottom(),
    {
        match self {
            ResizeEdge::South | ResizeEdge::SouthWest | ResizeEdge::SouthEast => true,
            _ => false,
        }
    }
}

/// A window's position and content size.
#[derive(Clone, Copy, Debug, PartialEq, Eq, Structural)]
pub struct WindowGeomSnapshot {
    pub x: i32,
    pub y: i32,
    pub w: i32,
    pub h: i32,
}

/// The drag in progress. Where the pointer was at its start is kept by the
/// caller, who hands in how far it has travelled.
#[derive(Clone, Copy, Debug, PartialEq, Eq, Structural)]
pub enum ActiveDrag {
    Resize {
        /// Index into the list of toplevels.
        toplevel_idx: usize,
        edge: ResizeEdge,
        start_geom: WindowGeomSnapshot,
        /// When the client was last told a size, in nanoseconds.
        last_configure_at: Option<u64>,
        /// The bottom edge is held at the top of the dock.
        dock_snapped: bool,
    },
    Move {
        toplevel_idx: usize,
        /// The window was maximized when the drag began and is restored once
        /// the pointer has travelled far enough.
        pending_unmaximize: bool,
    },
}

/// The side that follows the pointer: `near` where its low end moves, `far`
/// where its high end does.
pub open spec fn dragged_side(len: i32, near: bool, far: bool, travel: i32) -> int {
    if near {
        len - travel
    } else if far {
        len + travel
    } else {
        len as int
    }
}

/// The side after it was brought into the allowed range.
pub open spec fn clamped_side(len: i32, near: bool, far: bool, travel: i32) -> i32 {
    clamp_int(dragged_side(len, near, far, travel), MIN_WINDOW_SIZE as int, MAX_WINDOW_SIZE as int) as i32
}

/// The low end: it moves with the pointer, but stops where the side would get
/// too short.
pub open spec fn dragged_start(start: i32, len: i32, near: bool, far: bool, travel: i32) -> i32 {
    if !near {
        start
    } else if dragged_side(len, near, far, travel) < MIN_WINDOW_SIZE {
        sat32(start + len - MIN_WINDOW_SIZE)
    } else {
        sat32(start + travel)
    }
}

/// The geometry after the pointer travelled by `dx` and `dy`.
pub open spec fn resized(edge: ResizeEdge, g: WindowGeomSnapshot, dx: i32, dy: i32) -> WindowGeomSnapshot {
    WindowGeomSnapshot {
        x: dragged_start(g.x, g.w, edge.moves_left(), edge.moves_right(), dx),
        y: dragged_start(g.y, g.h, edge.moves_top(), edge.moves_bottom(), dy),
        w: clamped_side(g.w, edge.moves_left(), edge.moves_right(), dx),
        h: clamped_side(g.h, edge.moves_top(), edge.moves_bottom(), dy),
    }
}

fn drag_axis(start: i32, len: i32, near: bool, far: bool, travel: i32) -> (r: (i32, i32))
    ensures
        r.0 == dragged_start(start, len, near, far, travel),
        r.1 == clamped_side(len, near, far, travel),
{
    let side: i64 = if near {
        len as i64 - travel as i64
    } else if far {
        len as i64 + travel as i64
    } else {
        len as i64
    };
    let mut at: i32 = start;
    if near {
        at = saturate(start as i64 + travel as i64);
    }
    if side < MIN_WINDOW_SIZE as i64 {
        if near {
            at = saturate(start as i64 + len as i64 - MIN_WINDOW_SIZE as i64);
        }
        return (at, MIN_WINDOW_SIZE);
    }
    if side > MAX_WINDOW_SIZE as i64 {
        (at, MAX_WINDOW_SIZE)
    } else {
        (at, side as i32)
    }
}

/// The window geometry after a resize drag, as x, y, content width and content
/// height, when the pointer has travelled by `dx` and `dy`.
pub fn compute_resize(drag: &ActiveDrag, dx: i32, dy: i32) -> (r: Option<(i32, i32, i32, i32)>)
    ensures
        match *drag {
            ActiveDrag::Resize { edge, start_geom, .. } => {
                let g = resized(edge, start_geom, dx, dy);
                r == Some((g.x, g.y, g.w, g.h))
            },
            ActiveDrag::Move { .. } => r is None,
        },
{
    match drag {
        ActiveDrag::Resize { edge, start_geom, .. } => {
            let (x, w): (i32, i32) = drag_axis(start_geom.x, start_geom.w, edge.is_left(), edge.is_right(), dx);
            let (y, h): (i32, i32) = drag_axis(start_geom.y, start_geom.h, edge.is_top(), edge.is_bottom(), dy);
            Some((x, y, w, h))
        },
        ActiveDrag::Move { .. } => None,
    }
}

/// The window position after a move drag: where its corner is carried to.
pub fn compute_move(drag: &ActiveDrag, x: i32, y: i32) -> (r: Option<(i32, i32)>)
    ensures
        r == match *drag {
            ActiveDrag::Move { .. } => Some((x, y)),
            ActiveDrag::Resize { .. } => None::<(i32, i32)>,
        },
{
    match drag {
        ActiveDrag::Move { .. } => Some((x, y)),
        ActiveDrag::Resize { .. } => None,
    }
}

/// The shell areas that a drag has to respect.
#[derive(Clone, Copy, Debug, PartialEq, Eq, Structural)]
pub struct ShellBands {
    /// Height of the panel at the top of the output.
    pub panel_h: i32,
    /// The line where the dock begins.
    pub dock_top: i32,
}

/// The client's own limits on its content size; zero stands for none.
#[derive(Clone, Copy, Debug, PartialEq, Eq, Structural)]
pub struct SizeHints {
    pub min_w: i32,
    pub min_h: i32,
    pub max_w: i32,
    pub max_h: i32,
}

/// Keeps a dragged top edge out of the panel; the bottom edge stays.
pub open spec fn below_panel(
    edge: ResizeEdge,
    start: WindowGeomSnapshot,
    g: WindowGeomSnapshot,
    panel_h: i32,
) -> WindowGeomSnapshot {
    if edge.moves_top() && g.y < panel_h {
        WindowGeomSnapshot {
            y: panel_h,
            h: max_int(sat32(start.y + start.h - panel_h) as int, MIN_WINDOW_SIZE as int) as i32,
            ..g
        }
    } else {
        g
    }
}

/// Whether the bottom edge is held at the dock after this motion: it is caught
/// when it reaches the dock and let go when the pointer has moved on far enough.
pub open spec fn held_at_dock(edge: ResizeEdge, g: WindowGeomSnapshot, dock_top: i32, held: bool, broke_out: bool) -> bool {
    edge.moves_bottom() && if held {
        !broke_out
    } else {
        g.y + g.h >= dock_top
    }
}

/// The geometry of a resize drag before the client's limits.
pub open spec fn resize_target(
    edge: ResizeEdge,
    start: WindowGeomSnapshot,
    dx: i32,
    dy: i32,
    bands: ShellBands,
    held: bool,
    broke_out: bool,
) -> WindowGeomSnapshot {
    let g = below_panel(edge, start, resized(edge, start, dx, dy), bands.panel_h);
    if held_at_dock(edge, g, bands.dock_top, held, broke_out) {
        WindowGeomSnapshot {
            h: max_int(sat32(bands.dock_top - g.y) as int, MIN_WINDOW_SIZE as int) as i32,
            ..g
        }
    } else {
        g
    }
}

/// A content side within the client's limits, but never below the smallest.
pub open spec fn hinted(side: i32, min: i32, max: i32) -> i32 {
    let a = if min > 0 {
        max_int(side as int, min as int)
    } else {
        side as int
    };
    let b = if max > 0 {
        min_int(a, max as int)
    } else {
        a
    };
    max_int(b, MIN_WINDOW_SIZE as int) as i32
}

fn apply_hint(side: i32, min: i32, max: i32) -> (r: i32)
    ensures
        r == hinted(side, min, max),
{
    let mut s: i32 = side;
    if min > 0 {
        s = max_i32(s, min);
    }
    if max > 0 {
        s = min_i32(s, max);
    }
    max_i32(s, MIN_WINDOW_SIZE)
}

/// Whether a configure is due: none was sent yet, or long enough ago.
pub open spec fn configure_due(last: Option<u64>, now: u64) -> bool {
    match last {
        Some(t) => now - t >= CONFIGURE_INTERVAL_NS,
        None => true,
    }
}

/// What one motion of a resize drag leads to.
#[derive(Clone, Copy, Debug, PartialEq, Eq, Structural)]
pub struct ResizeStep {
    /// Where the window goes, with the content size the client is given.
    pub geometry: WindowGeomSnapshot,
    /// The client is told its size now.
    pub send_configure: bool,
    /// The drag as it continues.
    pub drag: ActiveDrag,
}

/// What one motion of a resize drag leads to.
pub open spec fn resize_outcome(
    drag: ActiveDrag,
    dx: i32,
    dy: i32,
    bands: ShellBands,
    hints: SizeHints,
    broke_out: bool,
    now: u64,
) -> Option<ResizeStep> {
    match drag {
        ActiveDrag::Resize { toplevel_idx, edge, start_geom, last_configure_at, dock_snapped } => {
            let t = resize_target(edge, start_geom, dx, dy, bands, dock_snapped, broke_out);
            let g = below_panel(edge, start_geom, resized(edge, start_geom, dx, dy), bands.panel_h);
            let send = configure_due(last_configure_at, now);
            Some(
                ResizeStep {
                    geometry: WindowGeomSnapshot {
                        x: t.x,
                        y: t.y,
                        w: hinted(t.w, hints.min_w, hints.max_w),
                        h: hinted(t.h, hints.min_h, hints.max_h),
                    },
                    send_configure: send,
                    drag: ActiveDrag::Resize {
                        toplevel_idx,
                        edge,
                        start_geom,
                        last_configure_at: if send {
                            Some(now)
                        } else {
                            last_configure_at
                        },
                        dock_snapped: if edge.moves_bottom() {
                            held_at_dock(edge, g, bands.dock_top, dock_snapped, broke_out)
                        } else {
                            dock_snapped
                        },
                    },
                },
            )
        },
        ActiveDrag::Move { .. } => None,
    }
}

/// One motion of a resize drag. `broke_out` tells whether the pointer has moved
/// past the release threshold since the bottom edge was caught by the dock.
pub fn resize_step(
    drag: &ActiveDrag,
    dx: i32,
    dy: i32,
    bands: ShellBands,
    hints: SizeHints,
    broke_out: bool,
    now: u64,
) -> (r: Option<ResizeStep>)
    ensures
        r == resize_outcome(*drag, dx, dy, bands, hints, broke_out, now),
{
    match drag {
        ActiveDrag::Resize { toplevel_idx, edge, start_geom, last_configure_at, dock_snapped } => {
            let (x, w): (i32, i32) = drag_axis(start_geom.x, start_geom.w, edge.is_left(), edge.is_right(), dx);
            let (mut y, mut h): (i32, i32) = drag_axis(start_geom.y, start_geom.h, edge.is_top(), edge.is_bottom(), dy);
            if edge.is_top() && y < bands.panel_h {
                let bottom: i64 = start_geom.y as i64 + start_geom.h as i64;
                y = bands.panel_h;
                h = max_i32(saturate(bottom - y as i64), MIN_WINDOW_SIZE);
            }
            let mut held = *dock_snapped;
            if edge.is_bottom() {
                if held {
                    held = !broke_out;
                } else {
                    held = y as i64 + h as i64 >= bands.dock_top as i64;
                }
                if held {
                    h = max_i32(saturate(bands.dock_top as i64 - y as i64), MIN_WINDOW_SIZE);
                }
            }
            let send = match last_configure_at {
                Some(t) => now >= *t && now - *t >= CONFIGURE_INTERVAL_NS,
                None => true,
            };
            let sent_at: Option<u64> = if send {
                Some(now)
            } else {
                *last_configure_at
            };
            Some(
                ResizeStep {
                    geometry: WindowGeomSnapshot {
                        x,
                        y,
                        w: apply_hint(w, hints.min_w, hints.max_w),
                        h: apply_hint(h, hints.min_h, hints.max_h),
                    },
                    send_configure: send,
                    drag: ActiveDrag::Resize {
                        toplevel_idx: *toplevel_idx,
                        edge: *edge,
                        start_geom: *start_geom,
                        last_configure_at: sent_at,
                        dock_snapped: held,
                    },
                },
            )
        },
        ActiveDrag::Move { .. } => None,
    }
}

/// The upper side of a moved window, between the panel and the bottom of the output.
pub open spec fn moved_top(y: i32, panel_h: i32, output_h: i32) -> int {
    clamp_int(
        y as int,
        panel_h as int,
        max_int(sat32(output_h - MOVE_BOTTOM_MARGIN) as int, panel_h as int),
    )
}

/// Where a moved window goes: its title bar stays below the panel and on the
/// output, whatever the pointer does.
pub fn move_target(x: i32, y: i32, panel_h: i32, output_h: i32) -> (r: (i32, i32))
    ensures
        r.0 == x,
        r.1 == moved_top(y, panel_h, output_h),
{
    let max_y: i32 = max_i32(saturate(output_h as i64 - MOVE_BOTTOM_MARGIN as i64), panel_h);
    (x, crate::num::clamp_i32(y, panel_h, max_y))
}

/// Both sides of a resized window stay within the allowed range.
pub proof fn law_resize_size_bounds(edge: ResizeEdge, g: WindowGeomSnapshot, dx: i32, dy: i32)
    ensures
        MIN_WINDOW_SIZE <= resized(edge, g, dx, dy).w <= MAX_WINDOW_SIZE,
        MIN_WINDOW_SIZE <= resized(edge, g, dx, dy).h <= MAX_WINDOW_SIZE,
{
}

/// The edges that are not dragged stay where they were, as long as the window
/// does not reach its largest size and lies on the coordinate plane.
pub proof fn law_resize_keeps_opposite_edges(edge: ResizeEdge, g: WindowGeomSnapshot, dx: i32, dy: i32)
    requires
        MIN_WINDOW_SIZE <= g.w <= MAX_WINDOW_SIZE,
        MIN_WINDOW_SIZE <= g.h <= MAX_WINDOW_SIZE,
        dragged_side(g.w, edge.moves_left(), edge.moves_right(), dx) <= MAX_WINDOW_SIZE,
        dragged_side(g.h, edge.moves_top(), edge.moves_bottom(), dy) <= MAX_WINDOW_SIZE,
        g.x + g.w <= i32::MAX,
        g.y + g.h <= i32::MAX,
        edge.moves_left() ==> i32::MIN <= g.x + dx,
        edge.moves_top() ==> i32::MIN <= g.y + dy,
    ensures
        ({
            let r = resized(edge, g, dx, dy);
            &&& !edge.moves_left() ==> r.x == g.x
            &&& !edge.moves_right() ==> r.x + r.w == g.x + g.w
            &&& !edge.moves_top() ==> r.y == g.y
            &&& !edge.moves_bottom() ==> r.y + r.h == g.y + g.h
        }),
{
}

/// A drag that comes back to where it began restores the geometry.
pub proof fn law_resize_by_nothing(edge: ResizeEdge, g: WindowGeomSnapshot)
    requires
        MIN_WINDOW_SIZE <= g.w <= MAX_WINDOW_SIZE,
        MIN_WINDOW_SIZE <= g.h <= MAX_WINDOW_SIZE,
    ensures
        resized(edge, g, 0, 0) == g,
{
}

/// A dragged top edge never enters the panel.
pub proof fn law_resize_stays_below_panel(
    edge: ResizeEdge,
    g: WindowGeomSnapshot,
    dx: i32,
    dy: i32,
    bands: ShellBands,
    held: bool,
    broke_out: bool,
)
    requires
        g.y >= bands.panel_h,
    ensures
        resize_target(edge, g, dx, dy, bands, held, broke_out).y >= bands.panel_h,
{
}

/// A moved window's title bar stays below the panel.
pub proof fn law_move_stays_below_panel(y: i32, panel_h: i32, output_h: i32)
    ensures
        moved_top(y, panel_h, output_h) >= panel_h,
{
}

/// The client gets no side shorter than it allows and none longer, as long as its limits
/// can both be met; a side never gets shorter than the smallest window.
pub proof fn law_resize_keeps_limits(
    drag: ActiveDrag,
    dx: i32,
    dy: i32,
    bands: ShellBands,
    hints: SizeHints,
    broke_out: bool,
    now: u64,
)
    ensures
        resize_outcome(drag, dx, dy, bands, hints, broke_out, now) matches Some(step) ==> {
            let g = step.geometry;
            &&& g.w >= 120 && g.h >= 120
            &&& hints.min_w > 0 && (hints.max_w <= 0 || hints.max_w >= hints.min_w) ==> g.w >= hints.min_w
            &&& hints.min_h > 0 && (hints.max_h <= 0 || hints.max_h >= hints.min_h) ==> g.h >= hints.min_h
            &&& hints.max_w >= 120 ==> g.w <= hints.max_w
            &&& hints.max_h >= 120 ==> g.h <= hints.max_h
        },
{
}

/// A dragged edge goes where the pointer goes, and what is not dragged stays, as long as
/// the window keeps an allowed size that its client accepts, its upper edge clear of the
/// panel and its lower edge above the dock.
pub proof fn law_edge_follows_pointer(
    drag: ActiveDrag,
    dx: i32,
    dy: i32,
    bands: ShellBands,
    hints: SizeHints,
    broke_out: bool,
    now: u64,
)
    requires
        drag is Resize,
        !drag->dock_snapped,
        ({
            let s = drag->start_geom;
            let left = if drag->edge.moves_left() { s.x + dx } else { s.x as int };
            let right = if drag->edge.moves_right() { s.x + s.w + dx } else { s.x + s.w };
            let top = if drag->edge.moves_top() { s.y + dy } else { s.y as int };
            let bottom = if drag->edge.moves_bottom() { s.y + s.h + dy } else { s.y + s.h };
            &&& i32::MIN <= left && right <= i32::MAX && i32::MIN <= top && bottom <= i32::MAX
            &&& 120 <= right - left <= 8192 && 120 <= bottom - top <= 8192
            &&& hints.min_w <= right - left && (hints.max_w <= 0 || hints.max_w >= right - left)
            &&& hints.min_h <= bottom - top && (hints.max_h <= 0 || hints.max_h >= bottom - top)
            &&& drag->edge.moves_top() ==> top >= bands.panel_h
            &&& drag->edge.moves_bottom() ==> bottom < bands.dock_top
        }),
    ensures
        resize_outcome(drag, dx, dy, bands, hints, broke_out, now) matches Some(step) && {
            let s = drag->start_geom;
            let g = step.geometry;
            &&& g.x == s.x + if drag->edge.moves_left() { dx as int } else { 0 }
            &&& g.y == s.y + if drag->edge.moves_top() { dy as int } else { 0 }
            &&& g.x + g.w == s.x + s.w + if drag->edge.moves_right() { dx as int } else { 0 }
            &&& g.y + g.h == s.y + s.h + if drag->edge.moves_bottom() { dy as int } else { 0 }
        },
{
}

/// Each edge and corner is dragged by the zone of its name.
pub proof fn law_zone_drags_its_edges(zone: HitZone)
    ensures
        match ResizeEdge::of_zone(zone) {
            Some(e) => {
                &&& e.moves_left() <==> (zone is EdgeWest || zone is CornerNW || zone is CornerSW)
                &&& e.moves_right() <==> (zone is EdgeEast || zone is CornerNE || zone is CornerSE)
                &&& e.moves_top() <==> (zone is EdgeNorth || zone is CornerNW || zone is CornerNE)
                &&& e.moves_bottom() <==> (zone is EdgeSouth || zone is CornerSW || zone is CornerSE)
                &&& !(e.moves_left() && e.moves_right()) && !(e.moves_top() && e.moves_bottom())
                &&& e.moves_left() || e.moves_right() || e.moves_top() || e.moves_bottom()
            },
            None => !(zone is EdgeWest || zone is EdgeEast || zone is EdgeNorth || zone is EdgeSouth
                || zone is CornerNW || zone is CornerNE || zone is CornerSW || zone is CornerSE),
        },
        zone.resizes() <==> ResizeEdge::of_zone(zone) is Some,
{
}

/// A lower edge that comes to the dock rests on it and stays there until the pointer breaks
/// out; then it follows the pointer again, and is not caught in that motion.
pub proof fn law_dock_catches_and_lets_go(
    drag: ActiveDrag,
    dx: i32,
    dy: i32,
    bands: ShellBands,
    hints: SizeHints,
    broke_out: bool,
    now: u64,
)
    requires
        drag is Resize,
        drag->edge.moves_bottom(),
        drag->start_geom.y >= bands.panel_h,
        bands.dock_top - drag->start_geom.y <= i32::MAX,
    ensures
        resize_outcome(drag, dx, dy, bands, hints, broke_out, now) matches Some(step) && step.drag is Resize && {
            let s = drag->start_geom;
            let reached = s.y + s.h + dy >= bands.dock_top;
            let free = hints.min_h <= 0 && hints.max_h <= 0;
            &&& drag->dock_snapped ==> step.drag->dock_snapped == !broke_out
            &&& !drag->dock_snapped && 120 <= s.h + dy <= 8192 ==> step.drag->dock_snapped == reached
            &&& step.drag->dock_snapped && free && bands.dock_top - s.y >= 120 ==> step.geometry.y
                + step.geometry.h == bands.dock_top
            &&& !step.drag->dock_snapped && free && 120 <= s.h + dy <= 8192 ==> step.geometry.h == s.h + dy
        },
{
}

/// A client hears of a new size at the first motion and then at most once in sixteen
/// milliseconds; the time of the last message is remembered, and the rest of the drag stays.
pub proof fn law_sizes_are_told_in_intervals(
    drag: ActiveDrag,
    dx: i32,
    dy: i32,
    bands: ShellBands,
    hints: SizeHints,
    broke_out: bool,
    now: u64,
)
    requires
        drag is Resize,
    ensures
        resize_outcome(drag, dx, dy, bands, hints, broke_out, now) matches Some(step) && step.drag is Resize && {
            &&& drag->last_configure_at is None ==> step.send_configure
            &&& drag->last_configure_at matches Some(t) ==> (step.send_configure <==> now >= t + 16_000_000)
            &&& step.send_configure ==> step.drag->last_configure_at == Some(now)
            &&& !step.send_configure ==> step.drag->last_configure_at == drag->last_configure_at
            &&& step.drag->edge == drag->edge && step.drag->start_geom == drag->start_geom
            &&& step.drag->Resize_toplevel_idx == drag->Resize_toplevel_idx
        },
{
}

/// A window that is moved keeps its place under the pointer between the panel and the
/// bottom of the output, where at least a strip of it stays.
pub proof fn law_move_follows_pointer(y: i32, panel_h: i32, output_h: i32)
    requires
        output_h >= panel_h + 24,
        panel_h >= 0,
    ensures
        ({
            let at = moved_top(y, panel_h, output_h);
            &&& panel_h <= at <= output_h - 24
            &&& panel_h <= y <= output_h - 24 ==> at == y
            &&& y < panel_h ==> at == panel_h
            &&& y > output_h - 24 ==> at == output_h - 24
        }),
{
}

} // verus!
