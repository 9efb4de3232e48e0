//! Popups: where they are on the output, and which surface is under the pointer.

use vstd::prelude::*;

use crate::cursor::Coord;
use crate::layer_shell::{Area, Layer, LayerInfo};
use crate::num::{max_i32, max_int, sat32, saturate};
use crate::state::{Backing, PopupInfo, SpikeState, ToplevelInfo};
use crate::surface::{index_of, position, SurfaceId};
use crate::windows::WindowState;

verus! {

/// How many popups may be nested in one another.
pub const MAX_NESTING: u32 = 16;

/// Where a window's content begins: below the title bar that is drawn for it.
pub open spec fn content_origin(w: &WindowState, titlebar_h: i32) -> (int, int) {
    (
        w.shown.x as int,
        w.shown.y + if w.csd {
            0
        } else {
            titlebar_h as int
        },
    )
}

fn content_corner(w: &WindowState, titlebar_h: i32) -> (r: (i64, i64))
    ensures
        r.0 == content_origin(w, titlebar_h).0,
        r.1 == content_origin(w, titlebar_h).1,
        -0x2_0000_0000 <= r.0 <= 0x2_0000_0000,
        -0x2_0000_0000 <= r.1 <= 0x2_0000_0000,
{
    let bar: i64 = if w.csd {
        0
    } else {
        titlebar_h as i64
    };
    (w.shown.x as i64, w.shown.y as i64 + bar)
}

/// The position of a popup's parent on the output: that of the window at the end of
/// the chain of parents, and the offsets of the popups between. No position where the
/// chain does not end at a window, or is too long.
pub open spec fn anchor(
    popups: Seq<PopupInfo>,
    windows: Seq<WindowState>,
    titlebar_h: i32,
    parent: SurfaceId,
    hops: nat,
) -> Option<(int, int)>
    decreases hops,
{
    if hops == 0 {
        None
    } else {
        match index_of(popups, parent) {
            Some(i) => match anchor(popups, windows, titlebar_h, popups[i].parent, (hops - 1) as nat) {
                Some((x, y)) => Some((x + popups[i].rel.x, y + popups[i].rel.y)),
                None => None,
            },
            None => match index_of(windows, parent) {
                Some(i) => Some(content_origin(&windows[i], titlebar_h)),
                None => None,
            },
        }
    }
}

fn find_anchor(
    popups: &Vec<PopupInfo>,
    windows: &Vec<WindowState>,
    titlebar_h: i32,
    parent: SurfaceId,
    hops: u32,
) -> (r: Option<(i64, i64)>)
    requires
        hops <= MAX_NESTING,
    ensures
        match anchor(popups@, windows@, titlebar_h, parent, hops as nat) {
            Some((x, y)) => r == Some((x as i64, y as i64)) && -0x2_0000_0000 * (hops + 1) <= x <= 0x2_0000_0000 * (
            hops + 1) && -0x2_0000_0000 * (hops + 1) <= y <= 0x2_0000_0000 * (hops + 1),
            None => r is None,
        },
    decreases hops,
{
    if hops == 0 {
        return None;
    }
    match position(popups, parent) {
        Some(i) => {
            match find_anchor(popups, windows, titlebar_h, popups[i].parent, hops - 1) {
                Some((x, y)) => Some((x + popups[i].rel.x as i64, y + popups[i].rel.y as i64)),
                None => None,
            }
        },
        None => match position(windows, parent) {
            Some(i) => Some(content_corner(&windows[i], titlebar_h)),
            None => None,
        },
    }
}

/// A popup's rectangle on the output.
#[derive(Clone, Copy, Debug, PartialEq, Eq, Structural)]
pub struct PopupRect {
    pub x: i64,
    pub y: i64,
    pub w: i32,
    pub h: i32,
}

/// The side of a popup: as it was configured, or as large as its buffer.
pub open spec fn popup_side(configured: i32, buffer: u32) -> i32 {
    if configured > 0 {
        configured
    } else {
        buffer as i32
    }
}

fn side_of(configured: i32, buffer: u32) -> (r: i32)
    ensures
        r == popup_side(configured, buffer),
{
    if configured > 0 {
        configured
    } else {
        buffer as i32
    }
}

/// The rectangle of a popup on the output, if it has a size and belongs to a window.
pub open spec fn popup_area(
    popups: Seq<PopupInfo>,
    windows: Seq<WindowState>,
    titlebar_h: i32,
    popup: &PopupInfo,
) -> Option<PopupRect> {
    let w = popup_side(popup.rel.w, popup.pixels.width);
    let h = popup_side(popup.rel.h, popup.pixels.height);
    if w <= 0 || h <= 0 {
        None
    } else {
        match anchor(popups, windows, titlebar_h, popup.parent, MAX_NESTING as nat) {
            Some((x, y)) => Some(
                PopupRect { x: (x + popup.rel.x) as i64, y: (y + popup.rel.y) as i64, w, h },
            ),
            None => None,
        }
    }
}

/// The rectangle of a popup on the output, if it has a size and belongs to a window.
pub fn popup_rect(
    popups: &Vec<PopupInfo>,
    windows: &Vec<WindowState>,
    titlebar_h: i32,
    popup: &PopupInfo,
) -> (r: Option<PopupRect>)
    ensures
        r == popup_area(popups@, windows@, titlebar_h, popup),
        r matches Some(p) ==> -0x100_0000_0000 <= p.x <= 0x100_0000_0000 && -0x100_0000_0000 <= p.y
            <= 0x100_0000_0000,
{
    let w: i32 = side_of(popup.rel.w, popup.pixels.width);
    let h: i32 = side_of(popup.rel.h, popup.pixels.height);
    if w <= 0 || h <= 0 {
        return None;
    }
    match find_anchor(popups, windows, titlebar_h, popup.parent, MAX_NESTING) {
        Some((x, y)) => Some(PopupRect { x: x + popup.rel.x as i64, y: y + popup.rel.y as i64, w, h }),
        None => None,
    }
}

/// A surface under the pointer, and where its corner is on the output.
#[derive(Clone, Copy, Debug, PartialEq, Eq, Structural)]
pub struct SurfaceHit {
    pub surface: SurfaceId,
    pub x: i64,
    pub y: i64,
}

/// Whether a point is in a rectangle.
pub open spec fn covers(x: Coord, y: Coord, left: int, top: int, w: int, h: int) -> bool {
    x.within(left, w) && y.within(top, h)
}

/// What a surface tree has at a point whose root is known: the surface of the tree that
/// is there, or else the root.
pub open spec fn refined(root: Option<SurfaceHit>, tree: Option<SurfaceHit>) -> Option<SurfaceHit> {
    if root is Some && tree is Some {
        tree
    } else {
        root
    }
}

fn refine(root: Option<SurfaceHit>, tree: Option<SurfaceHit>) -> (r: Option<SurfaceHit>)
    ensures
        r == refined(root, tree),
{
    if root.is_some() && tree.is_some() {
        tree
    } else {
        root
    }
}

/// The last of the first `n` popups whose rectangle holds the point: later popups are
/// above earlier ones.
pub open spec fn popup_hit(
    popups: Seq<PopupInfo>,
    windows: Seq<WindowState>,
    titlebar_h: i32,
    x: Coord,
    y: Coord,
    n: int,
) -> Option<SurfaceHit>
    decreases n,
{
    if n <= 0 {
        None
    } else {
        let p = popups[n - 1];
        match popup_area(popups, windows, titlebar_h, &p) {
            Some(r) => if covers(x, y, r.x as int, r.y as int, r.w as int, r.h as int) {
                Some(SurfaceHit { surface: p.surface, x: r.x, y: r.y })
            } else {
                popup_hit(popups, windows, titlebar_h, x, y, n - 1)
            },
            None => popup_hit(popups, windows, titlebar_h, x, y, n - 1),
        }
    }
}

fn point_in(x: Coord, y: Coord, left: i64, top: i64, w: i32, h: i32) -> (r: bool)
    requires
        -0x100_0000_0000 <= left <= 0x100_0000_0000,
        -0x100_0000_0000 <= top <= 0x100_0000_0000,
    ensures
        r == covers(x, y, left as int, top as int, w as int, h as int),
{
    x.at_least(left) && x.below(left + w as i64) && y.at_least(top) && y.below(top + h as i64)
}

fn popup_root_under(
    popups: &Vec<PopupInfo>,
    windows: &Vec<WindowState>,
    titlebar_h: i32,
    x: Coord,
    y: Coord,
) -> (r: Option<SurfaceHit>)
    ensures
        r == popup_hit(popups@, windows@, titlebar_h, x, y, popups@.len() as int),
{
    let mut n: usize = popups.len();
    while n > 0
        invariant
            0 <= n <= popups@.len(),
            popup_hit(popups@, windows@, titlebar_h, x, y, popups@.len() as int) == popup_hit(
                popups@,
                windows@,
                titlebar_h,
                x,
                y,
                n as int,
            ),
        decreases n,
    {
        n = n - 1;
        if let Some(r) = popup_rect(popups, windows, titlebar_h, &popups[n]) {
            if point_in(x, y, r.x, r.y, r.w, r.h) {
                return Some(SurfaceHit { surface: popups[n].surface, x: r.x, y: r.y });
            }
        }
    }
    None
}

/// The surface of a popup under a point. `tree` is the surface that the popup's tree has
/// there.
pub fn popup_surface_under(
    popups: &Vec<PopupInfo>,
    windows: &Vec<WindowState>,
    titlebar_h: i32,
    x: Coord,
    y: Coord,
    tree: Option<SurfaceHit>,
) -> (r: Option<SurfaceHit>)
    ensures
        r == refined(popup_hit(popups@, windows@, titlebar_h, x, y, popups@.len() as int), tree),
{
    refine(popup_root_under(popups, windows, titlebar_h, x, y), tree)
}

/// The rectangle of an X11 window that places itself.
pub open spec fn self_placed(t: &ToplevelInfo) -> Option<Area> {
    match t.backing {
        Backing::X11 { override_redirect, geometry, .. } => if override_redirect {
            Some(geometry)
        } else {
            None
        },
        Backing::Xdg { .. } => None,
    }
}

fn self_placed_area(t: &ToplevelInfo) -> (r: Option<Area>)
    ensures
        r == self_placed(t),
{
    match t.backing {
        Backing::X11 { override_redirect, geometry, .. } => if override_redirect {
            Some(geometry)
        } else {
            None
        },
        Backing::Xdg { .. } => None,
    }
}

/// The last of the first `n` self-placed X11 windows that holds the point.
pub open spec fn x11_hit(toplevels: Seq<ToplevelInfo>, x: Coord, y: Coord, n: int) -> Option<SurfaceHit>
    decreases n,
{
    if n <= 0 {
        None
    } else {
        let t = toplevels[n - 1];
        match self_placed(&t) {
            Some(g) => if covers(x, y, g.x as int, g.y as int, max_int(g.w as int, 1), max_int(g.h as int, 1)) {
                Some(SurfaceHit { surface: t.surface, x: g.x as i64, y: g.y as i64 })
            } else {
                x11_hit(toplevels, x, y, n - 1)
            },
            None => x11_hit(toplevels, x, y, n - 1),
        }
    }
}

fn x11_root_under(toplevels: &Vec<ToplevelInfo>, x: Coord, y: Coord) -> (r: Option<SurfaceHit>)
    ensures
        r == x11_hit(toplevels@, x, y, toplevels@.len() as int),
{
    let mut n: usize = toplevels.len();
    while n > 0
        invariant
            0 <= n <= toplevels@.len(),
            x11_hit(toplevels@, x, y, toplevels@.len() as int) == x11_hit(toplevels@, x, y, n as int),
        decreases n,
    {
        n = n - 1;
        if let Some(g) = self_placed_area(&toplevels[n]) {
            if point_in(x, y, g.x as i64, g.y as i64, max_i32(g.w, 1), max_i32(g.h, 1)) {
                return Some(SurfaceHit { surface: toplevels[n].surface, x: g.x as i64, y: g.y as i64 });
            }
        }
    }
    None
}

/// The surface of an X11 menu or tooltip under a point. `tree` is the surface that its
/// tree has there.
pub fn x11_override_redirect_surface_under(
    toplevels: &Vec<ToplevelInfo>,
    x: Coord,
    y: Coord,
    tree: Option<SurfaceHit>,
) -> (r: Option<SurfaceHit>)
    ensures
        r == refined(x11_hit(toplevels@, x, y, toplevels@.len() as int), tree),
{
    refine(x11_root_under(toplevels, x, y), tree)
}

/// Whether a layer surface is in a layer and holds the point.
pub open spec fn layer_holds(l: &LayerInfo, layer: Layer, x: Coord, y: Coord) -> bool {
    &&& l.config.layer == layer
    &&& l.area.w > 0
    &&& l.area.h > 0
    &&& covers(x, y, l.area.x as int, l.area.y as int, l.area.w as int, l.area.h as int)
}

/// The first surface of a layer, from the `i`-th on, that holds the point.
pub open spec fn layer_hit_from(layers: Seq<LayerInfo>, layer: Layer, x: Coord, y: Coord, i: int) -> Option<SurfaceHit>
    decreases layers.len() - i,
{
    if i < 0 || i >= layers.len() {
        None
    } else if layer_holds(&layers[i], layer, x, y) {
        Some(
            SurfaceHit {
                surface: layers[i].surface,
                x: layers[i].area.x as i64,
                y: layers[i].area.y as i64,
            },
        )
    } else {
        layer_hit_from(layers, layer, x, y, i + 1)
    }
}

/// The first surface of a layer that holds the point.
pub open spec fn layer_hit(layers: Seq<LayerInfo>, layer: Layer, x: Coord, y: Coord) -> Option<SurfaceHit> {
    layer_hit_from(layers, layer, x, y, 0)
}

fn layer_root_under(layers: &Vec<LayerInfo>, layer: Layer, x: Coord, y: Coord) -> (r: Option<SurfaceHit>)
    ensures
        r == layer_hit(layers@, layer, x, y),
{
    let mut i: usize = 0;
    while i < layers.len()
        invariant
            0 <= i <= layers@.len(),
            layer_hit(layers@, layer, x, y) == layer_hit_from(layers@, layer, x, y, i as int),
        decreases layers@.len() - i,
    {
        let a = layers[i].area;
        if layers[i].config.layer == layer && a.w > 0 && a.h > 0 && point_in(
            x,
            y,
            a.x as i64,
            a.y as i64,
            a.w,
            a.h,
        ) {
            return Some(SurfaceHit { surface: layers[i].surface, x: a.x as i64, y: a.y as i64 });
        }
        i += 1;
    }
    None
}

/// The surface of a layer under a point, so that the parts of a panel or a dock get their
/// events directly. `tree` is the surface that the tree of the layer surface has there.
pub fn layer_surface_under(
    layers: &Vec<LayerInfo>,
    layer: Layer,
    x: Coord,
    y: Coord,
    tree: Option<SurfaceHit>,
) -> (r: Option<SurfaceHit>)
    ensures
        r == refined(layer_hit(layers@, layer, x, y), tree),
{
    refine(layer_root_under(layers, layer, x, y), tree)
}

/// The first hit of two.
pub open spec fn or_hit(a: Option<SurfaceHit>, b: Option<SurfaceHit>) -> Option<SurfaceHit> {
    if a is Some {
        a
    } else {
        b
    }
}

/// The client popup under a point, native or X11.
pub open spec fn client_popup_hit(
    state: &SpikeState,
    windows: Seq<WindowState>,
    titlebar_h: i32,
    x: Coord,
    y: Coord,
) -> Option<SurfaceHit> {
    or_hit(
        popup_hit(state.popups@, windows, titlebar_h, x, y, state.popups@.len() as int),
        x11_hit(state.toplevels@, x, y, state.toplevels@.len() as int),
    )
}

/// The surface of a client popup under a point, native or X11. `tree` is the surface that
/// the popup's tree has there.
pub fn client_popup_surface_under(
    state: &SpikeState,
    windows: &Vec<WindowState>,
    titlebar_h: i32,
    x: Coord,
    y: Coord,
    tree: Option<SurfaceHit>,
) -> (r: Option<SurfaceHit>)
    ensures
        r == refined(client_popup_hit(state, windows@, titlebar_h, x, y), tree),
{
    match popup_surface_under(&state.popups, windows, titlebar_h, x, y, tree) {
        Some(h) => Some(h),
        None => x11_override_redirect_surface_under(&state.toplevels, x, y, tree),
    }
}

/// What is under a point above the windows: popups are above overlays and panels, these
/// above X11 menus.
pub open spec fn root_above(
    state: &SpikeState,
    windows: Seq<WindowState>,
    titlebar_h: i32,
    x: Coord,
    y: Coord,
) -> Option<SurfaceHit> {
    let layers = state.layer_surfaces@;
    or_hit(
        popup_hit(state.popups@, windows, titlebar_h, x, y, state.popups@.len() as int),
        or_hit(
            layer_hit(layers, Layer::Overlay, x, y),
            or_hit(
                layer_hit(layers, Layer::Top, x, y),
                x11_hit(state.toplevels@, x, y, state.toplevels@.len() as int),
            ),
        ),
    )
}

/// What is under a point below the windows.
pub open spec fn root_below(state: &SpikeState, x: Coord, y: Coord) -> Option<SurfaceHit> {
    or_hit(
        layer_hit(state.layer_surfaces@, Layer::Bottom, x, y),
        layer_hit(state.layer_surfaces@, Layer::Background, x, y),
    )
}

/// The surface that gets the pointer at a point: popups, panels and menus are above the
/// windows, and the desktop layers below them. `window` is the window surface there, and
/// `tree` what the surface tree on top has there. While the session is locked only the
/// lock surface gets the pointer.
pub open spec fn full_hit(
    state: &SpikeState,
    windows: Seq<WindowState>,
    titlebar_h: i32,
    x: Coord,
    y: Coord,
    window: Option<SurfaceHit>,
    tree: Option<SurfaceHit>,
) -> Option<SurfaceHit> {
    if state.session_locked {
        if state.lock_surfaces@.len() > 0 {
            Some(SurfaceHit { surface: state.lock_surfaces@[0].surface, x: 0, y: 0 })
        } else {
            None
        }
    } else {
        or_hit(
            refined(root_above(state, windows, titlebar_h, x, y), tree),
            or_hit(window, refined(root_below(state, x, y), tree)),
        )
    }
}

/// The surface that gets the pointer at a point, given the window surface there and what
/// the surface tree on top has there.
pub fn surface_under_full(
    state: &SpikeState,
    windows: &Vec<WindowState>,
    titlebar_h: i32,
    x: Coord,
    y: Coord,
    window: Option<SurfaceHit>,
    tree: Option<SurfaceHit>,
) -> (r: Option<SurfaceHit>)
    ensures
        r == full_hit(state, windows@, titlebar_h, x, y, window, tree),
{
    if state.session_locked {
        if state.lock_surfaces.len() > 0 {
            return Some(SurfaceHit { surface: state.lock_surfaces[0].surface, x: 0, y: 0 });
        }
        return None;
    }
    if let Some(h) = popup_surface_under(&state.popups, windows, titlebar_h, x, y, tree) {
        return Some(h);
    }
    if let Some(h) = layer_surface_under(&state.layer_surfaces, Layer::Overlay, x, y, tree) {
        return Some(h);
    }
    if let Some(h) = layer_surface_under(&state.layer_surfaces, Layer::Top, x, y, tree) {
        return Some(h);
    }
    if let Some(h) = x11_override_redirect_surface_under(&state.toplevels, x, y, tree) {
        return Some(h);
    }
    if window.is_some() {
        return window;
    }
    if let Some(h) = layer_surface_under(&state.layer_surfaces, Layer::Bottom, x, y, tree) {
        return Some(h);
    }
    layer_surface_under(&state.layer_surfaces, Layer::Background, x, y, tree)
}

/// While the session is locked, nothing but the lock surface gets the pointer,
/// wherever it is.
pub proof fn law_locked_hides_all(
    state: &SpikeState,
    windows: Seq<WindowState>,
    titlebar_h: i32,
    x: Coord,
    y: Coord,
    window: Option<SurfaceHit>,
    tree: Option<SurfaceHit>,
)
    requires
        state.session_locked,
    ensures
        full_hit(state, windows, titlebar_h, x, y, window, tree) matches Some(h) ==> state.lock_surfaces@.len() > 0
            && h.surface == state.lock_surfaces@[0].surface,
{
}

/// Outside a lock, the pointer over a client's popup always reaches the popup or an
/// overlay or panel above it, never the window below.
pub proof fn law_popup_above_window(
    state: &SpikeState,
    windows: Seq<WindowState>,
    titlebar_h: i32,
    x: Coord,
    y: Coord,
    window: Option<SurfaceHit>,
    other: Option<SurfaceHit>,
    tree: Option<SurfaceHit>,
)
    requires
        !state.session_locked,
        client_popup_hit(state, windows, titlebar_h, x, y) is Some,
    ensures
        full_hit(state, windows, titlebar_h, x, y, window, tree) == full_hit(state, windows, titlebar_h, x, y, other, tree),
{
}

/// Where a popup, a panel or a menu is on top, its subsurface under the pointer gets the
/// events, with its own corner.
pub proof fn law_subsurface_gets_pointer(
    state: &SpikeState,
    windows: Seq<WindowState>,
    titlebar_h: i32,
    x: Coord,
    y: Coord,
    window: Option<SurfaceHit>,
    tree: SurfaceHit,
)
    requires
        !state.session_locked,
        root_above(state, windows, titlebar_h, x, y) is Some || (window is None && root_below(state, x, y) is Some),
    ensures
        full_hit(state, windows, titlebar_h, x, y, window, Some(tree)) == Some(tree),
{
}

/// What is drawn for a popup.
#[derive(Clone, Copy, Debug, PartialEq, Eq, Structural)]
pub struct PopupItem {
    pub id: i32,
    pub x: i32,
    pub y: i32,
    pub w: i32,
    pub h: i32,
    pub buf_w: i32,
    pub buf_h: i32,
    /// Where the visible part of the buffer begins.
    pub vis_x: i32,
    pub vis_y: i32,
}

/// Ids of X11 popups begin here, above those of native ones.
pub const X11_ID_BASE: i32 = 0x10_0000;

/// The offset that a popup's ancestors give it: the configured positions of the popups
/// between, and at the end of the chain that of the window or layer surface there. The
/// chain is followed no further than an ancestor that is not configured.
pub open spec fn ancestors_offset(
    popups: Seq<PopupInfo>,
    configured: Seq<Option<Area>>,
    windows: Seq<WindowState>,
    layers: Seq<LayerInfo>,
    titlebar_h: i32,
    parent: SurfaceId,
    hops: nat,
) -> (int, int)
    decreases hops,
{
    if hops == 0 {
        (0, 0)
    } else {
        match index_of(popups, parent) {
            Some(i) => match configured[i] {
                Some(g) => {
                    let (x, y) = ancestors_offset(
                        popups,
                        configured,
                        windows,
                        layers,
                        titlebar_h,
                        popups[i].parent,
                        (hops - 1) as nat,
                    );
                    (x + g.x, y + g.y)
                },
                None => (0, 0),
            },
            None => {
                let (wx, wy) = match index_of(windows, parent) {
                    Some(i) => content_origin(&windows[i], titlebar_h),
                    None => (0, 0),
                };
                let (lx, ly): (int, int) = match index_of(layers, parent) {
                    Some(i) => (layers[i].area.x as int, layers[i].area.y as int),
                    None => (0, 0),
                };
                (wx + lx, wy + ly)
            },
        }
    }
}

fn find_offset(
    popups: &Vec<PopupInfo>,
    configured: &Vec<Option<Area>>,
    windows: &Vec<WindowState>,
    layers: &Vec<LayerInfo>,
    titlebar_h: i32,
    parent: SurfaceId,
    hops: u32,
) -> (r: (i64, i64))
    requires
        configured@.len() == popups@.len(),
        hops <= MAX_NESTING,
    ensures
        r.0 == ancestors_offset(popups@, configured@, windows@, layers@, titlebar_h, parent, hops as nat).0,
        r.1 == ancestors_offset(popups@, configured@, windows@, layers@, titlebar_h, parent, hops as nat).1,
        -0x4_0000_0000 * (hops + 1) <= r.0 <= 0x4_0000_0000 * (hops + 1),
        -0x4_0000_0000 * (hops + 1) <= r.1 <= 0x4_0000_0000 * (hops + 1),
    decreases hops,
{
    if hops == 0 {
        return (0, 0);
    }
    match position(popups, parent) {
        Some(i) => match configured[i] {
            Some(g) => {
                let (x, y): (i64, i64) = find_offset(
                    popups,
                    configured,
                    windows,
                    layers,
                    titlebar_h,
                    popups[i].parent,
                    hops - 1,
                );
                (x + g.x as i64, y + g.y as i64)
            },
            None => (0, 0),
        },
        None => {
            let (wx, wy): (i64, i64) = match position(windows, parent) {
                Some(i) => content_corner(&windows[i], titlebar_h),
                None => (0, 0),
            };
            let (lx, ly): (i64, i64) = match position(layers, parent) {
                Some(i) => (layers[i].area.x as i64, layers[i].area.y as i64),
                None => (0, 0),
            };
            (wx + lx, wy + ly)
        },
    }
}

/// The size of a popup and where its visible part begins: by the geometry that the client
/// set, or as it was configured, or the whole buffer.
pub open spec fn popup_part(popup: &PopupInfo, configured: Area) -> Area {
    if popup.geom.w > 0 && popup.geom.h > 0 {
        popup.geom
    } else if configured.w > 0 && configured.h > 0 {
        Area { x: 0, y: 0, w: configured.w, h: configured.h }
    } else {
        Area { x: 0, y: 0, w: popup.pixels.width as i32, h: popup.pixels.height as i32 }
    }
}

/// The item of popup number `i`, if it is configured and has a buffer.
pub open spec fn popup_item(
    popups: Seq<PopupInfo>,
    configured: Seq<Option<Area>>,
    windows: Seq<WindowState>,
    layers: Seq<LayerInfo>,
    titlebar_h: i32,
    i: int,
) -> Option<PopupItem> {
    let p = popups[i];
    if p.pixels.width == 0 {
        None
    } else {
        match configured[i] {
            Some(g) => {
                let (x, y) = ancestors_offset(
                    popups,
                    configured,
                    windows,
                    layers,
                    titlebar_h,
                    p.parent,
                    MAX_NESTING as nat,
                );
                let part = popup_part(&p, g);
                Some(
                    PopupItem {
                        id: i as i32,
                        x: sat32(x + g.x),
                        y: sat32(y + g.y),
                        w: part.w,
                        h: part.h,
                        buf_w: p.pixels.width as i32,
                        buf_h: p.pixels.height as i32,
                        vis_x: part.x,
                        vis_y: part.y,
                    },
                )
            },
            None => None,
        }
    }
}

/// The items of the first `n` popups.
pub open spec fn popup_list(
    popups: Seq<PopupInfo>,
    configured: Seq<Option<Area>>,
    windows: Seq<WindowState>,
    layers: Seq<LayerInfo>,
    titlebar_h: i32,
    n: int,
) -> Seq<PopupItem>
    decreases n,
{
    if n <= 0 {
        Seq::empty()
    } else {
        let rest = popup_list(popups, configured, windows, layers, titlebar_h, n - 1);
        match popup_item(popups, configured, windows, layers, titlebar_h, n - 1) {
            Some(item) => rest.push(item),
            None => rest,
        }
    }
}

/// The item of a self-placed X11 window, if it has a buffer.
pub open spec fn x11_item(t: &ToplevelInfo, i: int) -> Option<PopupItem> {
    match self_placed(t) {
        Some(g) => if t.pixels.width == 0 {
            None
        } else {
            let bw = t.pixels.width as i32;
            let bh = t.pixels.height as i32;
            Some(
                PopupItem {
                    id: (X11_ID_BASE + i) as i32,
                    x: g.x,
                    y: g.y,
                    w: if g.w > 0 {
                        g.w
                    } else {
                        bw
                    },
                    h: if g.h > 0 {
                        g.h
                    } else {
                        bh
                    },
                    buf_w: bw,
                    buf_h: bh,
                    vis_x: 0,
                    vis_y: 0,
                },
            )
        },
        None => None,
    }
}

/// The items of the self-placed X11 windows among the first `n` toplevels.
pub open spec fn x11_list(toplevels: Seq<ToplevelInfo>, n: int) -> Seq<PopupItem>
    decreases n,
{
    if n <= 0 {
        Seq::empty()
    } else {
        let rest = x11_list(toplevels, n - 1);
        match x11_item(&toplevels[n - 1], n - 1) {
            Some(item) => rest.push(item),
            None => rest,
        }
    }
}

fn make_popup_item(
    popups: &Vec<PopupInfo>,
    configured: &Vec<Option<Area>>,
    windows: &Vec<WindowState>,
    layers: &Vec<LayerInfo>,
    titlebar_h: i32,
    i: usize,
) -> (r: Option<PopupItem>)
    requires
        configured@.len() == popups@.len(),
        i < popups@.len(),
        i <= i32::MAX,
    ensures
        r == popup_item(popups@, configured@, windows@, layers@, titlebar_h, i as int),
{
    let p = &popups[i];
    if p.pixels.width == 0 {
        return None;
    }
    match configured[i] {
        Some(g) => {
            let (x, y): (i64, i64) = find_offset(
                popups,
                configured,
                windows,
                layers,
                titlebar_h,
                p.parent,
                MAX_NESTING,
            );
            let buf_w: i32 = p.pixels.width as i32;
            let buf_h: i32 = p.pixels.height as i32;
            let part = if p.geom.w > 0 && p.geom.h > 0 {
                p.geom
            } else if g.w > 0 && g.h > 0 {
                Area { x: 0, y: 0, w: g.w, h: g.h }
            } else {
                Area { x: 0, y: 0, w: buf_w, h: buf_h }
            };
            Some(
                PopupItem {
                    id: i as i32,
                    x: saturate(x + g.x as i64),
                    y: saturate(y + g.y as i64),
                    w: part.w,
                    h: part.h,
                    buf_w,
                    buf_h,
                    vis_x: part.x,
                    vis_y: part.y,
                },
            )
        },
        None => None,
    }
}

fn make_x11_item(t: &ToplevelInfo, i: usize) -> (r: Option<PopupItem>)
    requires
        X11_ID_BASE + i <= i32::MAX,
    ensures
        r == x11_item(t, i as int),
{
    match self_placed_area(t) {
        Some(g) => {
            if t.pixels.width == 0 {
                return None;
            }
            let buf_w: i32 = t.pixels.width as i32;
            let buf_h: i32 = t.pixels.height as i32;
            let w: i32 = if g.w > 0 {
                g.w
            } else {
                buf_w
            };
            let h: i32 = if g.h > 0 {
                g.h
            } else {
                buf_h
            };
            Some(PopupItem { id: X11_ID_BASE + i as i32, x: g.x, y: g.y, w, h, buf_w, buf_h, vis_x: 0, vis_y: 0 })
        },
        None => None,
    }
}

/// What is drawn for the popups, native ones first. `configured` holds the geometry that
/// each native popup was last configured with and has drawn.
pub fn popup_items(
    state: &SpikeState,
    configured: &Vec<Option<Area>>,
    windows: &Vec<WindowState>,
    titlebar_h: i32,
) -> (items: Vec<PopupItem>)
    requires
        configured@.len() == state.popups@.len(),
        state.popups@.len() <= X11_ID_BASE,
        X11_ID_BASE + state.toplevels@.len() <= i32::MAX,
    ensures
        items@ == popup_list(
            state.popups@,
            configured@,
            windows@,
            state.layer_surfaces@,
            titlebar_h,
            state.popups@.len() as int,
        ) + x11_list(state.toplevels@, state.toplevels@.len() as int),
{
    let mut out: Vec<PopupItem> = Vec::new();
    let mut i: usize = 0;
    while i < state.popups.len()
        invariant
            0 <= i <= state.popups@.len(),
            configured@.len() == state.popups@.len(),
            state.popups@.len() <= X11_ID_BASE,
            out@ == popup_list(
                state.popups@,
                configured@,
                windows@,
                state.layer_surfaces@,
                titlebar_h,
                i as int,
            ),
        decreases state.popups@.len() - i,
    {
        if let Some(item) = make_popup_item(
            &state.popups,
            configured,
            windows,
            &state.layer_surfaces,
            titlebar_h,
            i,
        ) {
            out.push(item);
        }
        i += 1;
    }
    let ghost native = out@;
    let mut k: usize = 0;
    assert(out@ =~= native + x11_list(state.toplevels@, 0));
    while k < state.toplevels.len()
        invariant
            0 <= k <= state.toplevels@.len(),
            X11_ID_BASE + state.toplevels@.len() <= i32::MAX,
            out@ == native + x11_list(state.toplevels@, k as int),
        decreases state.toplevels@.len() - k,
    {
        if let Some(item) = make_x11_item(&state.toplevels[k], k) {
            out.push(item);
        }
        k += 1;
        assert(out@ =~= native + x11_list(state.toplevels@, k as int));
    }
    out
}

/// Whether the ids increase and lie in `lo..hi`.
pub open spec fn ids_increase(items: Seq<PopupItem>, lo: int, hi: int) -> bool {
    &&& forall|a: int| 0 <= a < items.len() ==> lo <= (#[trigger] items[a]).id < hi
    &&& forall|a: int, b: int| 0 <= a < b < items.len() ==> (#[trigger] items[a]).id < (#[trigger] items[b]).id
}

proof fn lemma_popup_ids(
    popups: Seq<PopupInfo>,
    configured: Seq<Option<Area>>,
    windows: Seq<WindowState>,
    layers: Seq<LayerInfo>,
    titlebar_h: i32,
    n: int,
)
    requires
        0 <= n <= X11_ID_BASE,
    ensures
        ids_increase(popup_list(popups, configured, windows, layers, titlebar_h, n), 0, n),
    decreases n,
{
    if n > 0 {
        lemma_popup_ids(popups, configured, windows, layers, titlebar_h, n - 1);
        let rest = popup_list(popups, configured, windows, layers, titlebar_h, n - 1);
        assert(ids_increase(rest, 0, n));
        if let Some(item) = popup_item(popups, configured, windows, layers, titlebar_h, n - 1) {
            assert(item.id == n - 1);
        }
    }
}

proof fn lemma_x11_ids(toplevels: Seq<ToplevelInfo>, n: int)
    requires
        0 <= n,
        X11_ID_BASE + n <= i32::MAX,
    ensures
        ids_increase(x11_list(toplevels, n), X11_ID_BASE as int, X11_ID_BASE + n),
    decreases n,
{
    if n > 0 {
        lemma_x11_ids(toplevels, n - 1);
        let rest = x11_list(toplevels, n - 1);
        assert(ids_increase(rest, X11_ID_BASE as int, X11_ID_BASE + n));
        if let Some(item) = x11_item(&toplevels[n - 1], n - 1) {
            assert(item.id == X11_ID_BASE + n - 1);
        }
    }
}

/// No two popups are drawn under the same id.
pub proof fn law_popup_ids_differ(
    popups: Seq<PopupInfo>,
    configured: Seq<Option<Area>>,
    windows: Seq<WindowState>,
    layers: Seq<LayerInfo>,
    toplevels: Seq<ToplevelInfo>,
    titlebar_h: i32,
    a: int,
    b: int,
)
    requires
        popups.len() <= X11_ID_BASE,
        X11_ID_BASE + toplevels.len() <= i32::MAX,
        0 <= a < b < (popup_list(popups, configured, windows, layers, titlebar_h, popups.len() as int) + x11_list(
            toplevels,
            toplevels.len() as int,
        )).len(),
    ensures
        ({
            let items = popup_list(popups, configured, windows, layers, titlebar_h, popups.len() as int) + x11_list(
                toplevels,
                toplevels.len() as int,
            );
            items[a].id != items[b].id
        }),
{
    lemma_popup_ids(popups, configured, windows, layers, titlebar_h, popups.len() as int);
    lemma_x11_ids(toplevels, toplevels.len() as int);
    let native = popup_list(popups, configured, windows, layers, titlebar_h, popups.len() as int);
    let x11 = x11_list(toplevels, toplevels.len() as int);
    let items = native + x11;
    if a < native.len() {
        assert(items[a] == native[a]);
    } else {
        assert(items[a] == x11[a - native.len()]);
    }
    if b < native.len() {
        assert(items[b] == native[b]);
    } else {
        assert(items[b] == x11[b - native.len()]);
    }
}

/// Whether a popup is drawn over a point.
pub open spec fn popup_over(
    popups: Seq<PopupInfo>,
    windows: Seq<WindowState>,
    titlebar_h: i32,
    i: int,
    x: Coord,
    y: Coord,
) -> bool {
    popup_area(popups, windows, titlebar_h, &popups[i]) matches Some(r) && r.x <= x.floor < r.x + r.w && r.y <= y.floor
        < r.y + r.h
}

/// The pointer is over the newest popup that covers the point, and over none where none
/// does.
pub proof fn law_newest_popup_is_hit(
    popups: Seq<PopupInfo>,
    windows: Seq<WindowState>,
    titlebar_h: i32,
    x: Coord,
    y: Coord,
    n: int,
)
    requires
        0 <= n <= popups.len(),
    ensures
        match popup_hit(popups, windows, titlebar_h, x, y, n) {
            Some(h) => exists|i: int|
                0 <= i < n && #[trigger] popup_over(popups, windows, titlebar_h, i, x, y) && h.surface
                    == popups[i].surface && popup_area(popups, windows, titlebar_h, &popups[i]) is Some && h.x
                    == (popup_area(popups, windows, titlebar_h, &popups[i])->0).x && h.y == (popup_area(
                    popups,
                    windows,
                    titlebar_h,
                    &popups[i],
                )->0).y && forall|k: int| i < k < n ==> !#[trigger] popup_over(popups, windows, titlebar_h, k, x, y),
            None => forall|k: int| 0 <= k < n ==> !#[trigger] popup_over(popups, windows, titlebar_h, k, x, y),
        },
    decreases n,
{
    if n > 0 {
        law_newest_popup_is_hit(popups, windows, titlebar_h, x, y, n - 1);
        if popup_over(popups, windows, titlebar_h, n - 1, x, y) {
            assert(popup_hit(popups, windows, titlebar_h, x, y, n) is Some);
        } else {
            assert(popup_hit(popups, windows, titlebar_h, x, y, n) == popup_hit(popups, windows, titlebar_h, x, y, n - 1));
        }
    }
}

/// A popup lies at its place in its parent: in a window it counts from the corner of the
/// content, below the title bar that is drawn for it, and in another popup from that
/// popup's corner. It has the size it was configured with, or else that of its buffer.
pub proof fn law_popup_is_at_its_place(
    popups: Seq<PopupInfo>,
    windows: Seq<WindowState>,
    titlebar_h: i32,
    p: PopupInfo,
)
    ensures
        popup_area(popups, windows, titlebar_h, &p) matches Some(r) ==> {
            &&& p.rel.w > 0 ==> r.w == p.rel.w
            &&& p.rel.h > 0 ==> r.h == p.rel.h
            &&& p.rel.w <= 0 ==> r.w == p.pixels.width as i32
            &&& p.rel.h <= 0 ==> r.h == p.pixels.height as i32
            &&& match index_of(popups, p.parent) {
                Some(j) => popup_area(popups, windows, titlebar_h, &popups[j]) matches Some(q) ==> r.x == (q.x
                    + p.rel.x) as i64 && r.y == (q.y + p.rel.y) as i64,
                None => index_of(windows, p.parent) matches Some(i) && r.x == windows[i].shown.x + p.rel.x && r.y
                    == windows[i].shown.y + p.rel.y + if windows[i].csd { 0 } else { titlebar_h as int },
            }
        },
{
    reveal_with_fuel(anchor, 2);
    if let Some(j) = index_of(popups, p.parent) {
        lemma_anchor_bounded(popups, windows, titlebar_h, popups[j].parent, 15);
        lemma_anchor_grows(popups, windows, titlebar_h, popups[j].parent, 15);
    }
}

/// More hops find the same anchor.
proof fn lemma_anchor_grows(
    popups: Seq<PopupInfo>,
    windows: Seq<WindowState>,
    titlebar_h: i32,
    parent: SurfaceId,
    hops: nat,
)
    ensures
        anchor(popups, windows, titlebar_h, parent, hops) is Some ==> anchor(
            popups,
            windows,
            titlebar_h,
            parent,
            hops + 1,
        ) == anchor(popups, windows, titlebar_h, parent, hops),
    decreases hops,
{
    if hops > 0 {
        if let Some(i) = index_of(popups, parent) {
            lemma_anchor_grows(popups, windows, titlebar_h, popups[i].parent, (hops - 1) as nat);
        }
    }
}

proof fn lemma_anchor_bounded(
    popups: Seq<PopupInfo>,
    windows: Seq<WindowState>,
    titlebar_h: i32,
    parent: SurfaceId,
    hops: nat,
)
    ensures
        anchor(popups, windows, titlebar_h, parent, hops) matches Some((x, y)) ==> -0x2_0000_0000 * (hops + 1) <= x
            <= 0x2_0000_0000 * (hops + 1) && -0x2_0000_0000 * (hops + 1) <= y <= 0x2_0000_0000 * (hops + 1),
    decreases hops,
{
    if hops > 0 {
        if let Some(i) = index_of(popups, parent) {
            lemma_anchor_bounded(popups, windows, titlebar_h, popups[i].parent, (hops - 1) as nat);
        }
    }
}

/// The pointer is over the first surface of a layer that holds the point.
pub proof fn law_layer_surface_is_hit(layers: Seq<LayerInfo>, layer: Layer, x: Coord, y: Coord, from: int)
    requires
        0 <= from <= layers.len(),
    ensures
        match layer_hit_from(layers, layer, x, y, from) {
            Some(h) => exists|i: int|
                from <= i < layers.len() && #[trigger] layer_over(layers, i, layer, x, y) && h.surface
                    == layers[i].surface && h.x == layers[i].area.x && h.y == layers[i].area.y && forall|k: int|
                    from <= k < i ==> !#[trigger] layer_over(layers, k, layer, x, y),
            None => forall|k: int| from <= k < layers.len() ==> !#[trigger] layer_over(layers, k, layer, x, y),
        },
        layer_hit(layers, layer, x, y) == layer_hit_from(layers, layer, x, y, 0),
    decreases layers.len() - from,
{
    if from < layers.len() {
        law_layer_surface_is_hit(layers, layer, x, y, from + 1);
        if layer_over(layers, from, layer, x, y) {
            assert(layer_hit_from(layers, layer, x, y, from) is Some);
        } else {
            assert(layer_hit_from(layers, layer, x, y, from) == layer_hit_from(layers, layer, x, y, from + 1));
        }
    }
}

/// Whether a surface of a layer is drawn over a point.
pub open spec fn layer_over(layers: Seq<LayerInfo>, i: int, layer: Layer, x: Coord, y: Coord) -> bool {
    let a = layers[i].area;
    layers[i].config.layer == layer && a.x <= x.floor < a.x + a.w && a.y <= y.floor < a.y + a.h
}

/// Whether an X11 window that places itself is drawn over a point.
pub open spec fn x11_over(toplevels: Seq<ToplevelInfo>, i: int, x: Coord, y: Coord) -> bool {
    match toplevels[i].backing {
        Backing::X11 { override_redirect, geometry, .. } => {
            let w = if geometry.w < 1 { 1 } else { geometry.w as int };
            let h = if geometry.h < 1 { 1 } else { geometry.h as int };
            override_redirect && geometry.x <= x.floor < geometry.x + w && geometry.y <= y.floor < geometry.y + h
        },
        Backing::Xdg { .. } => false,
    }
}

/// The pointer is over the newest X11 window that places itself over the point.
pub proof fn law_newest_x11_window_is_hit(toplevels: Seq<ToplevelInfo>, x: Coord, y: Coord, n: int)
    requires
        0 <= n <= toplevels.len(),
    ensures
        match x11_hit(toplevels, x, y, n) {
            Some(h) => exists|i: int|
                0 <= i < n && #[trigger] x11_over(toplevels, i, x, y) && h.surface == toplevels[i].surface
                    && toplevels[i].backing is X11 && h.x == (toplevels[i].backing->geometry).x && h.y
                    == (toplevels[i].backing->geometry).y && forall|k: int|
                    i < k < n ==> !#[trigger] x11_over(toplevels, k, x, y),
            None => forall|k: int| 0 <= k < n ==> !#[trigger] x11_over(toplevels, k, x, y),
        },
    decreases n,
{
    if n > 0 {
        law_newest_x11_window_is_hit(toplevels, x, y, n - 1);
        if x11_over(toplevels, n - 1, x, y) {
            assert(x11_hit(toplevels, x, y, n) is Some);
        } else {
            assert(x11_hit(toplevels, x, y, n) == x11_hit(toplevels, x, y, n - 1));
        }
    }
}

/// Surfaces lie above each other in this order: popups, overlays, panels, X11 menus,
/// windows, what is below windows, and the background.
pub proof fn law_pointer_order(
    state: &SpikeState,
    windows: Seq<WindowState>,
    titlebar_h: i32,
    x: Coord,
    y: Coord,
    window: Option<SurfaceHit>,
)
    requires
        !state.session_locked,
    ensures
        ({
            let hit = full_hit(state, windows, titlebar_h, x, y, window, None);
            let popup = popup_hit(state.popups@, windows, titlebar_h, x, y, state.popups@.len() as int);
            let overlay = layer_hit(state.layer_surfaces@, Layer::Overlay, x, y);
            let top = layer_hit(state.layer_surfaces@, Layer::Top, x, y);
            let x11 = x11_hit(state.toplevels@, x, y, state.toplevels@.len() as int);
            let bottom = layer_hit(state.layer_surfaces@, Layer::Bottom, x, y);
            let background = layer_hit(state.layer_surfaces@, Layer::Background, x, y);
            &&& popup is Some ==> hit == popup
            &&& popup is None && overlay is Some ==> hit == overlay
            &&& popup is None && overlay is None && top is Some ==> hit == top
            &&& popup is None && overlay is None && top is None && x11 is Some ==> hit == x11
            &&& popup is None && overlay is None && top is None && x11 is None ==> {
                &&& window is Some ==> hit == window
                &&& window is None && bottom is Some ==> hit == bottom
                &&& window is None && bottom is None ==> hit == background
            }
            &&& client_popup_hit(state, windows, titlebar_h, x, y) == (if popup is Some { popup } else { x11 })
        }),
{
}

/// A popup is drawn where it was configured, counted from what it belongs to: the content of
/// a window, a layer surface, or another popup. The part of its buffer is drawn that its
/// client calls visible, else as much as was configured, else all of it. A popup without a
/// buffer or that was not configured is not drawn.
pub proof fn law_popup_is_drawn_at_its_place(
    popups: Seq<PopupInfo>,
    configured: Seq<Option<Area>>,
    windows: Seq<WindowState>,
    layers: Seq<LayerInfo>,
    titlebar_h: i32,
    i: int,
)
    requires
        0 <= i < popups.len() <= i32::MAX,
        configured.len() == popups.len(),
    ensures
        ({
            let item = popup_item(popups, configured, windows, layers, titlebar_h, i);
            let p = popups[i];
            &&& item is Some <==> p.pixels.width != 0 && configured[i] is Some
            &&& item matches Some(it) ==> {
                let g = configured[i]->0;
                &&& it.id == i && it.buf_w == p.pixels.width as i32 && it.buf_h == p.pixels.height as i32
                &&& p.geom.w > 0 && p.geom.h > 0 ==> it.vis_x == p.geom.x && it.vis_y == p.geom.y && it.w == p.geom.w
                    && it.h == p.geom.h
                &&& !(p.geom.w > 0 && p.geom.h > 0) && g.w > 0 && g.h > 0 ==> it.vis_x == 0 && it.vis_y == 0 && it.w
                    == g.w && it.h == g.h
                &&& !(p.geom.w > 0 && p.geom.h > 0) && !(g.w > 0 && g.h > 0) ==> it.vis_x == 0 && it.vis_y == 0
                    && it.w == it.buf_w && it.h == it.buf_h
                &&& index_of(popups, p.parent) is None && index_of(layers, p.parent) is None ==> (index_of(
                    windows,
                    p.parent,
                ) matches Some(k) ==> {
                    let top = windows[k].shown.y + if windows[k].csd { 0 } else { titlebar_h as int };
                    it.x == sat32(windows[k].shown.x + g.x) && it.y == sat32(top + g.y)
                })
                &&& index_of(popups, p.parent) is None && index_of(windows, p.parent) is None ==> (index_of(
                    layers,
                    p.parent,
                ) matches Some(k) ==> it.x == sat32(layers[k].area.x + g.x) && it.y == sat32(layers[k].area.y + g.y))
                &&& index_of(popups, p.parent) matches Some(j) ==> (configured[j] matches Some(q) ==> {
                    let (ox, oy) = ancestors_offset(
                        popups,
                        configured,
                        windows,
                        layers,
                        titlebar_h,
                        popups[j].parent,
                        15,
                    );
                    it.x == sat32(ox + q.x + g.x) && it.y == sat32(oy + q.y + g.y)
                })
            }
        }),
{
    reveal_with_fuel(ancestors_offset, 2);
}

/// A popup of a window has a place as soon as it has a size, asked for or drawn; without
/// one, or without a parent that is there, it has none.
pub proof fn law_sized_popup_has_a_place(
    popups: Seq<PopupInfo>,
    windows: Seq<WindowState>,
    titlebar_h: i32,
    p: PopupInfo,
)
    ensures
        popup_area(popups, windows, titlebar_h, &p) matches Some(r) ==> r.w >= 1 && r.h >= 1,
        p.rel.w >= 1 && p.rel.h >= 1 && index_of(popups, p.parent) is None && index_of(windows, p.parent) is Some
            ==> popup_area(popups, windows, titlebar_h, &p) is Some,
        index_of(popups, p.parent) is None && index_of(windows, p.parent) is None ==> popup_area(
            popups,
            windows,
            titlebar_h,
            &p,
        ) is None,
        p.rel.w <= 0 && p.pixels.width == 0 ==> popup_area(popups, windows, titlebar_h, &p) is None,
        p.rel.h <= 0 && p.pixels.height == 0 ==> popup_area(popups, windows, titlebar_h, &p) is None,
{
    reveal_with_fuel(anchor, 2);
}

} // verus!
