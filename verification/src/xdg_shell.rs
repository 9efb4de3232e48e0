//! Requests of native windows and popups.

use std::collections::HashMap;

use vstd::prelude::*;

use crate::layer_shell::Area;
use crate::num::{sat32, saturate};
use crate::pixels::ClientSurfaceData;
use crate::positioner::Positioner;
use crate::resize::ResizeEdge;
use crate::state::{blank_pixels, AppmenuAddress, Backing, PopupInfo, SpikeState, SpikeView, ToplevelInfo};
use crate::surface::{remove_all, without, SurfaceId};
use crate::surface_import::pixel_map;

verus! {

/// Every new window is placed this much further right and down.
pub const CASCADE_STEP: i64 = 40;

/// Where the first window is placed.
pub const CASCADE_BASE: i64 = 100;

/// The content size that a new window is first offered.
pub const INITIAL_WIDTH: i32 = 800;

pub const INITIAL_HEIGHT: i32 = 600;

/// The edges named by an interactive resize request.
#[derive(Clone, Copy, Debug, PartialEq, Eq, Structural)]
pub enum XdgResizeEdge {
    NoEdge,
    Top,
    Bottom,
    Left,
    Right,
    TopLeft,
    TopRight,
    BottomLeft,
    BottomRight,
}

/// The cascaded coordinate of a window that joins `count` others.
pub open spec fn cascade(count: int) -> i32 {
    sat32(CASCADE_BASE + count * CASCADE_STEP)
}

pub fn cascade_position(count: usize) -> (r: i32)
    ensures
        r == cascade(count as int),
{
    if count > 100_000_000 {
        return i32::MAX;
    }
    saturate(CASCADE_BASE + count as i64 * CASCADE_STEP)
}

/// A window that has nothing imported, advertised or set yet.
pub open spec fn is_fresh(t: ToplevelInfo) -> bool {
    &&& !t.activated
    &&& t.pixels@ == blank_pixels()
    &&& pixel_map(t.surface_pixels@) == Map::<u32, crate::surface_import::SurfacePixels>::empty()
    &&& t.last_advertised_title@ == Seq::<char>::empty()
    &&& t.last_advertised_app_id@ == Seq::<char>::empty()
    &&& !t.is_dialog
    &&& t.icon_name is None
    &&& t.tag is None
    &&& t.description is None
}

pub fn fresh_toplevel(
    surface: SurfaceId,
    backing: Backing,
    x: i32,
    y: i32,
    csd: bool,
    appmenu: Option<AppmenuAddress>,
) -> (t: ToplevelInfo)
    ensures
        is_fresh(t),
        t.surface == surface,
        t.backing == backing,
        t.x == x,
        t.y == y,
        t.csd == csd,
        t.appmenu == appmenu,
{
    broadcast use vstd::std_specs::hash::group_hash_axioms;

    let t = ToplevelInfo {
        surface,
        backing,
        x,
        y,
        csd,
        activated: false,
        pixels: ClientSurfaceData::default(),
        surface_pixels: HashMap::new(),
        last_advertised_title: String::new(),
        last_advertised_app_id: String::new(),
        is_dialog: false,
        icon_name: None,
        tag: None,
        description: None,
        appmenu,
    };
    assert(pixel_map(t.surface_pixels@) =~= Map::empty());
    t
}

/// The surface of the last window other than `id`.
pub open spec fn last_other(toplevels: Seq<ToplevelInfo>, id: SurfaceId) -> Option<SurfaceId>
    decreases toplevels.len(),
{
    if toplevels.len() == 0 {
        None
    } else if toplevels.last().surface != id {
        Some(toplevels.last().surface)
    } else {
        last_other(toplevels.drop_last(), id)
    }
}

fn find_last_other(toplevels: &Vec<ToplevelInfo>, id: SurfaceId) -> (r: Option<SurfaceId>)
    ensures
        r == last_other(toplevels@, id),
{
    let mut k: usize = toplevels.len();
    assert(toplevels@.take(k as int) =~= toplevels@);
    while k > 0
        invariant
            0 <= k <= toplevels@.len(),
            last_other(toplevels@, id) == last_other(toplevels@.take(k as int), id),
        decreases k,
    {
        assert(toplevels@.take(k as int).drop_last() =~= toplevels@.take(k - 1));
        if toplevels[k - 1].surface != id {
            return Some(toplevels[k - 1].surface);
        }
        k -= 1;
    }
    None
}

/// The edge that a resize request drags; none for a request without an edge.
pub open spec fn requested_edge(edges: XdgResizeEdge) -> Option<ResizeEdge> {
    match edges {
        XdgResizeEdge::NoEdge => None,
        XdgResizeEdge::Top => Some(ResizeEdge::North),
        XdgResizeEdge::Bottom => Some(ResizeEdge::South),
        XdgResizeEdge::Left => Some(ResizeEdge::West),
        XdgResizeEdge::Right => Some(ResizeEdge::East),
        XdgResizeEdge::TopLeft => Some(ResizeEdge::NorthWest),
        XdgResizeEdge::TopRight => Some(ResizeEdge::NorthEast),
        XdgResizeEdge::BottomLeft => Some(ResizeEdge::SouthWest),
        XdgResizeEdge::BottomRight => Some(ResizeEdge::SouthEast),
    }
}

fn edge_of(edges: XdgResizeEdge) -> (r: Option<ResizeEdge>)
    ensures
        r == requested_edge(edges),
{
    match edges {
        XdgResizeEdge::NoEdge => None,
        XdgResizeEdge::Top => Some(ResizeEdge::North),
        XdgResizeEdge::Bottom => Some(ResizeEdge::South),
        XdgResizeEdge::Left => Some(ResizeEdge::West),
        XdgResizeEdge::Right => Some(ResizeEdge::East),
        XdgResizeEdge::TopLeft => Some(ResizeEdge::NorthWest),
        XdgResizeEdge::TopRight => Some(ResizeEdge::NorthEast),
        XdgResizeEdge::BottomLeft => Some(ResizeEdge::SouthWest),
        XdgResizeEdge::BottomRight => Some(ResizeEdge::SouthEast),
    }
}

/// What a window is asked to do by its own client.
pub enum Wish {
    Move,
    Resize(XdgResizeEdge),
    Maximize(bool),
    Fullscreen(bool),
    Minimize,
    Restore,
}

/// The state once the client of `surface` has asked for something: the request waits
/// in its queue.
pub open spec fn wished(v: SpikeView, surface: SurfaceId, wish: Wish) -> SpikeView {
    match wish {
        Wish::Move => SpikeView { pending_xdg_move: v.pending_xdg_move.push(surface), ..v },
        Wish::Resize(edges) => match requested_edge(edges) {
            Some(edge) => SpikeView { pending_xdg_resize: v.pending_xdg_resize.push((surface, edge)), ..v },
            None => v,
        },
        Wish::Maximize(want) => SpikeView {
            pending_xdg_maximize: v.pending_xdg_maximize.push((surface, want)),
            ..v
        },
        Wish::Fullscreen(want) => SpikeView {
            pending_xdg_fullscreen: v.pending_xdg_fullscreen.push((surface, want)),
            ..v
        },
        Wish::Minimize => SpikeView { pending_xdg_minimize: v.pending_xdg_minimize.push(surface), ..v },
        Wish::Restore => SpikeView { pending_xdg_restore: v.pending_xdg_restore.push(surface), ..v },
    }
}

/// How the state after a new native window relates to the one before.
pub open spec fn window_opened(v: SpikeView, after: SpikeView, surface: SurfaceId) -> bool {
    let t = after.toplevels.last();
    let at = cascade(v.toplevels.len() as int);
    &&& is_fresh(t)
    &&& t.surface == surface
    &&& t.backing == (Backing::Xdg { initial_configure_sent: false })
    &&& t.x == at
    &&& t.y == at
    &&& !t.csd
    &&& t.appmenu == if v.pending_appmenu.contains_key(surface) {
        Some(v.pending_appmenu[surface])
    } else {
        None
    }
    &&& after == SpikeView {
        toplevels: v.toplevels.push(t),
        active_surface: Some(surface),
        pending_appmenu: v.pending_appmenu.remove(surface),
        ..v
    }
}

/// How the state after a new popup relates to the one before.
pub open spec fn popup_opened(
    v: SpikeView,
    after: SpikeView,
    surface: SurfaceId,
    parent: Option<SurfaceId>,
    positioner: Positioner,
) -> bool {
    match parent {
        Some(p) => {
            let new = after.popups.last();
            &&& new.surface == surface
            &&& new.parent == p
            &&& new.rel == positioner.placed()
            &&& !new.initial_configure_sent
            &&& new.pixels@ == blank_pixels()
            &&& pixel_map(new.surface_pixels@) == Map::<u32, crate::surface_import::SurfacePixels>::empty()
            &&& new.geom == (Area { x: 0, y: 0, w: 0, h: 0 })
            &&& after == SpikeView { popups: v.popups.push(new), ..v }
        },
        None => after == v,
    }
}

/// The state once the client of a native window has destroyed it.
pub open spec fn window_gone(v: SpikeView, surface: SurfaceId) -> SpikeView {
    let next = last_other(v.toplevels, surface);
    SpikeView {
        destroyed_surfaces: v.destroyed_surfaces.push(surface),
        active_surface: next,
        client_pixels: if next is None {
            blank_pixels()
        } else {
            v.client_pixels
        },
        ..v
    }
}

/// The state once the client of a popup has destroyed it.
pub open spec fn popup_gone(v: SpikeView, surface: SurfaceId) -> SpikeView {
    SpikeView { popups: without(v.popups, surface), ..v }
}

impl SpikeState {
    /// A native client created a window: it joins the list at the next cascade
    /// position, adopts a menu address set for it earlier, and takes the focus.
    pub fn new_toplevel(&mut self, surface: SurfaceId)
        ensures
            window_opened(old(self)@, final(self)@, surface),
    {
        broadcast use vstd::std_specs::hash::group_hash_axioms;

        let at: i32 = cascade_position(self.toplevels.len());
        let appmenu = self.pending_appmenu.remove(&surface);
        let t = fresh_toplevel(surface, Backing::Xdg { initial_configure_sent: false }, at, at, false, appmenu);
        self.toplevels.push(t);
        self.active_surface = Some(surface);
        assert(self@ =~= SpikeView {
            toplevels: old(self)@.toplevels.push(t),
            active_surface: Some(surface),
            pending_appmenu: old(self)@.pending_appmenu.remove(surface),
            ..old(self)@
        });
    }

    /// A client created a popup where its positioner puts it. Without a parent it is
    /// discarded.
    pub fn new_popup(&mut self, surface: SurfaceId, parent: Option<SurfaceId>, positioner: Positioner) -> (kept: bool)
        requires
            positioner.placeable(),
        ensures
            kept == (parent is Some),
            popup_opened(old(self)@, final(self)@, surface, parent, positioner),
    {
        broadcast use vstd::std_specs::hash::group_hash_axioms;

        match parent {
            Some(p) => {
                let info = PopupInfo {
                    surface,
                    parent: p,
                    rel: positioner.geometry(),
                    initial_configure_sent: false,
                    pixels: ClientSurfaceData::default(),
                    surface_pixels: HashMap::new(),
                    geom: Area { x: 0, y: 0, w: 0, h: 0 },
                };
                assert(pixel_map(info.surface_pixels@) =~= Map::empty());
                self.popups.push(info);
                true
            },
            None => false,
        }
    }

    /// A window's role object is gone. The window stays listed until its closing
    /// animation is over; the focus goes to the newest other window.
    pub fn toplevel_destroyed(&mut self, surface: SurfaceId)
        ensures
            final(self)@ == window_gone(old(self)@, surface),
    {
        self.destroyed_surfaces.push(surface);
        self.active_surface = find_last_other(&self.toplevels, surface);
        if self.active_surface.is_none() {
            self.client_pixels = ClientSurfaceData::default();
        }
    }

    /// A popup's role object is gone.
    pub fn popup_destroyed(&mut self, surface: SurfaceId)
        ensures
            final(self)@ == popup_gone(old(self)@, surface),
    {
        remove_all(&mut self.popups, surface);
    }

    /// The client asked to move its window interactively.
    pub fn move_request(&mut self, surface: SurfaceId)
        ensures
            final(self)@ == wished(old(self)@, surface, Wish::Move),
    {
        self.pending_xdg_move.push(surface);
    }

    /// The client asked to resize its window interactively; a request that names
    /// no edge is ignored.
    pub fn resize_request(&mut self, surface: SurfaceId, edges: XdgResizeEdge)
        ensures
            final(self)@ == wished(old(self)@, surface, Wish::Resize(edges)),
    {
        if let Some(edge) = edge_of(edges) {
            self.pending_xdg_resize.push((surface, edge));
        }
    }

    /// The client asked to be maximized, or no longer to be. Returns whether the
    /// configure that answers it goes out now; before the first configure the
    /// answer is part of that one.
    pub fn maximize_request(&mut self, surface: SurfaceId, want: bool, initial_configure_sent: bool) -> (send: bool)
        ensures
            send == initial_configure_sent,
            final(self)@ == wished(old(self)@, surface, Wish::Maximize(want)),
    {
        self.pending_xdg_maximize.push((surface, want));
        initial_configure_sent
    }

    /// The client asked to be fullscreen, or no longer to be; answered as a
    /// maximize request is.
    pub fn fullscreen_request(&mut self, surface: SurfaceId, want: bool, initial_configure_sent: bool) -> (send: bool)
        ensures
            send == initial_configure_sent,
            final(self)@ == wished(old(self)@, surface, Wish::Fullscreen(want)),
    {
        self.pending_xdg_fullscreen.push((surface, want));
        initial_configure_sent
    }

    /// The client asked to be minimized.
    pub fn minimize_request(&mut self, surface: SurfaceId)
        ensures
            final(self)@ == wished(old(self)@, surface, Wish::Minimize),
    {
        self.pending_xdg_minimize.push(surface);
    }

    /// A window that was minimized asked to be shown again.
    pub fn unminimize_request(&mut self, surface: SurfaceId)
        ensures
            final(self)@ == wished(old(self)@, surface, Wish::Restore),
    {
        self.pending_xdg_restore.push(surface);
    }
}

proof fn lemma_last_other(toplevels: Seq<ToplevelInfo>, id: SurfaceId)
    ensures
        match last_other(toplevels, id) {
            Some(s) => s != id && exists|i: int|
                0 <= i < toplevels.len() && (#[trigger] toplevels[i]).surface == s && forall|k: int|
                    i < k < toplevels.len() ==> (#[trigger] toplevels[k]).surface == id,
            None => forall|k: int| 0 <= k < toplevels.len() ==> (#[trigger] toplevels[k]).surface == id,
        },
    decreases toplevels.len(),
{
    if toplevels.len() > 0 {
        if toplevels.last().surface != id {
            assert(toplevels[toplevels.len() - 1].surface == toplevels.last().surface);
        } else {
            let front = toplevels.drop_last();
            lemma_last_other(front, id);
            assert forall|k: int| 0 <= k < toplevels.len() - 1 implies #[trigger] toplevels[k] == front[k] by {}
            if last_other(front, id) is Some {
                let i = choose|i: int|
                    0 <= i < front.len() && (#[trigger] front[i]).surface == last_other(front, id)->0 && forall|k: int|
                        i < k < front.len() ==> (#[trigger] front[k]).surface == id;
                assert(toplevels[i] == front[i]);
                assert forall|k: int| i < k < toplevels.len() implies (#[trigger] toplevels[k]).surface == id by {
                    if k < front.len() {
                        assert(front[k].surface == id);
                    }
                }
            } else {
                assert forall|k: int| 0 <= k < toplevels.len() implies (#[trigger] toplevels[k]).surface == id by {
                    if k < front.len() {
                        assert(front[k].surface == id);
                    }
                }
            }
        }
    }
}

/// The first window opens at (100, 100) and each one after it 40 further right and
/// down, as far as coordinates go.
pub proof fn law_windows_cascade(count: int)
    requires
        0 <= count,
    ensures
        cascade(0) == 100,
        140 + 40 * count <= i32::MAX ==> cascade(count + 1) == cascade(count) + 40,
        cascade(count) <= cascade(count + 1),
{
}

/// A new window joins in front of those there were, which stay as they are; it gets
/// the focus, and the menu that was announced for it, which then waits no more.
pub proof fn law_new_window_joins(v: SpikeView, after: SpikeView, surface: SurfaceId)
    requires
        window_opened(v, after, surface),
    ensures
        ({
            let n = v.toplevels.len() as int;
            &&& after.toplevels.len() == n + 1
            &&& after.toplevels.take(n) == v.toplevels
            &&& after.toplevels[n].surface == surface
            &&& after.toplevels[n].x == after.toplevels[n].y
            &&& 100 + 40 * n <= i32::MAX ==> after.toplevels[n].x == 100 + 40 * n
            &&& after.toplevels[n].backing == (Backing::Xdg { initial_configure_sent: false })
            &&& !after.toplevels[n].csd && !after.toplevels[n].activated && !after.toplevels[n].is_dialog
            &&& after.active_surface == Some(surface)
            &&& after.toplevels[n].appmenu is Some <==> v.pending_appmenu.contains_key(surface)
            &&& (after.toplevels[n].appmenu matches Some(a) ==> a == v.pending_appmenu[surface])
            &&& !after.pending_appmenu.contains_key(surface)
            &&& forall|s: SurfaceId|
                s != surface && v.pending_appmenu.contains_key(s) ==> #[trigger] after.pending_appmenu.contains_key(s)
            &&& after.popups == v.popups
        }),
{
    assert(after.toplevels.take(v.toplevels.len() as int) =~= v.toplevels);
}

/// A popup with a parent joins above the others, hanging on its parent where its
/// positioner says; one without a parent changes nothing.
pub proof fn law_new_popup_joins(
    v: SpikeView,
    after: SpikeView,
    surface: SurfaceId,
    parent: Option<SurfaceId>,
    positioner: Positioner,
)
    requires
        popup_opened(v, after, surface, parent, positioner),
    ensures
        parent is None ==> after == v,
        parent matches Some(p) ==> {
            let n = v.popups.len() as int;
            &&& after.popups.len() == n + 1
            &&& after.popups.take(n) == v.popups
            &&& after.popups[n].surface == surface
            &&& after.popups[n].parent == p
            &&& after.popups[n].rel == positioner.placed()
            &&& !after.popups[n].initial_configure_sent
            &&& after.toplevels == v.toplevels
            &&& after.active_surface == v.active_surface
        },
{
    assert(after.popups.take(v.popups.len() as int) =~= v.popups);
}

/// When a window is destroyed the focus goes to the newest of the others. With no
/// other window nothing has the focus, and nothing of the client is shown any more.
pub proof fn law_destroyed_window_hands_on(v: SpikeView, surface: SurfaceId)
    ensures
        ({
            let after = window_gone(v, surface);
            &&& after.active_surface != Some(surface)
            &&& after.destroyed_surfaces == v.destroyed_surfaces.push(surface)
            &&& after.toplevels == v.toplevels
            &&& (after.active_surface matches Some(s) ==> after.client_pixels == v.client_pixels && exists|i: int|
                0 <= i < v.toplevels.len() && (#[trigger] v.toplevels[i]).surface == s && forall|k: int|
                    i < k < v.toplevels.len() ==> (#[trigger] v.toplevels[k]).surface == surface)
            &&& after.active_surface is None <==> forall|k: int|
                0 <= k < v.toplevels.len() ==> (#[trigger] v.toplevels[k]).surface == surface
            &&& after.active_surface is None ==> after.client_pixels == blank_pixels()
        }),
{
    lemma_last_other(v.toplevels, surface);
}

/// A destroyed popup leaves, and every other one stays in its order.
pub proof fn law_destroyed_popup_leaves(v: SpikeView, surface: SurfaceId)
    ensures
        popup_gone(v, surface).popups == v.popups.filter(|p: PopupInfo| p.surface != surface),
        popup_gone(v, surface).toplevels == v.toplevels,
        popup_gone(v, surface).active_surface == v.active_surface,
{
    lemma_without_is_filter(v.popups, surface);
}

proof fn lemma_without_is_filter(popups: Seq<PopupInfo>, surface: SurfaceId)
    ensures
        without(popups, surface) == popups.filter(|p: PopupInfo| p.surface != surface),
    decreases popups.len(),
{
    reveal(Seq::filter);
    if popups.len() > 0 {
        lemma_without_is_filter(popups.drop_last(), surface);
    }
}

/// A resize request is for the sides that it names: those, and no others, then follow
/// the pointer. One that names none is not passed on.
pub proof fn law_named_sides_are_dragged(edges: XdgResizeEdge)
    ensures
        requested_edge(edges) is None <==> edges == XdgResizeEdge::NoEdge,
        requested_edge(edges) matches Some(e) ==> {
            &&& e.moves_top() <==> (edges is Top || edges is TopLeft || edges is TopRight)
            &&& e.moves_bottom() <==> (edges is Bottom || edges is BottomLeft || edges is BottomRight)
            &&& e.moves_left() <==> (edges is Left || edges is TopLeft || edges is BottomLeft)
            &&& e.moves_right() <==> (edges is Right || edges is TopRight || edges is BottomRight)
        },
{
}

/// What a client asks for waits in the queue of that kind, behind what was asked
/// before, and in no other.
pub proof fn law_wishes_queue_up(v: SpikeView, surface: SurfaceId, wish: Wish)
    ensures
        ({
            let after = wished(v, surface, wish);
            &&& after.pending_xdg_move == if wish is Move {
                v.pending_xdg_move.push(surface)
            } else {
                v.pending_xdg_move
            }
            &&& after.pending_xdg_minimize == if wish is Minimize {
                v.pending_xdg_minimize.push(surface)
            } else {
                v.pending_xdg_minimize
            }
            &&& after.pending_xdg_restore == if wish is Restore {
                v.pending_xdg_restore.push(surface)
            } else {
                v.pending_xdg_restore
            }
            &&& after.pending_xdg_maximize == match wish {
                Wish::Maximize(want) => v.pending_xdg_maximize.push((surface, want)),
                _ => v.pending_xdg_maximize,
            }
            &&& after.pending_xdg_fullscreen == match wish {
                Wish::Fullscreen(want) => v.pending_xdg_fullscreen.push((surface, want)),
                _ => v.pending_xdg_fullscreen,
            }
            &&& (wish matches Wish::Resize(e) && e != XdgResizeEdge::NoEdge) <==> after.pending_xdg_resize
                != v.pending_xdg_resize
            &&& after.pending_xdg_resize != v.pending_xdg_resize ==> after.pending_xdg_resize.len()
                == v.pending_xdg_resize.len() + 1 && after.pending_xdg_resize.drop_last() == v.pending_xdg_resize
                && after.pending_xdg_resize.last().0 == surface
            &&& after.toplevels == v.toplevels
            &&& after.active_surface == v.active_surface
        }),
{
    if wish is Resize && requested_edge(wish->Resize_0) is Some {
        let pair = (surface, requested_edge(wish->Resize_0)->0);
        assert(v.pending_xdg_resize.push(pair).len() != v.pending_xdg_resize.len());
        assert(v.pending_xdg_resize.push(pair).drop_last() =~= v.pending_xdg_resize);
    }
}

} // verus!
