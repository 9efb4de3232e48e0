//! X11 windows, which join the same list as native ones.

use vstd::prelude::*;

use crate::layer_shell::Area;
use crate::state::{map_toplevel, AppmenuAddress, Backing, SpikeState, SpikeView, ToplevelInfo};
use crate::surface::{lemma_index_of, position, remove_all, tracks, without, OnSurface, SurfaceId};
use crate::xdg_shell::{cascade, cascade_position, fresh_toplevel, is_fresh};

verus! {

/// What the X11 side knows of a window.
#[derive(Clone, Copy, Debug, PartialEq, Eq, Structural)]
pub struct X11Window {
    pub window: u32,
    pub is_mapped: bool,
    pub override_redirect: bool,
    pub decorated: bool,
    pub geometry: Area,
}

/// No surface is listed twice.
pub open spec fn all_distinct(toplevels: Seq<ToplevelInfo>) -> bool {
    forall|i: int, j: int|
        0 <= i < j < toplevels.len() ==> (#[trigger] toplevels[i]).surface != (#[trigger] toplevels[j]).surface
}

/// The menu address that a new window of this surface adopts.
pub open spec fn adopted(v: SpikeView, surface: SurfaceId) -> Option<AppmenuAddress> {
    if v.pending_appmenu.contains_key(surface) {
        Some(v.pending_appmenu[surface])
    } else {
        None
    }
}

/// The state after a new X11 window `t` joined the list, focused or not.
pub open spec fn joined(v: SpikeView, t: ToplevelInfo, focus: bool) -> SpikeView {
    SpikeView {
        toplevels: v.toplevels.push(t),
        active_surface: if focus {
            Some(t.surface)
        } else {
            v.active_surface
        },
        pending_appmenu: v.pending_appmenu.remove(t.surface),
        ..v
    }
}

/// Whether `t` is the list entry for an X11 window at the given place.
pub open spec fn is_entry(t: ToplevelInfo, v: SpikeView, surface: SurfaceId, w: X11Window, x: i32, y: i32, csd: bool) -> bool {
    &&& is_fresh(t)
    &&& t.surface == surface
    &&& t.backing == (Backing::X11 {
        window: w.window,
        override_redirect: w.override_redirect,
        geometry: w.geometry,
    })
    &&& t.x == x
    &&& t.y == y
    &&& t.csd == csd
    &&& t.appmenu == adopted(v, surface)
}

/// The state once an X11 surface is gone: the window leaves the list at once,
/// and if it had the focus the newest window gets it.
pub open spec fn departed(v: SpikeView, surface: SurfaceId) -> SpikeView {
    let rest = without(v.toplevels, surface);
    SpikeView {
        destroyed_surfaces: v.destroyed_surfaces.push(surface),
        toplevels: rest,
        active_surface: if v.active_surface == Some(surface) {
            if rest.len() > 0 {
                Some(rest.last().surface)
            } else {
                None
            }
        } else {
            v.active_surface
        },
        ..v
    }
}

/// The surface of the first X11 window with this id.
pub open spec fn x11_surface_from(toplevels: Seq<ToplevelInfo>, window: u32, from: int) -> Option<SurfaceId>
    decreases toplevels.len() - from,
{
    if from < 0 || from >= toplevels.len() {
        None
    } else if toplevels[from].backing matches Backing::X11 { window: w, .. } && w == window {
        Some(toplevels[from].surface)
    } else {
        x11_surface_from(toplevels, window, from + 1)
    }
}

/// How the state after an X11 window got its surface relates to the one before.
pub open spec fn associated(v: SpikeView, after: SpikeView, surface: SurfaceId, w: X11Window, focus: bool) -> bool {
    &&& focus == (!tracks(v.toplevels, surface) && w.is_mapped && !w.override_redirect)
    &&& if tracks(v.toplevels, surface) || !w.is_mapped {
        after == v
    } else {
        let at = cascade(v.toplevels.len() as int);
        &&& is_entry(after.toplevels.last(), v, surface, w, at, at, !w.decorated)
        &&& after == joined(v, after.toplevels.last(), !w.override_redirect)
    }
}

/// How the state after an X11 window asked to be mapped relates to the one before.
pub open spec fn managed(
    v: SpikeView,
    after: SpikeView,
    surface: Option<SurfaceId>,
    w: X11Window,
    focus: bool,
) -> bool {
    match surface {
        Some(s) if !tracks(v.toplevels, s) => {
            let at = cascade(v.toplevels.len() as int);
            &&& focus
            &&& is_entry(
                after.toplevels.last(),
                v,
                s,
                (X11Window { override_redirect: false, ..w }),
                at,
                at,
                !w.decorated,
            )
            &&& after == joined(v, after.toplevels.last(), true)
        },
        _ => !focus && after == v,
    }
}

/// A window that is left to place itself from now on.
pub open spec fn self_placing(t: ToplevelInfo) -> ToplevelInfo {
    match t.backing {
        Backing::X11 { window, geometry, .. } => ToplevelInfo {
            backing: Backing::X11 { window, override_redirect: true, geometry },
            ..t
        },
        Backing::Xdg { .. } => t,
    }
}

/// How the state after an X11 window that places itself was mapped relates to the one
/// before.
pub open spec fn left_alone(v: SpikeView, after: SpikeView, surface: Option<SurfaceId>, w: X11Window) -> bool {
    match surface {
        Some(s) => if tracks(v.toplevels, s) {
            after == SpikeView {
                toplevels: map_toplevel(v.toplevels, s, |t: ToplevelInfo| self_placing(t)),
                ..v
            }
        } else {
            &&& is_entry(
                after.toplevels.last(),
                v,
                s,
                (X11Window { override_redirect: true, ..w }),
                w.geometry.x,
                w.geometry.y,
                true,
            )
            &&& after == joined(v, after.toplevels.last(), false)
        },
        None => after == v,
    }
}

/// The surface that a dialog belongs to: the one it is linked to, or else that of the
/// X11 window it names.
pub open spec fn parent_surface(
    toplevels: Seq<ToplevelInfo>,
    parent: Option<u32>,
    linked: Option<SurfaceId>,
) -> Option<SurfaceId> {
    match (linked, parent) {
        (Some(s), _) => Some(s),
        (None, Some(w)) => x11_surface_from(toplevels, w, 0),
        (None, None) => None,
    }
}

/// What an X11 window that asks for a size gets: that size, where it is.
pub open spec fn granted(current: Area, w: Option<u32>, h: Option<u32>) -> Area {
    Area {
        x: current.x,
        y: current.y,
        w: match w {
            Some(v) => v as i32,
            None => current.w,
        },
        h: match h {
            Some(v) => v as i32,
            None => current.h,
        },
    }
}

impl SpikeState {
    fn join_x11(&mut self, surface: SurfaceId, w: X11Window, x: i32, y: i32, csd: bool, focus: bool)
        ensures
            is_entry(final(self).toplevels@.last(), old(self)@, surface, w, x, y, csd),
            final(self)@ == joined(old(self)@, final(self).toplevels@.last(), focus),
            all_distinct(old(self)@.toplevels) && !tracks(old(self)@.toplevels, surface) ==> all_distinct(
                final(self)@.toplevels,
            ),
    {
        broadcast use vstd::std_specs::hash::group_hash_axioms;

        let appmenu = self.pending_appmenu.remove(&surface);
        let backing = Backing::X11 {
            window: w.window,
            override_redirect: w.override_redirect,
            geometry: w.geometry,
        };
        let t = fresh_toplevel(surface, backing, x, y, csd, appmenu);
        self.toplevels.push(t);
        if focus {
            self.active_surface = Some(surface);
        }
        assert(self@ =~= joined(old(self)@, t, focus));
        assert(all_distinct(old(self)@.toplevels) && !tracks(old(self)@.toplevels, surface) ==> all_distinct(
            self@.toplevels,
        )) by {
            assert forall|i: int| 0 <= i < old(self)@.toplevels.len() && !tracks(
                old(self)@.toplevels,
                surface,
            ) implies (#[trigger] old(self)@.toplevels[i]).surface != surface by {
                assert(old(self)@.toplevels[i].sid() == old(self)@.toplevels[i].surface);
            }
        }
    }

    /// The surface of an X11 window became known. A mapped window that is not
    /// listed yet joins the list; it takes the focus unless it is unmanaged.
    /// Returns whether it did.
    pub fn surface_associated(&mut self, surface: SurfaceId, w: X11Window) -> (focus: bool)
        ensures
            associated(old(self)@, final(self)@, surface, w, focus),
            all_distinct(old(self)@.toplevels) ==> all_distinct(final(self)@.toplevels),
    {
        proof {
            lemma_index_of(self.toplevels@, surface);
        }
        if position(&self.toplevels, surface).is_some() {
            return false;
        }
        if !w.is_mapped {
            return false;
        }
        let at: i32 = cascade_position(self.toplevels.len());
        self.join_x11(surface, w, at, at, !w.decorated, !w.override_redirect);
        !w.override_redirect
    }

    /// A managed X11 window asked to be mapped. If its surface is known and not
    /// listed yet, it joins the list and takes the focus. Returns whether it did.
    pub fn map_window_request(&mut self, surface: Option<SurfaceId>, w: X11Window) -> (focus: bool)
        ensures
            managed(old(self)@, final(self)@, surface, w, focus),
            all_distinct(old(self)@.toplevels) ==> all_distinct(final(self)@.toplevels),
    {
        if let Some(s) = surface {
            proof {
                lemma_index_of(self.toplevels@, s);
            }
            if position(&self.toplevels, s).is_none() {
                let at: i32 = cascade_position(self.toplevels.len());
                let managed = X11Window { override_redirect: false, ..w };
                self.join_x11(s, managed, at, at, !w.decorated, true);
                return true;
            }
        }
        false
    }

    /// An unmanaged X11 window was mapped. It is listed where it put itself,
    /// without decorations and without the focus.
    pub fn mapped_override_redirect_window(&mut self, surface: Option<SurfaceId>, w: X11Window)
        ensures
            left_alone(old(self)@, final(self)@, surface, w),
            all_distinct(old(self)@.toplevels) ==> all_distinct(final(self)@.toplevels),
    {
        if let Some(s) = surface {
            proof {
                lemma_index_of(self.toplevels@, s);
            }
            match position(&self.toplevels, s) {
                Some(i) => {
                    let ghost before = self.toplevels@;
                    let backing = self.toplevels[i].backing;
                    if let Backing::X11 { window, geometry, .. } = backing {
                        self.toplevels[i].backing = Backing::X11 { window, override_redirect: true, geometry };
                    }
                    assert(self.toplevels@ =~= map_toplevel(
                        before,
                        s,
                        |t: ToplevelInfo|
                            match t.backing {
                                Backing::X11 { window, geometry, .. } => ToplevelInfo {
                                    backing: Backing::X11 { window, override_redirect: true, geometry },
                                    ..t
                                },
                                Backing::Xdg { .. } => t,
                            },
                    ));
                },
                None => {
                    let unmanaged = X11Window { override_redirect: true, ..w };
                    self.join_x11(s, unmanaged, w.geometry.x, w.geometry.y, true, false);
                },
            }
        }
    }

    /// An X11 window was unmapped. Returns whether the window is told so, which
    /// an unmanaged one is not.
    pub fn unmapped_window(&mut self, surface: Option<SurfaceId>, override_redirect: bool) -> (tell: bool)
        ensures
            tell == !override_redirect,
            final(self)@ == match surface {
                Some(s) => departed(old(self)@, s),
                None => old(self)@,
            },
    {
        self.destroyed_window(surface);
        !override_redirect
    }

    /// An X11 window is gone.
    pub fn destroyed_window(&mut self, surface: Option<SurfaceId>)
        ensures
            final(self)@ == match surface {
                Some(s) => departed(old(self)@, s),
                None => old(self)@,
            },
    {
        if let Some(s) = surface {
            self.destroyed_surfaces.push(s);
            remove_all(&mut self.toplevels, s);
            let focused = match self.active_surface {
                Some(a) => a == s,
                None => false,
            };
            if focused {
                let n: usize = self.toplevels.len();
                self.active_surface = if n > 0 {
                    Some(self.toplevels[n - 1].surface)
                } else {
                    None
                };
            }
        }
    }

    /// The surface that a window is transient for. A link once made stays; else
    /// the parent is looked up by its X11 id, and may not be listed yet.
    pub fn transient_parent(&self, parent: Option<u32>, linked: Option<SurfaceId>) -> (r: Option<SurfaceId>)
        ensures
            r == parent_surface(self@.toplevels, parent, linked),
    {
        if linked.is_some() {
            return linked;
        }
        let w: u32 = match parent {
            Some(w) => w,
            None => {
                return None;
            },
        };
        let mut i: usize = 0;
        while i < self.toplevels.len()
            invariant
                0 <= i <= self.toplevels@.len(),
                linked is None,
                parent == Some(w),
                x11_surface_from(self@.toplevels, w, 0) == x11_surface_from(self@.toplevels, w, i as int),
            decreases self.toplevels@.len() - i,
        {
            if let Backing::X11 { window, .. } = self.toplevels[i].backing {
                if window == w {
                    return Some(self.toplevels[i].surface);
                }
            }
            i += 1;
        }
        None
    }
}

/// The geometry that answers an X11 configure request: sizes are honoured,
/// positions are not.
pub fn configure_request(current: Area, w: Option<u32>, h: Option<u32>) -> (r: Area)
    ensures
        r == granted(current, w, h),
{
    Area {
        x: current.x,
        y: current.y,
        w: match w {
            Some(v) => v as i32,
            None => current.w,
        },
        h: match h {
            Some(v) => v as i32,
            None => current.h,
        },
    }
}

/// A surface that has gone is neither listed nor focused.
pub proof fn law_departed_is_gone(v: SpikeView, surface: SurfaceId)
    ensures
        !tracks(departed(v, surface).toplevels, surface),
        departed(v, surface).active_surface != Some(surface),
{
    crate::surface::lemma_without(v.toplevels, surface);
    let rest = without(v.toplevels, surface);
    if rest.len() > 0 {
        assert(rest[rest.len() - 1].sid() == rest.last().surface);
    }
}

/// An entry that joins goes in front of those there were, takes the menu announced for
/// it, and the focus where it asks for it.
pub proof fn law_x11_window_joins(v: SpikeView, t: ToplevelInfo, surface: SurfaceId, w: X11Window, x: i32, y: i32, csd: bool, focus: bool)
    requires
        is_entry(t, v, surface, w, x, y, csd),
    ensures
        ({
            let after = joined(v, t, focus);
            let n = v.toplevels.len() as int;
            &&& after.toplevels.len() == n + 1
            &&& after.toplevels.take(n) == v.toplevels
            &&& after.toplevels[n].surface == surface
            &&& (after.toplevels[n].x, after.toplevels[n].y) == (x, y)
            &&& after.toplevels[n].csd == csd
            &&& (after.toplevels[n].backing matches Backing::X11 { window, override_redirect, geometry } && window
                == w.window && override_redirect == w.override_redirect && geometry == w.geometry)
            &&& after.toplevels[n].appmenu is Some <==> v.pending_appmenu.contains_key(surface)
            &&& (after.toplevels[n].appmenu matches Some(a) ==> a == v.pending_appmenu[surface])
            &&& !after.pending_appmenu.contains_key(surface)
            &&& focus ==> after.active_surface == Some(surface)
            &&& !focus ==> after.active_surface == v.active_surface
        }),
{
    assert(joined(v, t, focus).toplevels.take(v.toplevels.len() as int) =~= v.toplevels);
}

/// A mapped X11 window that is not known yet joins at the next place of the cascade,
/// decorated by the shell unless it decorates itself, and gets the focus unless it
/// places itself. Any other changes nothing.
pub proof fn law_x11_surface_opens_window(v: SpikeView, after: SpikeView, surface: SurfaceId, w: X11Window, focus: bool)
    requires
        associated(v, after, surface, w, focus),
    ensures
        (tracks(v.toplevels, surface) || !w.is_mapped) ==> after == v && !focus,
        !tracks(v.toplevels, surface) && w.is_mapped ==> {
            let n = v.toplevels.len() as int;
            &&& after.toplevels.len() == n + 1
            &&& after.toplevels[n].surface == surface
            &&& 100 + 40 * n <= i32::MAX ==> after.toplevels[n].x == 100 + 40 * n && after.toplevels[n].y == 100 + 40 * n
            &&& after.toplevels[n].csd != w.decorated
            &&& focus != w.override_redirect
            &&& after.active_surface == if w.override_redirect {
                v.active_surface
            } else {
                Some(surface)
            }
        },
{
    if !tracks(v.toplevels, surface) && w.is_mapped {
        let at = cascade(v.toplevels.len() as int);
        law_x11_window_joins(v, after.toplevels.last(), surface, w, at, at, !w.decorated, !w.override_redirect);
    }
}

/// A window that asks to be mapped is managed and gets the focus, once; a request
/// without a surface, or for a known one, changes nothing.
pub proof fn law_mapped_window_is_managed(
    v: SpikeView,
    after: SpikeView,
    surface: Option<SurfaceId>,
    w: X11Window,
    focus: bool,
)
    requires
        managed(v, after, surface, w, focus),
    ensures
        focus <==> surface is Some && !tracks(v.toplevels, surface->0),
        !focus ==> after == v,
        focus ==> {
            let n = v.toplevels.len() as int;
            &&& after.toplevels.len() == n + 1
            &&& after.toplevels[n].surface == surface->0
            &&& !after.toplevels[n].backing.is_override_redirect()
            &&& 100 + 40 * n <= i32::MAX ==> after.toplevels[n].x == 100 + 40 * n && after.toplevels[n].y == 100 + 40 * n
            &&& after.toplevels[n].csd != w.decorated
            &&& after.active_surface == surface
        },
{
    if focus {
        let at = cascade(v.toplevels.len() as int);
        let m = X11Window { override_redirect: false, ..w };
        law_x11_window_joins(v, after.toplevels.last(), surface->0, m, at, at, !w.decorated, true);
    }
}

/// A window that places itself (a menu, a tooltip) opens where it says, undecorated,
/// and never takes the focus. One that is known already stays, and is only marked.
pub proof fn law_menu_places_itself(v: SpikeView, after: SpikeView, surface: Option<SurfaceId>, w: X11Window)
    requires
        left_alone(v, after, surface, w),
    ensures
        after.active_surface == v.active_surface,
        surface is None ==> after == v,
        surface matches Some(s) ==> {
            let n = v.toplevels.len() as int;
            &&& !tracks(v.toplevels, s) ==> {
                &&& after.toplevels.len() == n + 1
                &&& after.toplevels[n].surface == s
                &&& (after.toplevels[n].x, after.toplevels[n].y) == (w.geometry.x, w.geometry.y)
                &&& after.toplevels[n].csd
                &&& after.toplevels[n].backing.is_override_redirect()
            }
            &&& tracks(v.toplevels, s) ==> {
                &&& after.toplevels.len() == n
                &&& forall|i: int|
                    0 <= i < n ==> {
                        &&& (#[trigger] after.toplevels[i]).surface == v.toplevels[i].surface
                        &&& after.toplevels[i].surface != s ==> after.toplevels[i] == v.toplevels[i]
                        &&& after.toplevels[i].x == v.toplevels[i].x && after.toplevels[i].y == v.toplevels[i].y
                        &&& after.toplevels[i].backing is Xdg ==> after.toplevels[i] == v.toplevels[i]
                    }
                &&& exists|i: int|
                    0 <= i < n && (#[trigger] after.toplevels[i]).surface == s && (after.toplevels[i].backing is X11
                        ==> after.toplevels[i].backing.is_override_redirect())
            }
        },
{
    if let Some(s) = surface {
        if tracks(v.toplevels, s) {
            crate::surface::lemma_index_of(v.toplevels, s);
            let i = crate::surface::index_of(v.toplevels, s)->0;
            assert(after.toplevels[i] == self_placing(v.toplevels[i]));
        } else {
            let m = X11Window { override_redirect: true, ..w };
            law_x11_window_joins(v, after.toplevels.last(), s, m, w.geometry.x, w.geometry.y, true, false);
        }
    }
}

proof fn lemma_rest_is_filter(toplevels: Seq<ToplevelInfo>, surface: SurfaceId)
    ensures
        without(toplevels, surface) == toplevels.filter(|t: ToplevelInfo| t.surface != surface),
    decreases toplevels.len(),
{
    reveal(Seq::filter);
    if toplevels.len() > 0 {
        lemma_rest_is_filter(toplevels.drop_last(), surface);
    }
}

/// When an X11 window goes, the others stay in their order and its passing is noted.
/// If it had the focus, the frontmost of the others gets it; otherwise it stays where
/// it is.
pub proof fn law_focus_after_departure(v: SpikeView, surface: SurfaceId)
    ensures
        ({
            let after = departed(v, surface);
            let rest = v.toplevels.filter(|t: ToplevelInfo| t.surface != surface);
            &&& after.toplevels == rest
            &&& after.destroyed_surfaces == v.destroyed_surfaces.push(surface)
            &&& v.active_surface != Some(surface) ==> after.active_surface == v.active_surface
            &&& v.active_surface == Some(surface) && rest.len() > 0 ==> after.active_surface == Some(
                rest[rest.len() - 1].surface,
            )
            &&& v.active_surface == Some(surface) && rest.len() == 0 ==> after.active_surface is None
        }),
{
    lemma_rest_is_filter(v.toplevels, surface);
}

proof fn lemma_x11_surface_from(toplevels: Seq<ToplevelInfo>, window: u32, from: int)
    requires
        0 <= from <= toplevels.len(),
    ensures
        match x11_surface_from(toplevels, window, from) {
            Some(s) => exists|i: int|
                from <= i < toplevels.len() && (#[trigger] toplevels[i]).surface == s && toplevels[i].backing is X11
                    && toplevels[i].backing->window == window,
            None => forall|i: int|
                from <= i < toplevels.len() && (#[trigger] toplevels[i]).backing is X11
                    ==> toplevels[i].backing->window != window,
        },
    decreases toplevels.len() - from,
{
    if from < toplevels.len() {
        lemma_x11_surface_from(toplevels, window, from + 1);
    }
}

/// A dialog belongs to the surface that it is linked to. Without a link it belongs to
/// the window whose number it names, if that one is there.
pub proof fn law_dialog_finds_its_parent(
    toplevels: Seq<ToplevelInfo>,
    parent: Option<u32>,
    linked: Option<SurfaceId>,
)
    ensures
        linked is Some ==> parent_surface(toplevels, parent, linked) == linked,
        linked is None && parent is None ==> parent_surface(toplevels, parent, linked) is None,
        linked is None && parent is Some ==> match parent_surface(toplevels, parent, linked) {
            Some(s) => exists|i: int|
                0 <= i < toplevels.len() && (#[trigger] toplevels[i]).surface == s && toplevels[i].backing is X11
                    && toplevels[i].backing->window == parent->0,
            None => forall|i: int|
                0 <= i < toplevels.len() && (#[trigger] toplevels[i]).backing is X11
                    ==> toplevels[i].backing->window != parent->0,
        },
{
    if linked is None && parent is Some {
        lemma_x11_surface_from(toplevels, parent->0, 0);
    }
}

/// An X11 window gets the size that it asks for and keeps its place; a side that it
/// does not name stays as long as it was.
pub proof fn law_asked_size_is_granted(current: Area, w: Option<u32>, h: Option<u32>)
    ensures
        ({
            let r = granted(current, w, h);
            &&& (r.x, r.y) == (current.x, current.y)
            &&& (w matches Some(v) && v <= i32::MAX) ==> r.w == w->0
            &&& (h matches Some(v) && v <= i32::MAX) ==> r.h == h->0
            &&& w is None ==> r.w == current.w
            &&& h is None ==> r.h == current.h
        }),
{
}

} // verus!
