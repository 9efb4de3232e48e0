//! Bringing the windows up to date once per frame: closed ones are dropped, each
//! learns what its client has committed, and what is drawn is listed.

use vstd::prelude::*;

use crate::layer_shell::Area;
use crate::order::ordered;
use crate::popup::{law_popup_ids_differ, popup_items, popup_list, x11_list, PopupItem, X11_ID_BASE};
use crate::resize::ActiveDrag;
use crate::rows::{sync_rows, synced, RowOp};
use crate::shell::{Shell, ShellView};
use crate::state::{SpikeState, SpikeView, ToplevelInfo};
use crate::surface::{lemma_without, remove_all, tracks, without, SurfaceId};
use crate::theme::{notified, without_tween, ThemeState, WindowTween};
use crate::window_items::{
    all_described, all_live, app_id_after, apply_metas, focused_title, is_meta, item_views, items_along, kick_windows,
    item_ids, opening_ids, opens_now, panel_title, size_updates, update_app_ids, window_items, window_metas, SizeUpdate,
    images_after, uncached, version_after, ImageCache, ToplevelProps, WindowItem, WindowMeta,
};
use crate::windows::{back_keys, unique_ids, WindowState};

verus! {

/// A window whose closing animation is over.
#[derive(Clone, Copy, Debug, PartialEq, Eq, Structural)]
pub struct ClosedWindow {
    pub surface: SurfaceId,
    pub id: i32,
}

/// The surface of the first focused window from the `i`-th on.
pub open spec fn focused_from(windows: Seq<WindowState>, i: int) -> Option<SurfaceId>
    decreases windows.len() - i,
{
    if i < 0 || i >= windows.len() {
        None
    } else if windows[i].focused {
        Some(windows[i].surface)
    } else {
        focused_from(windows, i + 1)
    }
}

/// The surface of the focused window.
pub fn focused_surface(windows: &Vec<WindowState>) -> (r: Option<SurfaceId>)
    ensures
        r == focused_from(windows@, 0),
{
    let mut i: usize = 0;
    while i < windows.len()
        invariant
            0 <= i <= windows@.len(),
            focused_from(windows@, 0) == focused_from(windows@, i as int),
        decreases windows@.len() - i,
    {
        if windows[i].focused {
            return Some(windows[i].surface);
        }
        i += 1;
    }
    None
}

/// The toplevels that are left after the first `n` closed windows are gone.
pub open spec fn left_after(toplevels: Seq<ToplevelInfo>, closed: Seq<ClosedWindow>, n: int) -> Seq<ToplevelInfo>
    decreases n,
{
    if n <= 0 {
        toplevels
    } else {
        without(left_after(toplevels, closed, n - 1), closed[n - 1].surface)
    }
}

/// The state after closed windows are gone; then the focused one of the others
/// has the focus.
pub open spec fn closed_dropped(s: SpikeView, closed: Seq<ClosedWindow>, windows: Seq<WindowState>) -> SpikeView {
    SpikeView {
        toplevels: left_after(s.toplevels, closed, closed.len() as int),
        active_surface: if closed.len() > 0 {
            focused_from(windows, 0)
        } else {
            s.active_surface
        },
        ..s
    }
}

impl SpikeState {
    /// The focused window has the focus. Returns its surface, which the keyboard
    /// is given to.
    pub fn update_focused_surface(&mut self, windows: &Vec<WindowState>) -> (r: Option<SurfaceId>)
        ensures
            r == focused_from(windows@, 0),
            final(self)@ == (SpikeView { active_surface: r, ..old(self)@ }),
    {
        self.active_surface = focused_surface(windows);
        self.active_surface
    }

    /// Forgets the toplevels of closed windows. Returns the surface that the
    /// keyboard is given to, where the focus had to move.
    pub fn drop_closed(&mut self, closed: &Vec<ClosedWindow>, windows: &Vec<WindowState>) -> (r: Option<SurfaceId>)
        ensures
            final(self)@ == closed_dropped(old(self)@, closed@, windows@),
            r == if closed@.len() > 0 {
                focused_from(windows@, 0)
            } else {
                None
            },
    {
        let mut i: usize = 0;
        while i < closed.len()
            invariant
                0 <= i <= closed@.len(),
                self@ == (SpikeView { toplevels: left_after(old(self)@.toplevels, closed@, i as int), ..old(self)@ }),
            decreases closed@.len() - i,
        {
            remove_all(&mut self.toplevels, closed[i].surface);
            i += 1;
        }
        if closed.len() > 0 {
            return self.update_focused_surface(windows);
        }
        None
    }
}

/// The focus animations after the first `n` closed windows are forgotten.
pub open spec fn tweens_left(tweens: Seq<WindowTween>, closed: Seq<ClosedWindow>, n: int) -> Seq<WindowTween>
    decreases n,
{
    if n <= 0 {
        tweens
    } else {
        without_tween(tweens_left(tweens, closed, n - 1), closed[n - 1].id)
    }
}

/// The focus levels after the first `n` closed windows are forgotten.
pub open spec fn levels_left(levels: Map<i32, u64>, closed: Seq<ClosedWindow>, n: int) -> Map<i32, u64>
    decreases n,
{
    if n <= 0 {
        levels
    } else {
        levels_left(levels, closed, n - 1).remove(closed[n - 1].id)
    }
}

/// The focus animations after the first `n` drawn windows told their focus.
pub open spec fn tweens_following(
    tweens: Seq<WindowTween>,
    levels: Map<i32, u64>,
    items: Seq<WindowItem>,
    n: int,
) -> Seq<WindowTween>
    decreases n,
{
    if n <= 0 {
        tweens
    } else {
        let before = tweens_following(tweens, levels, items, n - 1);
        notified(before, levels, items[n - 1].id, items[n - 1].focused)
    }
}

impl ThemeState {
    /// Whether only the windows' focus levels and animations may differ.
    pub open spec fn same_but_focus(&self, other: &ThemeState) -> bool {
        &&& self.current_mode == other.current_mode
        &&& self.mode_tween == other.mode_tween
        &&& self.mode_t == other.mode_t
        &&& self.auto_times == other.auto_times
        &&& self.animating == other.animating
    }

    /// Forgets closed windows.
    pub fn forget_windows(&mut self, closed: &Vec<ClosedWindow>)
        requires
            old(self).wf(),
        ensures
            final(self).wf(),
            final(self).same_but_focus(old(self)),
            final(self).window_tweens@ == tweens_left(old(self).window_tweens@, closed@, closed@.len() as int),
            final(self).focus_values@ == levels_left(old(self).focus_values@, closed@, closed@.len() as int),
    {
        let mut i: usize = 0;
        while i < closed.len()
            invariant
                0 <= i <= closed@.len(),
                self.wf(),
                self.same_but_focus(old(self)),
                self.window_tweens@ == tweens_left(old(self).window_tweens@, closed@, i as int),
                self.focus_values@ == levels_left(old(self).focus_values@, closed@, i as int),
            decreases closed@.len() - i,
        {
            self.remove_window(closed[i].id);
            i += 1;
        }
    }

    /// Lets the focus level of every drawn window follow its focus.
    pub fn follow_focus(&mut self, items: &Vec<WindowItem>)
        requires
            old(self).wf(),
        ensures
            final(self).wf(),
            final(self).same_but_focus(old(self)),
            final(self).focus_values@ == old(self).focus_values@,
            final(self).window_tweens@ == tweens_following(
                old(self).window_tweens@,
                old(self).focus_values@,
                items@,
                items@.len() as int,
            ),
    {
        let mut i: usize = 0;
        while i < items.len()
            invariant
                0 <= i <= items@.len(),
                self.wf(),
                self.same_but_focus(old(self)),
                self.focus_values@ == old(self).focus_values@,
                self.window_tweens@ == tweens_following(
                    old(self).window_tweens@,
                    old(self).focus_values@,
                    items@,
                    i as int,
                ),
            decreases items@.len() - i,
        {
            self.set_window_focused(items[i].id, items[i].focused);
            i += 1;
        }
    }
}

/// What the windows learned of their clients.
#[derive(Debug)]
pub struct Described {
    pub metas: Vec<Option<WindowMeta>>,
    /// The sizes that the window manager has to follow.
    pub sizes: Vec<SizeUpdate>,
    /// The windows whose opening animations start.
    pub opening: Vec<i32>,
}

/// What is drawn for the windows.
#[derive(Debug)]
pub struct DrawnWindows {
    pub items: Vec<WindowItem>,
    /// The name shown in the panel.
    pub title: String,
}

/// What became of the windows in a frame.
#[derive(Debug)]
pub struct WindowsUpdate {
    pub described: Described,
    pub drawn: DrawnWindows,
    /// Whether the image of each drawn window has to be rebuilt.
    pub rebuild: Vec<bool>,
    /// The changes that bring the displayed rows up to date.
    pub ops: Vec<RowOp>,
}

fn ids_of(items: &Vec<WindowItem>) -> (r: Vec<i32>)
    ensures
        r@ == item_ids(items@),
{
    let mut r: Vec<i32> = Vec::new();
    let mut i: usize = 0;
    while i < items.len()
        invariant
            0 <= i <= items@.len(),
            r@ == item_ids(items@.take(i as int)),
        decreases items@.len() - i,
    {
        r.push(items[i].id);
        i += 1;
        assert(item_ids(items@.take(i as int)) =~= item_ids(items@.take(i - 1)).push(items@[i - 1].id));
    }
    assert(items@.take(items@.len() as int) =~= items@);
    r
}

/// What became of the popups in a frame.
#[derive(Debug)]
pub struct PopupsUpdate {
    pub items: Vec<PopupItem>,
    /// The changes that bring the displayed rows up to date.
    pub ops: Vec<RowOp>,
}

pub open spec fn popup_ids(items: Seq<PopupItem>) -> Seq<i32> {
    items.map_values(|i: PopupItem| i.id)
}

/// Brings the popups up to date: what is drawn for them is listed, and the displayed rows,
/// given by their ids, are turned into that. `configured` holds the geometry that each
/// native popup was last configured with and has drawn.
pub fn update_popups(
    state: &SpikeState,
    configured: &Vec<Option<Area>>,
    windows: &Vec<WindowState>,
    titlebar_h: i32,
    displayed: &Vec<i32>,
) -> (r: PopupsUpdate)
    requires
        configured@.len() == state.popups@.len(),
        state.popups@.len() <= X11_ID_BASE,
        X11_ID_BASE + state.toplevels@.len() <= i32::MAX,
        displayed@.no_duplicates(),
    ensures
        r.items@ == popup_list(
            state.popups@,
            configured@,
            windows@,
            state.layer_surfaces@,
            titlebar_h,
            state.popups@.len() as int,
        ) + x11_list(state.toplevels@, state.toplevels@.len() as int),
        popup_ids(r.items@).no_duplicates(),
        synced(displayed@, r.ops@, popup_ids(r.items@)),
{
    let items = popup_items(state, configured, windows, titlebar_h);
    let mut wanted: Vec<i32> = Vec::new();
    let mut i: usize = 0;
    while i < items.len()
        invariant
            0 <= i <= items@.len(),
            wanted@ == popup_ids(items@.take(i as int)),
        decreases items@.len() - i,
    {
        wanted.push(items[i].id);
        i += 1;
        assert(popup_ids(items@.take(i as int)) =~= popup_ids(items@.take(i - 1)).push(items@[i - 1].id));
    }
    assert(items@.take(items@.len() as int) =~= items@);
    proof {
        assert forall|a: int, b: int| 0 <= a < b < items@.len() implies (#[trigger] items@[a]).id != (
        #[trigger] items@[b]).id by {
            law_popup_ids_differ(
                state.popups@,
                configured@,
                windows@,
                state.layer_surfaces@,
                state.toplevels@,
                titlebar_h,
                a,
                b,
            );
        }
    }
    let ops = sync_rows(displayed, &wanted);
    PopupsUpdate { items, ops }
}

impl ImageCache {
    /// Says of each item whether its image has to be rebuilt for the version of its
    /// buffer, and forgets the images of windows that are gone.
    pub fn refresh_all(&mut self, items: &Vec<WindowItem>, windows: &Vec<WindowState>) -> (rebuild: Vec<bool>)
        requires
            old(self).wf(),
            item_ids(items@).no_duplicates(),
            all_live(items@, windows@),
        ensures
            final(self).wf(),
            rebuild@.len() == items@.len(),
            forall|i: int|
                0 <= i < items@.len() ==> #[trigger] rebuild@[i] == (old(self).version_of(items@[i].id) != Some(
                    items@[i].version,
                )),
            forall|i: int|
                0 <= i < items@.len() ==> final(self).version_of((#[trigger] items@[i]).id) == Some(items@[i].version),
            images_after(old(self), final(self), items@, windows@),
    {
        let ghost ids = item_ids(items@);
        let mut rebuild: Vec<bool> = Vec::new();
        let mut k: usize = 0;
        while k < items.len()
            invariant
                0 <= k <= items@.len(),
                ids == item_ids(items@),
                ids.no_duplicates(),
                self.wf(),
                rebuild@.len() == k,
                self.ids@.len() == old(self).ids@.len() + uncached(old(self), items@, k as int),
                forall|id: i32| #[trigger]
                    self.version_of(id) == version_after(old(self), items@, id, k as int),
                forall|i: int|
                    0 <= i < k ==> #[trigger] rebuild@[i] == (old(self).version_of(items@[i].id) != Some(
                        items@[i].version,
                    )),
                forall|i: int|
                    0 <= i < k ==> self.version_of((#[trigger] items@[i]).id) == Some(items@[i].version),
                forall|i: int|
                    k <= i < items@.len() ==> self.version_of((#[trigger] items@[i]).id) == old(self).version_of(
                        items@[i].id,
                    ),
            decreases items@.len() - k,
        {
            assert forall|i: int| 0 <= i < items@.len() && i != k implies (#[trigger] items@[i]).id
                != items@[k as int].id by {
                assert(ids[i] != ids[k as int]);
            }
            let due = self.refresh(items[k].id, items[k].version);
            rebuild.push(due);
            k += 1;
        }
        self.evict(windows);
        rebuild
    }
}

/// The toplevel that is being resized with the pointer.
pub open spec fn resized_by(drag: Option<ActiveDrag>) -> Option<usize> {
    match drag {
        Some(ActiveDrag::Resize { toplevel_idx, .. }) => Some(toplevel_idx),
        _ => None,
    }
}

/// A window that no longer waits for its first buffer once that has come.
pub open spec fn opened(w: WindowState, toplevels: Seq<ToplevelInfo>) -> WindowState {
    if opens_now(&w, toplevels) {
        WindowState { awaiting_first_render: false, ..w }
    } else {
        w
    }
}

/// Whether `after` are the windows `before` once they learned `metas` and the
/// applications of their clients.
pub open spec fn windows_described(
    before: Seq<WindowState>,
    after: Seq<WindowState>,
    metas: Seq<Option<WindowMeta>>,
    toplevels: Seq<ToplevelInfo>,
    props: Seq<ToplevelProps>,
) -> bool {
    let told = all_described(before, metas, metas.len() as int);
    &&& after.len() == told.len()
    &&& forall|i: int|
        0 <= i < told.len() ==> {
            &&& (#[trigger] after[i]).app_id@ == app_id_after(told, toplevels, props, i, toplevels.len() as int)
            &&& after[i] == opened(WindowState { app_id: after[i].app_id, ..told[i] }, toplevels)
        }
}

/// Whether `metas` describe the toplevels.
pub open spec fn all_metas(
    metas: Seq<Option<WindowMeta>>,
    toplevels: Seq<ToplevelInfo>,
    props: Seq<ToplevelProps>,
    dragged: Option<usize>,
) -> bool {
    &&& metas.len() == toplevels.len()
    &&& forall|i: int|
        0 <= i < toplevels.len() ==> match #[trigger] metas[i] {
            Some(m) => !toplevels[i].backing.is_override_redirect() && is_meta(
                &toplevels[i],
                &props[i],
                dragged == Some(i as usize),
                m,
            ),
            None => toplevels[i].backing.is_override_redirect(),
        }
}

proof fn lemma_opening_same(
    a: Seq<WindowState>,
    b: Seq<WindowState>,
    toplevels: Seq<ToplevelInfo>,
    n: int,
)
    requires
        0 <= n <= a.len(),
        a.len() == b.len(),
        forall|i: int|
            0 <= i < a.len() ==> (#[trigger] b[i]).id == a[i].id && b[i].surface == a[i].surface
                && b[i].awaiting_first_render == a[i].awaiting_first_render,
    ensures
        opening_ids(a, toplevels, n) == opening_ids(b, toplevels, n),
    decreases n,
{
    if n > 0 {
        lemma_opening_same(a, b, toplevels, n - 1);
        assert(b[n - 1].id == a[n - 1].id);
    }
}

proof fn lemma_described_same(windows: Seq<WindowState>, metas: Seq<Option<WindowMeta>>, n: int)
    requires
        0 <= n <= metas.len(),
    ensures
        all_described(windows, metas, n).len() == windows.len(),
        forall|i: int|
            0 <= i < windows.len() ==> (#[trigger] all_described(windows, metas, n)[i]).id == windows[i].id
                && all_described(windows, metas, n)[i].surface == windows[i].surface
                && all_described(windows, metas, n)[i].awaiting_first_render == windows[i].awaiting_first_render,
    decreases n,
{
    if n > 0 {
        lemma_described_same(windows, metas, n - 1);
        let before = all_described(windows, metas, n - 1);
        if let Some(m) = metas[n - 1] {
            crate::surface::lemma_index_from(before, m.surface, 0);
        }
    }
}

impl Shell {
    fn dragged(&self) -> (r: Option<usize>)
        ensures
            r == resized_by(self@.active_drag),
    {
        match self.active_drag {
            Some(ActiveDrag::Resize { toplevel_idx, .. }) => Some(toplevel_idx),
            _ => None,
        }
    }

    /// Tells every window what its client has committed: its decorations, the
    /// visible part of its buffer, its application, and whether its first buffer
    /// has come. `props` holds what the client of each toplevel has set.
    pub fn describe_windows(&mut self, state: &SpikeState, props: &Vec<ToplevelProps>) -> (r: Described)
        requires
            old(self).wf(),
            props@.len() == state@.toplevels.len(),
        ensures
            final(self).wf(),
            all_metas(r.metas@, state@.toplevels, props@, resized_by(old(self)@.active_drag)),
            r.sizes@ == size_updates(r.metas@, r.metas@.len() as int),
            r.opening@ == opening_ids(old(self)@.windows, state@.toplevels, old(self)@.windows.len() as int),
            windows_described(old(self)@.windows, final(self)@.windows, r.metas@, state@.toplevels, props@),
            final(self)@ == (ShellView { windows: final(self)@.windows, ..old(self)@ }),
    {
        let dragged = self.dragged();
        let metas = window_metas(&state.toplevels, props, dragged);
        let sizes = apply_metas(&mut self.windows, &metas);
        let ghost told = self.windows@;
        update_app_ids(&mut self.windows, &state.toplevels, props);
        let ghost named = self.windows@;
        let opening = kick_windows(&mut self.windows, &state.toplevels);
        proof {
            lemma_described_same(old(self)@.windows, metas@, metas@.len() as int);
            lemma_opening_same(old(self)@.windows, named, state@.toplevels, named.len() as int);
            assert forall|i: int| 0 <= i < told.len() implies (#[trigger] self.windows@[i]).app_id@ == app_id_after(
                told,
                state@.toplevels,
                props@,
                i,
                state@.toplevels.len() as int,
            ) && self.windows@[i] == opened(
                WindowState { app_id: self.windows@[i].app_id, ..told[i] },
                state@.toplevels,
            ) by {
                assert(named[i] == (WindowState { app_id: named[i].app_id, ..told[i] }));
            }
        }
        Described { metas, sizes, opening }
    }

    /// Lists what is drawn for the windows, once the window manager has followed
    /// what they learned.
    pub fn draw_windows(&self, state: &SpikeState, props: &Vec<ToplevelProps>, metas: &Vec<Option<WindowMeta>>) -> (r:
        DrawnWindows)
        requires
            props@.len() == state@.toplevels.len(),
            metas@.len() == state@.toplevels.len(),
        ensures
            item_views(r.items@) == items_along(
                self@.windows,
                state@.toplevels,
                props@,
                metas@,
                resized_by(self@.active_drag),
                ordered(back_keys(self@.windows)),
                self@.windows.len() as int,
            ),
            r.title@ == panel_title(r.items@, 0),
            unique_ids(self@.windows) ==> item_ids(r.items@).no_duplicates() && all_live(r.items@, self@.windows),
    {
        let items = window_items(&self.windows, &state.toplevels, props, metas, self.dragged());
        let title = focused_title(&items);
        DrawnWindows { items, title }
    }

    /// Brings the windows up to date: each learns what its client has committed, what is
    /// drawn is listed, the focus levels follow, images of buffers that have changed are
    /// marked, and the displayed rows, given by their window ids, are turned into what is
    /// drawn. The window manager follows what the windows learned from its next tick on.
    pub fn update_windows(
        &mut self,
        theme: &mut ThemeState,
        state: &SpikeState,
        props: &Vec<ToplevelProps>,
        images: &mut ImageCache,
        displayed: &Vec<i32>,
    ) -> (r: WindowsUpdate)
        requires
            old(self).wf(),
            old(theme).wf(),
            old(images).wf(),
            props@.len() == state@.toplevels.len(),
            displayed@.no_duplicates(),
        ensures
            final(self).wf(),
            all_metas(r.described.metas@, state@.toplevels, props@, resized_by(old(self)@.active_drag)),
            r.described.sizes@ == size_updates(r.described.metas@, r.described.metas@.len() as int),
            r.described.opening@ == opening_ids(
                old(self)@.windows,
                state@.toplevels,
                old(self)@.windows.len() as int,
            ),
            windows_described(old(self)@.windows, final(self)@.windows, r.described.metas@, state@.toplevels, props@),
            final(self)@ == (ShellView { windows: final(self)@.windows, ..old(self)@ }),
            item_views(r.drawn.items@) == items_along(
                final(self)@.windows,
                state@.toplevels,
                props@,
                r.described.metas@,
                resized_by(old(self)@.active_drag),
                ordered(back_keys(final(self)@.windows)),
                final(self)@.windows.len() as int,
            ),
            r.drawn.title@ == panel_title(r.drawn.items@, 0),
            final(theme).wf(),
            final(theme).same_but_focus(old(theme)),
            final(theme).focus_values@ == old(theme).focus_values@,
            final(theme).window_tweens@ == tweens_following(
                old(theme).window_tweens@,
                old(theme).focus_values@,
                r.drawn.items@,
                r.drawn.items@.len() as int,
            ),
            final(images).wf(),
            r.rebuild@.len() == r.drawn.items@.len(),
            forall|i: int|
                0 <= i < r.drawn.items@.len() ==> #[trigger] r.rebuild@[i] == (old(images).version_of(
                    r.drawn.items@[i].id,
                ) != Some(r.drawn.items@[i].version)),
            forall|i: int|
                0 <= i < r.drawn.items@.len() ==> final(images).version_of((#[trigger] r.drawn.items@[i]).id) == Some(
                    r.drawn.items@[i].version,
                ),
            images_after(old(images), final(images), r.drawn.items@, final(self)@.windows),
            item_ids(r.drawn.items@).no_duplicates(),
            synced(displayed@, r.ops@, item_ids(r.drawn.items@)),
    {
        let described = self.describe_windows(state, props);
        let drawn = self.draw_windows(state, props, &described.metas);
        theme.follow_focus(&drawn.items);
        let rebuild = images.refresh_all(&drawn.items, &self.windows);
        let wanted = ids_of(&drawn.items);
        let ops = sync_rows(displayed, &wanted);
        WindowsUpdate { described, drawn, rebuild, ops }
    }

    /// The mode that clients are told of from now on, if it changed; capture
    /// sessions are told their new size then.
    pub fn take_output_mode(&mut self) -> (r: Option<(i32, i32, i32)>)
        requires
            old(self).wf(),
        ensures
            final(self).wf(),
            r == old(self)@.pending_output_mode,
            final(self)@ == (ShellView { pending_output_mode: None, ..old(self)@ }),
    {
        let r = self.pending_output_mode;
        self.pending_output_mode = None;
        r
    }
}

/// A closed window leaves no toplevel behind, and every other one stays.
pub proof fn law_closed_leaves_nothing(
    s: SpikeView,
    closed: Seq<ClosedWindow>,
    windows: Seq<WindowState>,
    surface: SurfaceId,
)
    ensures
        tracks(closed_dropped(s, closed, windows).toplevels, surface) <==> tracks(s.toplevels, surface) && (forall|
            k: int,
        |
            0 <= k < closed.len() ==> (#[trigger] closed[k]).surface != surface),
{
    lemma_left_after(s.toplevels, closed, surface, closed.len() as int);
}

proof fn lemma_left_after(toplevels: Seq<ToplevelInfo>, closed: Seq<ClosedWindow>, surface: SurfaceId, n: int)
    requires
        0 <= n <= closed.len(),
    ensures
        tracks(left_after(toplevels, closed, n), surface) <==> tracks(toplevels, surface) && (forall|k: int|
            0 <= k < n ==> (#[trigger] closed[k]).surface != surface),
    decreases n,
{
    if n > 0 {
        lemma_left_after(toplevels, closed, surface, n - 1);
        lemma_without(left_after(toplevels, closed, n - 1), closed[n - 1].surface);
    }
}

/// A forgotten window has no focus level.
pub proof fn law_closed_has_no_level(levels: Map<i32, u64>, closed: Seq<ClosedWindow>, k: int, n: int)
    requires
        0 <= k < n <= closed.len(),
    ensures
        !levels_left(levels, closed, n).contains_key(closed[k].id),
    decreases n,
{
    if k < n - 1 {
        law_closed_has_no_level(levels, closed, k, n - 1);
    }
}

/// The focused surface is that of a window with the focus, and there is none where no window
/// has it.
pub proof fn law_focus_is_a_windows(windows: Seq<WindowState>, from: int)
    requires
        0 <= from <= windows.len(),
    ensures
        match focused_from(windows, from) {
            Some(surface) => exists|i: int|
                from <= i < windows.len() && (#[trigger] windows[i]).focused && windows[i].surface == surface
                    && forall|k: int| from <= k < i ==> !(#[trigger] windows[k]).focused,
            None => forall|k: int| from <= k < windows.len() ==> !(#[trigger] windows[k]).focused,
        },
    decreases windows.len() - from,
{
    if from < windows.len() {
        law_focus_is_a_windows(windows, from + 1);
        if windows[from].focused {
            assert(windows[from].surface == focused_from(windows, from)->0);
        }
    }
}

/// When windows have closed, the focus is where the window manager left it; without any the
/// focus stays.
pub proof fn law_closing_moves_focus(s: SpikeView, closed: Seq<ClosedWindow>, windows: Seq<WindowState>)
    ensures
        closed.len() == 0 ==> closed_dropped(s, closed, windows) == s,
        closed.len() > 0 ==> closed_dropped(s, closed, windows).active_surface == focused_from(windows, 0),
        closed_dropped(s, closed, windows).popups == s.popups,
        closed_dropped(s, closed, windows).layer_surfaces == s.layer_surfaces,
{
}

/// A window that is still open keeps its level and how it changes.
pub proof fn law_open_window_keeps_level(levels: Map<i32, u64>, closed: Seq<ClosedWindow>, id: i32, n: int)
    requires
        0 <= n <= closed.len(),
        forall|k: int| 0 <= k < n ==> (#[trigger] closed[k]).id != id,
    ensures
        levels_left(levels, closed, n).contains_key(id) == levels.contains_key(id),
        levels.contains_key(id) ==> levels_left(levels, closed, n)[id] == levels[id],
    decreases n,
{
    if n > 0 {
        law_open_window_keeps_level(levels, closed, id, n - 1);
    }
}

/// A window has the application that the last of its toplevels names, and keeps the one it
/// has where none does.
pub proof fn law_application_is_the_clients(
    windows: Seq<WindowState>,
    toplevels: Seq<ToplevelInfo>,
    props: Seq<ToplevelProps>,
    i: int,
    n: int,
)
    requires
        0 <= n <= toplevels.len(),
        props.len() == toplevels.len(),
    ensures
        ({
            let id = app_id_after(windows, toplevels, props, i, n);
            ||| exists|k: int|
                0 <= k < n && crate::surface::index_of(windows, (#[trigger] toplevels[k]).surface) == Some(i)
                    && props[k].app_id@ == id && id.len() > 0
            ||| id == windows[i].app_id@ && forall|k: int|
                0 <= k < n && crate::surface::index_of(windows, (#[trigger] toplevels[k]).surface) == Some(i)
                    && !toplevels[k].backing.is_override_redirect() ==> props[k].app_id@.len() == 0
        }),
    decreases n,
{
    if n > 0 {
        law_application_is_the_clients(windows, toplevels, props, i, n - 1);
    }
}

proof fn lemma_following_wf(tweens: Seq<WindowTween>, levels: Map<i32, u64>, items: Seq<WindowItem>, n: int)
    requires
        crate::theme::tweens_wf(tweens),
        forall|i: i32| #[trigger] levels.contains_key(i) ==> levels[i] <= crate::theme::FULL,
    ensures
        crate::theme::tweens_wf(tweens_following(tweens, levels, items, n)),
    decreases n,
{
    if n > 0 {
        lemma_following_wf(tweens, levels, items, n - 1);
        let before = tweens_following(tweens, levels, items, n - 1);
        let it = items[n - 1];
        crate::theme::law_notification_concerns_one_window(before, levels, it.id, it.focused, it.id, 0);
    }
}

/// Every drawn window comes to look as its focus is: fully lit with it, not at all
/// without. A window that is not drawn looks as it would have.
pub proof fn law_drawn_windows_follow_focus(
    tweens: Seq<WindowTween>,
    levels: Map<i32, u64>,
    items: Seq<WindowItem>,
    n: int,
    k: int,
    other: i32,
    dt: u64,
)
    requires
        crate::theme::tweens_wf(tweens),
        forall|i: i32| #[trigger] levels.contains_key(i) ==> levels[i] <= crate::theme::FULL,
        0 <= n <= items.len(),
    ensures
        0 <= k < n && (forall|j: int| k < j < n ==> (#[trigger] items[j]).id != items[k].id) && dt >= 200_000_000
            ==> crate::theme::level_after(tweens_following(tweens, levels, items, n), levels, items[k].id, dt) == if items[k].focused {
            1_000_000_000_000u64
        } else {
            0
        },
        (forall|j: int| 0 <= j < n ==> (#[trigger] items[j]).id != other) ==> crate::theme::level_after(
            tweens_following(tweens, levels, items, n),
            levels,
            other,
            dt,
        ) == crate::theme::level_after(tweens, levels, other, dt),
    decreases n,
{
    if n > 0 {
        law_drawn_windows_follow_focus(tweens, levels, items, n - 1, k, other, dt);
        lemma_following_wf(tweens, levels, items, n - 1);
        let before = tweens_following(tweens, levels, items, n - 1);
        let it = items[n - 1];
        crate::theme::law_notification_concerns_one_window(before, levels, it.id, it.focused, other, dt);
        if 0 <= k < n - 1 {
            crate::theme::law_notification_concerns_one_window(before, levels, it.id, it.focused, items[k].id, dt);
        }
        if dt >= 200_000_000 {
            crate::theme::law_focus_lights_window(before, levels, it.id, dt);
        }
    }
}

/// A closed window is animated no more and has no focus level; the others keep theirs.
pub proof fn law_closed_windows_are_forgotten(
    tweens: Seq<WindowTween>,
    levels: Map<i32, u64>,
    closed: Seq<ClosedWindow>,
    n: int,
    t: WindowTween,
    id: i32,
)
    requires
        crate::theme::tweens_wf(tweens),
        0 <= n <= closed.len(),
    ensures
        crate::theme::tweens_wf(tweens_left(tweens, closed, n)),
        tweens_left(tweens, closed, n).contains(t) <==> tweens.contains(t) && forall|k: int|
            0 <= k < n ==> (#[trigger] closed[k]).id != t.window_id,
        levels_left(levels, closed, n).contains_key(id) <==> levels.contains_key(id) && forall|k: int|
            0 <= k < n ==> (#[trigger] closed[k]).id != id,
        levels_left(levels, closed, n).contains_key(id) ==> levels_left(levels, closed, n)[id] == levels[id],
    decreases n,
{
    if n > 0 {
        law_closed_windows_are_forgotten(tweens, levels, closed, n - 1, t, id);
        let before = tweens_left(tweens, closed, n - 1);
        crate::theme::law_forgotten_window(before, closed[n - 1].id, t);
    }
}

/// A window that something is resized by is the one whose edge is dragged; no window is
/// resized by a move, or without a drag.
pub proof fn law_dragged_edge_resizes(drag: Option<ActiveDrag>)
    ensures
        resized_by(drag) is Some <==> drag is Some && drag->0 is Resize,
        resized_by(drag) matches Some(i) ==> i == drag->0->Resize_toplevel_idx,
{
}

/// The windows that learn of their clients stay the same windows, where they were; each
/// is opened once its client has drawn.
pub proof fn law_described_windows_stay(
    before: Seq<WindowState>,
    after: Seq<WindowState>,
    metas: Seq<Option<WindowMeta>>,
    toplevels: Seq<ToplevelInfo>,
    props: Seq<ToplevelProps>,
    i: int,
)
    requires
        windows_described(before, after, metas, toplevels, props),
        0 <= i < before.len(),
    ensures
        after.len() == before.len(),
        after[i].id == before[i].id,
        after[i].surface == before[i].surface,
        after[i].rect == before[i].rect,
        after[i].z_order == before[i].z_order,
        after[i].focused == before[i].focused,
        after[i].minimized == before[i].minimized,
        after[i].maximized == before[i].maximized,
        after[i].closing == before[i].closing,
        after[i].awaiting_first_render ==> before[i].awaiting_first_render,
{
    lemma_window_stays(before, metas, metas.len() as int, i);
}

proof fn lemma_window_stays(windows: Seq<WindowState>, metas: Seq<Option<WindowMeta>>, n: int, i: int)
    requires
        0 <= i < windows.len(),
    ensures
        ({
            let after = crate::window_items::all_described(windows, metas, n);
            &&& after.len() == windows.len()
            &&& after[i].id == windows[i].id
            &&& after[i].surface == windows[i].surface
            &&& after[i].rect == windows[i].rect
            &&& after[i].z_order == windows[i].z_order
            &&& after[i].focused == windows[i].focused
            &&& after[i].minimized == windows[i].minimized
            &&& after[i].maximized == windows[i].maximized
            &&& after[i].closing == windows[i].closing
            &&& after[i].awaiting_first_render == windows[i].awaiting_first_render
        }),
    decreases n,
{
    if n > 0 {
        lemma_window_stays(windows, metas, n - 1, i);
        let before = crate::window_items::all_described(windows, metas, n - 1);
        if let Some(m) = metas[n - 1] {
            crate::surface::lemma_index_of(before, m.surface);
        }
    }
}

/// Each managed client window is described, by its own surface; one that places itself
/// is not.
pub proof fn law_clients_are_described(
    metas: Seq<Option<WindowMeta>>,
    toplevels: Seq<ToplevelInfo>,
    props: Seq<ToplevelProps>,
    dragged: Option<usize>,
    i: int,
)
    requires
        all_metas(metas, toplevels, props, dragged),
        0 <= i < toplevels.len() <= usize::MAX,
    ensures
        metas.len() == toplevels.len(),
        metas[i] is Some <==> !toplevels[i].backing.is_override_redirect(),
        metas[i] matches Some(m) ==> m.surface == toplevels[i].surface && m.csd == toplevels[i].csd && (m.resizing <==> (
        dragged is Some && dragged->0 == i) || props[i].resize_pending),
{
    assert(metas[i] is Some || metas[i] is None);
}

/// What windows do leaves the theme alone.
pub proof fn law_windows_leave_the_theme_alone(a: &ThemeState, b: &ThemeState)
    requires
        a.same_but_focus(b),
    ensures
        a.current_mode == b.current_mode,
        a.mode_t == b.mode_t,
        a.mode_tween == b.mode_tween,
        a.auto_times == b.auto_times,
        a.animating == b.animating,
        b.same_but_focus(a),
{
}

} // verus!
