//! What changed on screen since the last frame: which buffers are new, which
//! layers are shown, and which surfaces the frame will show.

use std::collections::HashSet;

use vstd::prelude::*;

use crate::layer_shell::{Area, Layer, LayerInfo};
use crate::order::{order_by, ordered};
use crate::pixels::ClientSurfaceData;
use crate::state::{PopupInfo, SpikeState, SpikeView, ToplevelInfo};
use crate::surface::{index_of, position, SurfaceId};
use crate::surface_import::SurfacePixels;
use crate::windows::{back_keys, windows_sorted, WindowState};

verus! {

/// Whether a buffer has pixels that were not drawn yet.
pub open spec fn has_news(p: SurfacePixels) -> bool {
    p.dirty && p.width > 0
}

pub open spec fn drawn(p: SurfacePixels) -> SurfacePixels {
    if has_news(p) {
        SurfacePixels { dirty: false, ..p }
    } else {
        p
    }
}

/// Whether some window's buffer or the focused one has news.
pub open spec fn any_news(s: SpikeView) -> bool {
    ||| exists|i: int| 0 <= i < s.toplevels.len() && has_news((#[trigger] s.toplevels[i]).pixels@)
    ||| has_news(s.client_pixels)
}

/// Whether `after` is window `before` with its news taken.
pub open spec fn taken(before: ToplevelInfo, after: ToplevelInfo) -> bool {
    &&& after.pixels@ == drawn(before.pixels@)
    &&& after == (ToplevelInfo { pixels: after.pixels, ..before })
}

fn take_news(p: &mut ClientSurfaceData) -> (news: bool)
    ensures
        news == has_news(old(p)@),
        final(p)@ == drawn(old(p)@),
{
    if p.dirty && p.width > 0 {
        p.dirty = false;
        return true;
    }
    false
}

/// The pixels of the drag icon, and its hotspot.
#[derive(Debug)]
pub struct IconSnapshot {
    pub pixels: Vec<u8>,
    pub width: u32,
    pub height: u32,
    pub hotspot_x: i32,
    pub hotspot_y: i32,
}

/// The pixels of the lock screen.
#[derive(Debug)]
pub struct LockSnapshot {
    pub pixels: Vec<u8>,
    pub width: u32,
    pub height: u32,
}

pub open spec fn is_icon(s: SpikeView, r: Option<IconSnapshot>) -> bool {
    let p = s.dnd_icon_pixels;
    match s.dnd_icon {
        Some(icon) => if p.width > 0 && p.height > 0 {
            r matches Some(i) && i.pixels@ == p.pixels && i.width == p.width && i.height == p.height && i.hotspot_x
                == icon.offset_x && i.hotspot_y == icon.offset_y
        } else {
            r is None
        },
        None => r is None,
    }
}

/// The lock screen is the first lock surface, once it has pixels.
pub open spec fn is_lock_screen(s: SpikeView, r: Option<LockSnapshot>) -> bool {
    if s.session_locked && s.lock_surfaces.len() > 0 && s.lock_surfaces[0].pixels.width > 0
        && s.lock_surfaces[0].pixels.height > 0 {
        let p = s.lock_surfaces[0].pixels@;
        r matches Some(l) && l.pixels@ == p.pixels && l.width == p.width && l.height == p.height
    } else {
        r is None
    }
}

/// What the last frame drew over the windows.
#[derive(Debug)]
pub struct Overlays {
    pub icon: Option<IconSnapshot>,
    /// The session is locked: nothing but the lock screen may be seen.
    pub locked: bool,
    pub lock: Option<LockSnapshot>,
}

/// What the next frame has to do.
#[derive(Clone, Copy, Debug, PartialEq, Eq, Structural)]
pub struct SceneChange {
    /// The windows are to be rebuilt.
    pub windows: bool,
    /// There is something to draw.
    pub redraw: bool,
}

fn copy_bytes(v: &Vec<u8>) -> (r: Vec<u8>)
    ensures
        r@ == v@,
{
    let mut r: Vec<u8> = Vec::new();
    let mut i: usize = 0;
    while i < v.len()
        invariant
            0 <= i <= v@.len(),
            r@ == v@.take(i as int),
        decreases v@.len() - i,
    {
        r.push(v[i]);
        assert(v@.take(i + 1) =~= v@.take(i as int).push(v@[i as int]));
        i += 1;
    }
    assert(v@.take(i as int) =~= v@);
    r
}

fn icon_snapshot(state: &SpikeState) -> (r: Option<IconSnapshot>)
    ensures
        is_icon(state@, r),
{
    match state.dnd_icon {
        Some(icon) => {
            let p = &state.dnd_icon_pixels;
            if p.width > 0 && p.height > 0 {
                Some(
                    IconSnapshot {
                        pixels: copy_bytes(&p.pixels),
                        width: p.width,
                        height: p.height,
                        hotspot_x: icon.offset_x,
                        hotspot_y: icon.offset_y,
                    },
                )
            } else {
                None
            }
        },
        None => None,
    }
}

fn lock_snapshot(state: &SpikeState) -> (r: Option<LockSnapshot>)
    ensures
        is_lock_screen(state@, r),
{
    if state.session_locked && state.lock_surfaces.len() > 0 {
        let p = &state.lock_surfaces[0].pixels;
        if p.width > 0 && p.height > 0 {
            return Some(LockSnapshot { pixels: copy_bytes(&p.pixels), width: p.width, height: p.height });
        }
    }
    None
}

/// Takes every buffer's news. Returns whether there was any.
fn take_all_news(state: &mut SpikeState) -> (news: bool)
    ensures
        news == any_news(old(state)@),
        final(state)@ == (SpikeView {
            toplevels: final(state)@.toplevels,
            client_pixels: drawn(old(state)@.client_pixels),
            ..old(state)@
        }),
        final(state)@.toplevels.len() == old(state)@.toplevels.len(),
        forall|i: int|
            0 <= i < old(state)@.toplevels.len() ==> taken(
                old(state)@.toplevels[i],
                #[trigger] final(state)@.toplevels[i],
            ),
{
    let mut news: bool = false;
    let n: usize = state.toplevels.len();
    let mut i: usize = 0;
    while i < n
        invariant
            0 <= i <= n,
            n == state.toplevels@.len(),
            n == old(state)@.toplevels.len(),
            state@ == (SpikeView { toplevels: state@.toplevels, ..old(state)@ }),
            forall|k: int| 0 <= k < i ==> taken(old(state)@.toplevels[k], #[trigger] state.toplevels@[k]),
            forall|k: int| i <= k < n ==> #[trigger] state.toplevels@[k] == old(state)@.toplevels[k],
            news == exists|k: int| 0 <= k < i && has_news((#[trigger] old(state)@.toplevels[k]).pixels@),
        decreases n - i,
    {
        let ghost here = old(state)@.toplevels[i as int];
        if take_news(&mut state.toplevels[i].pixels) {
            news = true;
        }
        assert(taken(here, state.toplevels@[i as int]));
        i += 1;
    }
    if take_news(&mut state.client_pixels) {
        news = true;
    }
    news
}

impl Overlays {
    pub fn new() -> (o: Self)
        ensures
            o.icon is None,
            !o.locked,
            o.lock is None,
    {
        Overlays { icon: None, locked: false, lock: None }
    }

    /// Looks for new pixels and takes over the drag icon, whether the session is locked,
    /// and the lock screen. What is drawn over the windows is redrawn as long as it is
    /// there and once when it is gone. `animating` tells that some window is moving.
    pub fn update_client_texture(&mut self, state: &mut SpikeState, animating: bool) -> (r: SceneChange)
        ensures
            ({
                let was = old(state)@;
                let now = final(state)@;
                &&& r.windows == (any_news(was) || animating)
                &&& r.redraw == (r.windows || final(self).icon is Some || old(self).icon is Some || final(self).locked
                    || old(self).locked || final(self).lock is Some || old(self).lock is Some)
                &&& now == SpikeView { toplevels: now.toplevels, client_pixels: drawn(was.client_pixels), ..was }
                &&& now.toplevels.len() == was.toplevels.len()
                &&& forall|i: int|
                    0 <= i < was.toplevels.len() ==> taken(was.toplevels[i], #[trigger] now.toplevels[i])
                &&& is_icon(was, final(self).icon)
                &&& final(self).locked == was.session_locked
                &&& is_lock_screen(was, final(self).lock)
            }),
    {
        let news = take_all_news(state);
        let windows = news || animating;
        let had_icon = self.icon.is_some();
        self.icon = icon_snapshot(state);
        let had_lock = self.locked || self.lock.is_some();
        self.locked = state.session_locked;
        self.lock = lock_snapshot(state);
        let redraw = windows || self.icon.is_some() || had_icon || self.locked || self.lock.is_some() || had_lock;
        SceneChange { windows, redraw }
    }
}

/// A layer as it is published.
#[derive(Clone, Copy, Debug, PartialEq, Eq, Structural)]
pub struct LayerRow {
    pub id: SurfaceId,
    pub area: Area,
    /// The height of the layer: the background is zero.
    pub ordinal: i32,
}

pub open spec fn ordinal_of(layer: Layer) -> i32 {
    match layer {
        Layer::Background => 0,
        Layer::Bottom => 1,
        Layer::Top => 2,
        Layer::Overlay => 3,
    }
}

fn layer_ordinal(layer: Layer) -> (r: i32)
    ensures
        r == ordinal_of(layer),
{
    match layer {
        Layer::Background => 0,
        Layer::Bottom => 1,
        Layer::Top => 2,
        Layer::Overlay => 3,
    }
}

/// Whether a layer has pixels and a place to show them.
pub open spec fn layer_shown(l: LayerInfo) -> bool {
    l.pixels.width != 0 && l.pixels.height != 0 && l.area.w > 0 && l.area.h > 0
}

pub open spec fn row_of(l: LayerInfo) -> LayerRow {
    LayerRow { id: l.surface, area: l.area, ordinal: ordinal_of(l.config.layer) }
}

/// The surfaces with an image after the first `n` layers were looked at.
pub open spec fn cached_upto(layers: Seq<LayerInfo>, cached: Set<SurfaceId>, n: int) -> Set<SurfaceId>
    decreases n,
{
    if n <= 0 {
        cached
    } else if layer_shown(layers[n - 1]) {
        cached_upto(layers, cached, n - 1).insert(layers[n - 1].surface)
    } else {
        cached_upto(layers, cached, n - 1).remove(layers[n - 1].surface)
    }
}

/// The surfaces that are shown among the first `n` layers.
pub open spec fn shown_upto(layers: Seq<LayerInfo>, n: int) -> Set<SurfaceId>
    decreases n,
{
    if n <= 0 {
        Set::empty()
    } else if layer_shown(layers[n - 1]) {
        shown_upto(layers, n - 1).insert(layers[n - 1].surface)
    } else {
        shown_upto(layers, n - 1)
    }
}

/// The surfaces whose image is built anew, in order.
pub open spec fn uploads_upto(layers: Seq<LayerInfo>, cached: Set<SurfaceId>, n: int) -> Seq<SurfaceId>
    decreases n,
{
    if n <= 0 {
        Seq::empty()
    } else {
        let l = layers[n - 1];
        let uploads = uploads_upto(layers, cached, n - 1);
        if layer_shown(l) && (l.pixels.dirty || !cached_upto(layers, cached, n - 1).contains(l.surface)) {
            uploads.push(l.surface)
        } else {
            uploads
        }
    }
}

/// The rows of the first `n` layers, in their given order.
pub open spec fn rows_upto(layers: Seq<LayerInfo>, n: int) -> Seq<LayerRow>
    decreases n,
{
    if n <= 0 {
        Seq::empty()
    } else if layer_shown(layers[n - 1]) {
        rows_upto(layers, n - 1).push(row_of(layers[n - 1]))
    } else {
        rows_upto(layers, n - 1)
    }
}

pub open spec fn ordinals(rows: Seq<LayerRow>) -> Seq<i64> {
    rows.map_values(|r: LayerRow| r.ordinal as i64)
}

/// The rows from the bottom up.
pub open spec fn stacked(rows: Seq<LayerRow>) -> Seq<LayerRow> {
    Seq::new(rows.len(), |i: int| rows[ordered(ordinals(rows))[i] as int])
}

/// The first `n` rows that have an image.
pub open spec fn with_image(rows: Seq<LayerRow>, cached: Set<SurfaceId>, n: int) -> Seq<LayerRow>
    decreases n,
{
    if n <= 0 {
        Seq::empty()
    } else if cached.contains(rows[n - 1].id) {
        with_image(rows, cached, n - 1).push(rows[n - 1])
    } else {
        with_image(rows, cached, n - 1)
    }
}

/// The images that are kept: those of layers that are gone are dropped.
pub open spec fn kept_images(cached: Set<SurfaceId>, shown: Set<SurfaceId>) -> Set<SurfaceId> {
    if cached.len() > shown.len() {
        cached.intersect(shown)
    } else {
        cached
    }
}

/// The layers that were published last, and the surfaces whose image is kept.
#[derive(Debug)]
pub struct LayerScene {
    pub cached: HashSet<SurfaceId>,
    pub rows: Vec<LayerRow>,
}

/// What is published anew.
#[derive(Debug)]
pub struct LayerChange {
    /// The surfaces whose image is built anew.
    pub uploads: Vec<SurfaceId>,
    /// The rows, from the bottom up; none when nothing changed.
    pub rows: Option<Vec<LayerRow>>,
}

/// Whether `after` is layer `before` with its news taken.
pub open spec fn layer_taken(before: LayerInfo, after: LayerInfo) -> bool {
    &&& after.pixels@ == (SurfacePixels { dirty: false, ..before.pixels@ })
    &&& after == (LayerInfo { pixels: after.pixels, ..before })
}

fn stack_rows(rows: &Vec<LayerRow>) -> (r: Vec<LayerRow>)
    ensures
        r@ == stacked(rows@),
{
    let mut keys: Vec<i64> = Vec::new();
    let mut i: usize = 0;
    while i < rows.len()
        invariant
            0 <= i <= rows@.len(),
            keys@.len() == i,
            forall|k: int| 0 <= k < i ==> keys@[k] == ordinals(rows@)[k],
        decreases rows@.len() - i,
    {
        keys.push(rows[i].ordinal as i64);
        i += 1;
    }
    assert(keys@ =~= ordinals(rows@));
    let order = order_by(&keys);
    let mut r: Vec<LayerRow> = Vec::new();
    let mut j: usize = 0;
    while j < order.len()
        invariant
            0 <= j <= order@.len(),
            order@.len() == rows@.len(),
            order@ == ordered(ordinals(rows@)),
            forall|p: int| 0 <= p < order@.len() ==> (#[trigger] order@[p]) < rows@.len(),
            r@ == stacked(rows@).take(j as int),
        decreases order@.len() - j,
    {
        r.push(rows[order[j]]);
        assert(stacked(rows@).take(j + 1) =~= stacked(rows@).take(j as int).push(rows@[order@[j as int] as int]));
        j += 1;
    }
    assert(stacked(rows@).take(j as int) =~= stacked(rows@));
    r
}

fn same_rows(a: &Vec<LayerRow>, b: &Vec<LayerRow>) -> (r: bool)
    ensures
        r == (a@ == b@),
{
    if a.len() != b.len() {
        return false;
    }
    let mut i: usize = 0;
    while i < a.len()
        invariant
            0 <= i <= a@.len(),
            a@.len() == b@.len(),
            forall|k: int| 0 <= k < i ==> a@[k] == b@[k],
        decreases a@.len() - i,
    {
        if a[i] != b[i] {
            assert(a@[i as int] != b@[i as int]);
            return false;
        }
        i += 1;
    }
    assert(a@ =~= b@);
    true
}

impl LayerScene {
    pub fn new() -> (s: Self)
        ensures
            s.cached@ == Set::<SurfaceId>::empty(),
            s.rows@.len() == 0,
    {
        LayerScene { cached: HashSet::new(), rows: Vec::new() }
    }

    /// Drops the images of layers that are gone.
    fn evict(&mut self, shown: &Vec<SurfaceId>, shown_set: &HashSet<SurfaceId>)
        requires
            shown@.to_set() == shown_set@,
        ensures
            final(self).cached@ == kept_images(old(self).cached@, shown_set@),
            final(self).rows == old(self).rows,
    {
        broadcast use vstd::std_specs::hash::group_hash_axioms;

        if self.cached.len() > shown_set.len() {
            let mut kept: HashSet<SurfaceId> = HashSet::new();
            let mut i: usize = 0;
            while i < shown.len()
                invariant
                    0 <= i <= shown@.len(),
                    *self == *old(self),
                    kept@ == self.cached@.intersect(shown@.take(i as int).to_set()),
                decreases shown@.len() - i,
            {
                broadcast use vstd::std_specs::hash::group_hash_axioms;

                let ghost before = shown@.take(i as int);
                let ghost after = shown@.take(i + 1);
                assert(after =~= before.push(shown@[i as int]));
                assert(after.to_set() =~= before.to_set().insert(shown@[i as int])) by {
                    broadcast use vstd::seq_lib::group_seq_properties;

                }
                if self.cached.contains(&shown[i]) {
                    kept.insert(shown[i]);
                }
                assert(kept@ =~= self.cached@.intersect(after.to_set()));
                i += 1;
            }
            assert(shown@.take(i as int) =~= shown@);
            self.cached = kept;
        }
    }

    /// Looks at every layer: takes its news, and publishes the layers anew if one
    /// came, went, moved or was repainted.
    pub fn update_layers(&mut self, state: &mut SpikeState) -> (r: LayerChange)
        ensures
            ({
                let layers = old(state)@.layer_surfaces;
                let n = layers.len() as int;
                let uploads = uploads_upto(layers, old(self).cached@, n);
                let cached = kept_images(cached_upto(layers, old(self).cached@, n), shown_upto(layers, n));
                let rows = stacked(rows_upto(layers, n));
                &&& r.uploads@ == uploads
                &&& final(self).cached@ == cached
                &&& final(self).rows@ == rows
                &&& r.rows is Some <==> uploads.len() > 0 || rows != old(self).rows@
                &&& r.rows matches Some(p) ==> p@ == with_image(rows, cached, rows.len() as int)
            }),
            final(state)@ == (SpikeView { layer_surfaces: final(state)@.layer_surfaces, ..old(state)@ }),
            final(state)@.layer_surfaces.len() == old(state)@.layer_surfaces.len(),
            forall|i: int|
                0 <= i < old(state)@.layer_surfaces.len() ==> layer_taken(
                    old(state)@.layer_surfaces[i],
                    #[trigger] final(state)@.layer_surfaces[i],
                ),
    {
        broadcast use vstd::std_specs::hash::group_hash_axioms;

        let ghost layers = old(state)@.layer_surfaces;
        let n: usize = state.layer_surfaces.len();
        let mut uploads: Vec<SurfaceId> = Vec::new();
        let mut rows: Vec<LayerRow> = Vec::new();
        let mut shown: Vec<SurfaceId> = Vec::new();
        let mut shown_set: HashSet<SurfaceId> = HashSet::new();
        let mut i: usize = 0;
        assert(shown@.to_set() =~= Set::<SurfaceId>::empty());
        while i < n
            invariant
                0 <= i <= n,
                n == layers.len(),
                layers == old(state)@.layer_surfaces,
                n == state.layer_surfaces@.len(),
                state@ == (SpikeView { layer_surfaces: state@.layer_surfaces, ..old(state)@ }),
                forall|k: int| 0 <= k < i ==> layer_taken(layers[k], #[trigger] state.layer_surfaces@[k]),
                forall|k: int| i <= k < n ==> #[trigger] state.layer_surfaces@[k] == layers[k],
                self.rows == old(self).rows,
                self.cached@ == cached_upto(layers, old(self).cached@, i as int),
                uploads@ == uploads_upto(layers, old(self).cached@, i as int),
                rows@ == rows_upto(layers, i as int),
                shown_set@ == shown_upto(layers, i as int),
                shown@.to_set() == shown_set@,
            decreases n - i,
        {
            broadcast use vstd::std_specs::hash::group_hash_axioms;

            let dirty: bool = state.layer_surfaces[i].pixels.dirty;
            if dirty {
                state.layer_surfaces[i].pixels.dirty = false;
            }
            assert(layer_taken(layers[i as int], state.layer_surfaces@[i as int]));
            let id: SurfaceId = state.layer_surfaces[i].surface;
            let area = state.layer_surfaces[i].area;
            let width: u32 = state.layer_surfaces[i].pixels.width;
            let height: u32 = state.layer_surfaces[i].pixels.height;
            if width == 0 || height == 0 || area.w <= 0 || area.h <= 0 {
                self.cached.remove(&id);
            } else {
                let ghost before = shown@;
                shown.push(id);
                shown_set.insert(id);
                assert(shown@.to_set() =~= before.to_set().insert(id)) by {
                    broadcast use vstd::seq_lib::group_seq_properties;

                }
                if dirty || !self.cached.contains(&id) {
                    uploads.push(id);
                }
                self.cached.insert(id);
                rows.push(LayerRow { id, area, ordinal: layer_ordinal(state.layer_surfaces[i].config.layer) });
            }
            i += 1;
        }
        let stack = stack_rows(&rows);
        self.evict(&shown, &shown_set);
        if uploads.len() == 0 && same_rows(&stack, &self.rows) {
            return LayerChange { uploads, rows: None };
        }
        let mut published: Vec<LayerRow> = Vec::new();
        let mut j: usize = 0;
        while j < stack.len()
            invariant
                0 <= j <= stack@.len(),
                published@ == with_image(stack@, self.cached@, j as int),
            decreases stack@.len() - j,
        {
            broadcast use vstd::std_specs::hash::group_hash_axioms;

            if self.cached.contains(&stack[j].id) {
                published.push(stack[j]);
            }
            j += 1;
        }
        self.rows = stack;
        LayerChange { uploads, rows: Some(published) }
    }
}

/// Whether the frame shows window `w`: it is not hidden, and has pixels.
pub open spec fn window_shown(w: WindowState, toplevels: Seq<ToplevelInfo>) -> bool {
    !w.minimized && !w.closing && (index_of(toplevels, w.surface) matches Some(i) && toplevels[i].pixels.width != 0
        && toplevels[i].pixels.height != 0)
}

/// The first `n` windows of `order` that the frame shows.
pub open spec fn shown_windows(
    windows: Seq<WindowState>,
    order: Seq<usize>,
    toplevels: Seq<ToplevelInfo>,
    n: int,
) -> Seq<SurfaceId>
    decreases n,
{
    if n <= 0 {
        Seq::empty()
    } else {
        let rest = shown_windows(windows, order, toplevels, n - 1);
        let w = windows[order[n - 1] as int];
        if window_shown(w, toplevels) {
            rest.push(w.surface)
        } else {
            rest
        }
    }
}

/// The X11 windows among the first `n` that place themselves.
pub open spec fn unmanaged(toplevels: Seq<ToplevelInfo>, n: int) -> Seq<SurfaceId>
    decreases n,
{
    if n <= 0 {
        Seq::empty()
    } else if toplevels[n - 1].backing.is_override_redirect() {
        unmanaged(toplevels, n - 1).push(toplevels[n - 1].surface)
    } else {
        unmanaged(toplevels, n - 1)
    }
}

/// The root surfaces that the frame shows.
pub open spec fn on_screen(windows: Seq<WindowState>, s: SpikeView) -> Seq<SurfaceId> {
    shown_windows(windows, ordered(back_keys(windows)), s.toplevels, windows.len() as int)
        + s.layer_surfaces.map_values(|l: LayerInfo| l.surface) + s.popups.map_values(|p: PopupInfo| p.surface)
        + unmanaged(s.toplevels, s.toplevels.len() as int)
}

/// The root surfaces that the frame shows: windows from back to front, layers,
/// popups, and X11 windows that place themselves. Only their clients are asked
/// to draw again.
pub fn visible_surfaces(windows: &Vec<WindowState>, state: &SpikeState) -> (r: Vec<SurfaceId>)
    ensures
        r@ == on_screen(windows@, state@),
{
    let order = windows_sorted(windows);
    let mut r: Vec<SurfaceId> = Vec::new();
    let mut i: usize = 0;
    while i < order.len()
        invariant
            0 <= i <= order@.len(),
            order@.len() == windows@.len(),
            forall|p: int| 0 <= p < order@.len() ==> (#[trigger] order@[p]) < windows@.len(),
            r@ == shown_windows(windows@, order@, state@.toplevels, i as int),
        decreases order@.len() - i,
    {
        let w = &windows[order[i]];
        if !w.minimized && !w.closing {
            if let Some(k) = position(&state.toplevels, w.surface) {
                if state.toplevels[k].pixels.width != 0 && state.toplevels[k].pixels.height != 0 {
                    r.push(w.surface);
                }
            }
        }
        i += 1;
    }
    let ghost first = r@;
    let mut l: usize = 0;
    while l < state.layer_surfaces.len()
        invariant
            0 <= l <= state.layer_surfaces@.len(),
            r@ == first + state@.layer_surfaces.take(l as int).map_values(|l: LayerInfo| l.surface),
        decreases state.layer_surfaces@.len() - l,
    {
        assert(state@.layer_surfaces.take(l + 1) =~= state@.layer_surfaces.take(l as int).push(
            state@.layer_surfaces[l as int],
        ));
        r.push(state.layer_surfaces[l].surface);
        assert(r@ =~= first + state@.layer_surfaces.take(l + 1).map_values(|l: LayerInfo| l.surface));
        l += 1;
    }
    assert(state@.layer_surfaces.take(l as int) =~= state@.layer_surfaces);
    let ghost second = r@;
    let mut p: usize = 0;
    while p < state.popups.len()
        invariant
            0 <= p <= state.popups@.len(),
            r@ == second + state@.popups.take(p as int).map_values(|p: PopupInfo| p.surface),
        decreases state.popups@.len() - p,
    {
        assert(state@.popups.take(p + 1) =~= state@.popups.take(p as int).push(state@.popups[p as int]));
        r.push(state.popups[p].surface);
        assert(r@ =~= second + state@.popups.take(p + 1).map_values(|p: PopupInfo| p.surface));
        p += 1;
    }
    assert(state@.popups.take(p as int) =~= state@.popups);
    let ghost third = r@;
    let mut t: usize = 0;
    while t < state.toplevels.len()
        invariant
            0 <= t <= state.toplevels@.len(),
            r@ == third + unmanaged(state@.toplevels, t as int),
        decreases state.toplevels@.len() - t,
    {
        if state.toplevels[t].backing.override_redirect() {
            r.push(state.toplevels[t].surface);
        }
        t += 1;
    }
    r
}

/// A window behind the panel and the dock: where it is drawn, and the index of
/// the toplevel whose pixels it shows.
#[derive(Clone, Copy, Debug, PartialEq, Eq, Structural)]
pub struct BackdropWindow {
    pub area: Area,
    pub toplevel: usize,
}

/// What of window `w` shows through the panel and the dock.
pub open spec fn backdrop_of(w: WindowState, toplevels: Seq<ToplevelInfo>) -> Option<BackdropWindow> {
    if w.minimized && w.settled {
        None
    } else {
        match index_of(toplevels, w.surface) {
            Some(i) => if toplevels[i].pixels.width == 0 || toplevels[i].pixels.height == 0 {
                None
            } else {
                Some(BackdropWindow { area: w.shown, toplevel: i as usize })
            },
            None => None,
        }
    }
}

pub open spec fn backdrops(
    windows: Seq<WindowState>,
    order: Seq<usize>,
    toplevels: Seq<ToplevelInfo>,
    n: int,
) -> Seq<BackdropWindow>
    decreases n,
{
    if n <= 0 {
        Seq::empty()
    } else {
        let rest = backdrops(windows, order, toplevels, n - 1);
        match backdrop_of(windows[order[n - 1] as int], toplevels) {
            Some(b) => rest.push(b),
            None => rest,
        }
    }
}

/// The windows to blur behind the panel and the dock, from back to front; none
/// unless a refresh is due.
pub fn refresh_backdrop(windows: &Vec<WindowState>, state: &SpikeState, due: bool) -> (r: Option<Vec<BackdropWindow>>)
    ensures
        r is Some <==> due,
        r matches Some(list) ==> list@ == backdrops(
            windows@,
            ordered(back_keys(windows@)),
            state@.toplevels,
            windows@.len() as int,
        ),
{
    if !due {
        return None;
    }
    let order = windows_sorted(windows);
    let mut list: Vec<BackdropWindow> = Vec::new();
    let mut i: usize = 0;
    while i < order.len()
        invariant
            0 <= i <= order@.len(),
            order@.len() == windows@.len(),
            forall|p: int| 0 <= p < order@.len() ==> (#[trigger] order@[p]) < windows@.len(),
            list@ == backdrops(windows@, order@, state@.toplevels, i as int),
        decreases order@.len() - i,
    {
        let w = &windows[order[i]];
        if !(w.minimized && w.settled) {
            if let Some(k) = position(&state.toplevels, w.surface) {
                if !(state.toplevels[k].pixels.width == 0 || state.toplevels[k].pixels.height == 0) {
                    list.push(BackdropWindow { area: w.shown, toplevel: k });
                }
            }
        }
        i += 1;
    }
    Some(list)
}

/// Whether some window is moving, so that the next frame follows at once.
pub fn any_animating(windows: &Vec<WindowState>) -> (r: bool)
    ensures
        r == exists|i: int| 0 <= i < windows@.len() && !(#[trigger] windows@[i]).settled,
{
    let mut i: usize = 0;
    while i < windows.len()
        invariant
            0 <= i <= windows@.len(),
            forall|k: int| 0 <= k < i ==> (#[trigger] windows@[k]).settled,
        decreases windows@.len() - i,
    {
        if !windows[i].settled {
            return true;
        }
        i += 1;
    }
    false
}

/// Once the news are taken there are none, until a client commits again.
pub proof fn law_news_taken_once(was: SpikeView, now: SpikeView)
    requires
        now.toplevels.len() == was.toplevels.len(),
        now.client_pixels == drawn(was.client_pixels),
        forall|i: int| 0 <= i < was.toplevels.len() ==> taken(was.toplevels[i], #[trigger] now.toplevels[i]),
    ensures
        !any_news(now),
{
}

/// A minimized or closing window is never asked to draw.
pub proof fn law_hidden_not_shown(windows: Seq<WindowState>, order: Seq<usize>, toplevels: Seq<ToplevelInfo>, n: int, k: int)
    requires
        0 <= n <= order.len(),
        forall|p: int| 0 <= p < order.len() ==> (#[trigger] order[p]) < windows.len(),
        0 <= k < shown_windows(windows, order, toplevels, n).len(),
    ensures
        exists|i: int|
            0 <= i < windows.len() && window_shown(#[trigger] windows[i], toplevels) && windows[i].surface
                == shown_windows(windows, order, toplevels, n)[k],
    decreases n,
{
    if n > 0 {
        let rest = shown_windows(windows, order, toplevels, n - 1);
        if k < rest.len() {
            law_hidden_not_shown(windows, order, toplevels, n - 1, k);
        } else {
            assert(window_shown(windows[order[n - 1] as int], toplevels));
        }
    }
}

/// What is on the screen is every layer surface, every popup, every X11 window that places
/// itself, and the windows that are neither minimized nor closing and have pixels.
pub proof fn law_on_screen(windows: Seq<WindowState>, s: SpikeView, i: int)
    requires
        windows.len() <= usize::MAX,
    ensures
        0 <= i < s.layer_surfaces.len() ==> on_screen(windows, s).contains(s.layer_surfaces[i].surface),
        0 <= i < s.popups.len() ==> on_screen(windows, s).contains(s.popups[i].surface),
        0 <= i < s.toplevels.len() && s.toplevels[i].backing.is_override_redirect() ==> on_screen(windows, s).contains(
            s.toplevels[i].surface,
        ),
        0 <= i < windows.len() && !windows[i].minimized && !windows[i].closing && (index_of(
            s.toplevels,
            windows[i].surface,
        ) matches Some(t) && s.toplevels[t].pixels.width != 0 && s.toplevels[t].pixels.height != 0) ==> on_screen(
            windows,
            s,
        ).contains(windows[i].surface),
{
    let a = shown_windows(windows, ordered(back_keys(windows)), s.toplevels, windows.len() as int);
    let b = s.layer_surfaces.map_values(|l: LayerInfo| l.surface);
    let c = s.popups.map_values(|p: PopupInfo| p.surface);
    let d = unmanaged(s.toplevels, s.toplevels.len() as int);
    let all = on_screen(windows, s);
    assert(all == a + b + c + d);
    if 0 <= i < s.layer_surfaces.len() {
        assert(all[a.len() + i] == b[i]);
    }
    if 0 <= i < s.popups.len() {
        assert(all[a.len() + b.len() + i] == c[i]);
    }
    if 0 <= i < s.toplevels.len() && s.toplevels[i].backing.is_override_redirect() {
        lemma_unmanaged(s.toplevels, s.toplevels.len() as int, i);
        let k = choose|k: int| 0 <= k < d.len() && d[k] == s.toplevels[i].surface;
        assert(all[a.len() + b.len() + c.len() + k] == d[k]);
    }
    if 0 <= i < windows.len() && window_shown(windows[i], s.toplevels) {
        crate::order::lemma_order_exists(back_keys(windows));
        let order = ordered(back_keys(windows));
        assert(crate::order::occurs_in(order, i));
        let p = choose|p: int| 0 <= p < order.len() && #[trigger] order[p] == i;
        lemma_shown_window(windows, order, s.toplevels, windows.len() as int, p);
        let k = choose|k: int| 0 <= k < a.len() && a[k] == windows[i].surface;
        assert(all[k] == a[k]);
    }
}

proof fn lemma_unmanaged(toplevels: Seq<ToplevelInfo>, n: int, i: int)
    requires
        0 <= i < n <= toplevels.len(),
        toplevels[i].backing.is_override_redirect(),
    ensures
        unmanaged(toplevels, n).contains(toplevels[i].surface),
    decreases n,
{
    let all = unmanaged(toplevels, n);
    let rest = unmanaged(toplevels, n - 1);
    if i < n - 1 {
        lemma_unmanaged(toplevels, n - 1, i);
        let k = choose|k: int| 0 <= k < rest.len() && rest[k] == toplevels[i].surface;
        assert(all[k] == rest[k]);
    } else {
        assert(all[rest.len() as int] == toplevels[i].surface);
    }
}

proof fn lemma_shown_window(
    windows: Seq<WindowState>,
    order: Seq<usize>,
    toplevels: Seq<ToplevelInfo>,
    n: int,
    p: int,
)
    requires
        0 <= p < n <= order.len(),
        window_shown(windows[order[p] as int], toplevels),
    ensures
        shown_windows(windows, order, toplevels, n).contains(windows[order[p] as int].surface),
    decreases n,
{
    let all = shown_windows(windows, order, toplevels, n);
    let rest = shown_windows(windows, order, toplevels, n - 1);
    let surface = windows[order[p] as int].surface;
    if p < n - 1 {
        lemma_shown_window(windows, order, toplevels, n - 1, p);
        let k = choose|k: int| 0 <= k < rest.len() && rest[k] == surface;
        assert(all[k] == rest[k]);
    } else {
        assert(all[rest.len() as int] == surface);
    }
}

/// Layer surfaces are drawn from the background up: background, bottom, top and overlay,
/// and those of one layer in the order in which they were made.
pub proof fn law_layers_are_stacked(rows: Seq<LayerRow>, p: int, q: int)
    requires
        rows.len() <= usize::MAX,
        0 <= p < q < rows.len(),
    ensures
        stacked(rows).len() == rows.len(),
        stacked(rows)[p].ordinal <= stacked(rows)[q].ordinal,
        ordinal_of(Layer::Background) < ordinal_of(Layer::Bottom) < ordinal_of(Layer::Top) < ordinal_of(Layer::Overlay),
{
    crate::order::lemma_order_exists(ordinals(rows));
    let order = ordered(ordinals(rows));
    assert(crate::order::precedes(ordinals(rows), order[p] as int, order[q] as int));
}

/// The rows of the layer surfaces are those with pixels and an area, each with its own place
/// and layer.
pub proof fn law_layer_rows(layers: Seq<LayerInfo>, n: int)
    requires
        0 <= n <= layers.len(),
    ensures
        rows_upto(layers, n) == layers.take(n).filter(
            |l: LayerInfo| l.pixels.width != 0 && l.pixels.height != 0 && l.area.w > 0 && l.area.h > 0,
        ).map_values(|l: LayerInfo| LayerRow { id: l.surface, area: l.area, ordinal: ordinal_of(l.config.layer) }),
    decreases n,
{
    let shows = |l: LayerInfo| l.pixels.width != 0 && l.pixels.height != 0 && l.area.w > 0 && l.area.h > 0;
    let make = |l: LayerInfo| LayerRow { id: l.surface, area: l.area, ordinal: ordinal_of(l.config.layer) };
    reveal(Seq::filter);
    if n > 0 {
        law_layer_rows(layers, n - 1);
        assert(layers.take(n).drop_last() =~= layers.take(n - 1));
        assert(layers.take(n).last() == layers[n - 1]);
    }
    assert(rows_upto(layers, n) =~= layers.take(n).filter(shows).map_values(make));
}

/// A layer surface is uploaded exactly when it is shown and its pixels are new, or no image
/// of it is kept.
pub proof fn law_layer_upload(layers: Seq<LayerInfo>, cached: Set<SurfaceId>, l: LayerInfo)
    ensures
        ({
            let n = layers.len() as int;
            let before = uploads_upto(layers, cached, n);
            let after = uploads_upto(layers.push(l), cached, n + 1);
            let shown = l.pixels.width != 0 && l.pixels.height != 0 && l.area.w > 0 && l.area.h > 0;
            let kept = cached_upto(layers, cached, n).contains(l.surface);
            &&& shown && (l.pixels.dirty || !kept) ==> after == before.push(l.surface)
            &&& !(shown && (l.pixels.dirty || !kept)) ==> after == before
            &&& shown ==> cached_upto(layers.push(l), cached, n + 1).contains(l.surface)
            &&& !shown ==> !cached_upto(layers.push(l), cached, n + 1).contains(l.surface)
        }),
{
    let n = layers.len() as int;
    lemma_uploads_prefix(layers, l, cached, n);
    assert(layers.push(l)[n] == l);
}

proof fn lemma_uploads_prefix(layers: Seq<LayerInfo>, l: LayerInfo, cached: Set<SurfaceId>, n: int)
    requires
        0 <= n <= layers.len(),
    ensures
        uploads_upto(layers.push(l), cached, n) == uploads_upto(layers, cached, n),
        cached_upto(layers.push(l), cached, n) == cached_upto(layers, cached, n),
    decreases n,
{
    if n > 0 {
        lemma_uploads_prefix(layers, l, cached, n - 1);
        assert(layers.push(l)[n - 1] == layers[n - 1]);
    }
}

/// The backdrop shows the windows that are not minimized and have pixels, at the place where
/// each is drawn.
pub proof fn law_backdrop_shows_window(w: WindowState, toplevels: Seq<ToplevelInfo>)
    requires
        toplevels.len() <= usize::MAX,
    ensures
        match backdrop_of(w, toplevels) {
            Some(b) => b.area == w.shown && b.toplevel < toplevels.len() && toplevels[b.toplevel as int].surface
                == w.surface && toplevels[b.toplevel as int].pixels.width != 0 && toplevels[b.toplevel as int].pixels.height
                != 0 && !(w.minimized && w.settled),
            None => w.minimized && w.settled || (forall|t: int|
                0 <= t < toplevels.len() ==> (#[trigger] toplevels[t]).surface != w.surface) || (exists|t: int|
                0 <= t < toplevels.len() && (#[trigger] toplevels[t]).surface == w.surface && (
                toplevels[t].pixels.width == 0 || toplevels[t].pixels.height == 0)),
        },
{
    crate::surface::lemma_index_from(toplevels, w.surface, 0);
}

/// The windows behind the shell are those that can be shown, in their order.
pub proof fn law_backdrops_in_order(windows: Seq<WindowState>, order: Seq<usize>, toplevels: Seq<ToplevelInfo>, n: int)
    requires
        0 <= n <= order.len(),
    ensures
        backdrops(windows, order, toplevels, n) == order.take(n).map_values(
            |at: usize| backdrop_of(windows[at as int], toplevels),
        ).filter(|b: Option<BackdropWindow>| b is Some).map_values(|b: Option<BackdropWindow>| b->0),
    decreases n,
{
    reveal(Seq::filter);
    let of = |at: usize| backdrop_of(windows[at as int], toplevels);
    let there = |b: Option<BackdropWindow>| b is Some;
    let got = |b: Option<BackdropWindow>| b->0;
    let all = order.take(n).map_values(of);
    if n > 0 {
        law_backdrops_in_order(windows, order, toplevels, n - 1);
        let before = order.take(n - 1).map_values(of);
        assert(all.drop_last() =~= before);
        let rest = before.filter(there);
        let b = backdrop_of(windows[order[n - 1] as int], toplevels);
        assert(all.last() == b);
        if b is Some {
            assert(rest.push(b).map_values(got) =~= rest.map_values(got).push(b->0));
        }
    } else {
        assert(backdrops(windows, order, toplevels, n) =~= all.filter(there).map_values(got));
    }
}

/// The picture under the pointer while something is dragged is the client's, byte for
/// byte and as large, and lies as far from the pointer as the client says. There is
/// one exactly while something is dragged and the client has drawn it.
pub proof fn law_drag_icon_is_shown(s: SpikeView, r: Option<IconSnapshot>)
    requires
        is_icon(s, r),
    ensures
        r is Some <==> s.dnd_icon is Some && s.dnd_icon_pixels.width > 0 && s.dnd_icon_pixels.height > 0,
        r matches Some(i) ==> {
            &&& i.pixels@ == s.dnd_icon_pixels.pixels
            &&& (i.width, i.height) == (s.dnd_icon_pixels.width, s.dnd_icon_pixels.height)
            &&& (i.hotspot_x, i.hotspot_y) == (s.dnd_icon->0.offset_x, s.dnd_icon->0.offset_y)
        },
{
}

/// Pictures are thrown away only when there are more than surfaces shown, and then
/// those of the surfaces that are not.
pub proof fn law_pictures_in_use_are_kept(cached: Set<SurfaceId>, shown: Set<SurfaceId>, id: SurfaceId)
    ensures
        cached.contains(id) && shown.contains(id) ==> kept_images(cached, shown).contains(id),
        kept_images(cached, shown).contains(id) ==> cached.contains(id),
        cached.len() > shown.len() && !shown.contains(id) ==> !kept_images(cached, shown).contains(id),
        cached.len() <= shown.len() ==> kept_images(cached, shown) == cached,
{
}

/// A layer surface that was taken over needs no upload until it changes again; nothing
/// else of it changes.
pub proof fn law_taken_layer_is_clean(before: LayerInfo, after: LayerInfo)
    requires
        layer_taken(before, after),
    ensures
        !after.pixels@.dirty,
        after.pixels@.pixels == before.pixels@.pixels,
        after.surface == before.surface,
        after.area == before.area,
        after.config == before.config,
{
}

/// Only the layers whose picture is at hand are published, in their order.
pub proof fn law_published_layers_have_pictures(rows: Seq<LayerRow>, cached: Set<SurfaceId>, n: int)
    requires
        0 <= n <= rows.len(),
    ensures
        with_image(rows, cached, n) == rows.take(n).filter(|r: LayerRow| cached.contains(r.id)),
    decreases n,
{
    reveal(Seq::filter);
    if n > 0 {
        law_published_layers_have_pictures(rows, cached, n - 1);
        assert(rows.take(n).drop_last() =~= rows.take(n - 1));
        assert(rows.take(n).last() == rows[n - 1]);
    }
}

/// The surfaces shown are those of the layers that have a picture and a place.
pub proof fn law_shown_layers(layers: Seq<LayerInfo>, n: int, id: SurfaceId)
    requires
        0 <= n <= layers.len(),
    ensures
        shown_upto(layers, n).contains(id) <==> exists|i: int|
            0 <= i < n && (#[trigger] layers[i]).surface == id && layers[i].pixels.width != 0 && layers[i].pixels.height
                != 0 && layers[i].area.w > 0 && layers[i].area.h > 0,
    decreases n,
{
    if n > 0 {
        law_shown_layers(layers, n - 1, id);
        if layer_shown(layers[n - 1]) && layers[n - 1].surface == id {
            assert(shown_upto(layers, n).contains(id));
        }
    }
}

} // verus!
