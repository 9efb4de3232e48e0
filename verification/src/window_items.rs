//! What is drawn for each window: the visible part of its buffer, its title, and
//! whether its image has to be rebuilt.

use vstd::prelude::*;

use crate::bbox::{detect_visible_bbox, is_bbox};
use crate::layer_shell::Area;
use crate::order::{is_order, ordered, precedes};
use crate::state::ToplevelInfo;
use crate::surface::{index_from, index_of, position, SurfaceId};
use crate::theme::text_view;
use crate::windows::{back_keys, unique_ids, windows_sorted, WindowState};

verus! {

/// What a client has set on the surface of a toplevel.
#[derive(Debug)]
pub struct ToplevelProps {
    /// The window geometry; without an area when none was set.
    pub geometry: Area,
    pub title: Option<String>,
    pub app_id: String,
    /// The client has yet to draw the size that ended a resize.
    pub resize_pending: bool,
}

/// What is known of a toplevel's buffer and geometry.
#[derive(Clone, Copy, Debug, PartialEq, Eq, Structural)]
pub struct WindowMeta {
    pub surface: SurfaceId,
    /// The visible part of the buffer.
    pub geom: Area,
    pub buf_w: i32,
    pub buf_h: i32,
    pub csd: bool,
    pub resizing: bool,
}

/// The visible part of a buffer: the geometry that the client set, or the part that
/// holds content, or all of it.
pub open spec fn visible_part(set: Area, content: Option<(i32, i32, i32, i32)>, buf_w: i32, buf_h: i32) -> Area {
    if set.w > 0 && set.h > 0 {
        set
    } else {
        match content {
            Some((x, y, w, h)) => Area { x, y, w, h },
            None => Area { x: 0, y: 0, w: buf_w, h: buf_h },
        }
    }
}

/// Whether `m` describes a toplevel.
pub open spec fn is_meta(t: &ToplevelInfo, p: &ToplevelProps, dragged: bool, m: WindowMeta) -> bool {
    let bw = t.pixels.width as i32;
    let bh = t.pixels.height as i32;
    &&& m.surface == t.surface
    &&& m.buf_w == bw
    &&& m.buf_h == bh
    &&& m.csd == t.csd
    &&& m.resizing == (dragged || p.resize_pending)
    &&& exists|content: Option<(i32, i32, i32, i32)>|
        is_bbox(t.pixels.pixels@, t.pixels.width, t.pixels.height, content) && m.geom == #[trigger] visible_part(
            p.geometry,
            content,
            bw,
            bh,
        )
}

fn meta_of(t: &ToplevelInfo, p: &ToplevelProps, dragged: bool) -> (m: WindowMeta)
    ensures
        is_meta(t, p, dragged, m),
{
    let buf_w: i32 = t.pixels.width as i32;
    let buf_h: i32 = t.pixels.height as i32;
    let content = detect_visible_bbox(t.pixels.pixels.as_slice(), t.pixels.width, t.pixels.height);
    let geom = if p.geometry.w > 0 && p.geometry.h > 0 {
        p.geometry
    } else {
        match content {
            Some((x, y, w, h)) => Area { x, y, w, h },
            None => Area { x: 0, y: 0, w: buf_w, h: buf_h },
        }
    };
    assert(geom == visible_part(p.geometry, content, buf_w, buf_h));
    WindowMeta { surface: t.surface, geom, buf_w, buf_h, csd: t.csd, resizing: dragged || p.resize_pending }
}

/// Describes every toplevel but the X11 windows that place themselves. `dragged` is the
/// toplevel being resized with the pointer.
pub fn window_metas(toplevels: &Vec<ToplevelInfo>, props: &Vec<ToplevelProps>, dragged: Option<usize>) -> (r: Vec<
    Option<WindowMeta>,
>)
    requires
        props@.len() == toplevels@.len(),
    ensures
        r@.len() == toplevels@.len(),
        forall|i: int|
            0 <= i < toplevels@.len() ==> match #[trigger] r@[i] {
                Some(m) => !toplevels@[i].backing.is_override_redirect() && is_meta(
                    &toplevels@[i],
                    &props@[i],
                    dragged == Some(i as usize),
                    m,
                ),
                None => toplevels@[i].backing.is_override_redirect(),
            },
{
    let mut out: Vec<Option<WindowMeta>> = Vec::new();
    let mut i: usize = 0;
    while i < toplevels.len()
        invariant
            0 <= i <= toplevels@.len(),
            props@.len() == toplevels@.len(),
            out@.len() == i,
            forall|k: int|
                0 <= k < i ==> match #[trigger] out@[k] {
                    Some(m) => !toplevels@[k].backing.is_override_redirect() && is_meta(
                        &toplevels@[k],
                        &props@[k],
                        dragged == Some(k as usize),
                        m,
                    ),
                    None => toplevels@[k].backing.is_override_redirect(),
                },
        decreases toplevels@.len() - i,
    {
        if toplevels[i].backing.override_redirect() {
            out.push(None);
        } else {
            let is_dragged = match dragged {
                Some(d) => d == i,
                None => false,
            };
            let m = meta_of(&toplevels[i], &props[i], is_dragged);
            out.push(Some(m));
        }
        i += 1;
    }
    out
}

/// A window after it was told of its toplevel: decorations, and the visible part if it
/// has an area.
pub open spec fn described(w: WindowState, m: WindowMeta) -> WindowState {
    if m.geom.w > 0 && m.geom.h > 0 {
        WindowState { csd: m.csd, geom: m.geom, ..w }
    } else {
        WindowState { csd: m.csd, ..w }
    }
}

/// The windows after the first `n` descriptions.
pub open spec fn all_described(windows: Seq<WindowState>, metas: Seq<Option<WindowMeta>>, n: int) -> Seq<WindowState>
    decreases n,
{
    if n <= 0 {
        windows
    } else {
        let before = all_described(windows, metas, n - 1);
        match metas[n - 1] {
            Some(m) => match index_of(before, m.surface) {
                Some(i) => before.update(i, described(before[i], m)),
                None => before,
            },
            None => before,
        }
    }
}

/// A size for the window manager.
#[derive(Clone, Copy, Debug, PartialEq, Eq, Structural)]
pub struct SizeUpdate {
    pub surface: SurfaceId,
    pub w: i32,
    pub h: i32,
}

/// The sizes that the first `n` toplevels have reached: that of the visible part, or of
/// the buffer. A window that is being resized keeps the size of the drag.
pub open spec fn size_updates(metas: Seq<Option<WindowMeta>>, n: int) -> Seq<SizeUpdate>
    decreases n,
{
    if n <= 0 {
        Seq::empty()
    } else {
        let rest = size_updates(metas, n - 1);
        match metas[n - 1] {
            Some(m) => if !m.resizing && m.buf_w > 0 && m.buf_h > 0 {
                rest.push(
                    if m.geom.w > 0 && m.geom.h > 0 {
                        SizeUpdate { surface: m.surface, w: m.geom.w, h: m.geom.h }
                    } else {
                        SizeUpdate { surface: m.surface, w: m.buf_w, h: m.buf_h }
                    },
                )
            } else {
                rest
            },
            None => rest,
        }
    }
}

/// Tells every window of its toplevel. Returns the sizes that the window manager has to
/// follow.
pub fn apply_metas(windows: &mut Vec<WindowState>, metas: &Vec<Option<WindowMeta>>) -> (r: Vec<SizeUpdate>)
    ensures
        final(windows)@ == all_described(old(windows)@, metas@, metas@.len() as int),
        r@ == size_updates(metas@, metas@.len() as int),
{
    let mut out: Vec<SizeUpdate> = Vec::new();
    let mut k: usize = 0;
    while k < metas.len()
        invariant
            0 <= k <= metas@.len(),
            windows@ == all_described(old(windows)@, metas@, k as int),
            out@ == size_updates(metas@, k as int),
        decreases metas@.len() - k,
    {
        let ghost before = windows@;
        if let Some(m) = metas[k] {
            let sized = m.geom.w > 0 && m.geom.h > 0;
            if let Some(i) = position(windows, m.surface) {
                windows[i].csd = m.csd;
                if sized {
                    windows[i].geom = m.geom;
                }
                assert(windows@ =~= before.update(i as int, described(before[i as int], m)));
            }
            if !m.resizing && m.buf_w > 0 && m.buf_h > 0 {
                if sized {
                    out.push(SizeUpdate { surface: m.surface, w: m.geom.w, h: m.geom.h });
                } else {
                    out.push(SizeUpdate { surface: m.surface, w: m.buf_w, h: m.buf_h });
                }
            }
        }
        k += 1;
    }
    out
}

/// The application id of a window after the first `n` toplevels told theirs.
pub open spec fn app_id_after(
    windows: Seq<WindowState>,
    toplevels: Seq<ToplevelInfo>,
    props: Seq<ToplevelProps>,
    i: int,
    n: int,
) -> Seq<char>
    decreases n,
{
    if n <= 0 {
        windows[i].app_id@
    } else {
        let t = toplevels[n - 1];
        if !t.backing.is_override_redirect() && index_of(windows, t.surface) == Some(i) && props[n - 1].app_id@.len()
            > 0 {
            props[n - 1].app_id@
        } else {
            app_id_after(windows, toplevels, props, i, n - 1)
        }
    }
}

/// Takes over the application ids that clients have set.
pub fn update_app_ids(windows: &mut Vec<WindowState>, toplevels: &Vec<ToplevelInfo>, props: &Vec<ToplevelProps>)
    requires
        props@.len() == toplevels@.len(),
    ensures
        final(windows)@.len() == old(windows)@.len(),
        forall|i: int|
            0 <= i < old(windows)@.len() ==> (#[trigger] final(windows)@[i]).app_id@ == app_id_after(
                old(windows)@,
                toplevels@,
                props@,
                i,
                toplevels@.len() as int,
            ) && final(windows)@[i] == (WindowState { app_id: final(windows)@[i].app_id, ..old(windows)@[i] }),
{
    let ghost all = windows@;
    let mut k: usize = 0;
    while k < toplevels.len()
        invariant
            0 <= k <= toplevels@.len(),
            props@.len() == toplevels@.len(),
            windows@.len() == all.len(),
            forall|i: int|
                0 <= i < all.len() ==> (#[trigger] windows@[i]).app_id@ == app_id_after(
                    all,
                    toplevels@,
                    props@,
                    i,
                    k as int,
                ) && windows@[i] == (WindowState { app_id: windows@[i].app_id, ..all[i] }),
        decreases toplevels@.len() - k,
    {
        let surface: SurfaceId = toplevels[k].surface;
        let ghost before = windows@;
        proof {
            lemma_same_surfaces(all, before, surface, 0);
        }
        if !toplevels[k].backing.override_redirect() && props[k].app_id.as_str().unicode_len() > 0 {
            if let Some(i) = position(windows, surface) {
                windows[i].app_id = props[k].app_id.clone();
            }
        }
        k += 1;
    }
}

proof fn lemma_same_surfaces(a: Seq<WindowState>, b: Seq<WindowState>, surface: SurfaceId, from: int)
    requires
        a.len() == b.len(),
        0 <= from,
        forall|i: int| 0 <= i < a.len() ==> (#[trigger] b[i]).surface == a[i].surface,
    ensures
        index_from(a, surface, from) == index_from(b, surface, from),
    decreases a.len() - from,
{
    if from < a.len() {
        assert(b[from].surface == a[from].surface);
        lemma_same_surfaces(a, b, surface, from + 1);
    }
}

/// Whether a window waits for its first buffer and that has come.
pub open spec fn opens_now(w: &WindowState, toplevels: Seq<ToplevelInfo>) -> bool {
    w.awaiting_first_render && (index_of(toplevels, w.surface) matches Some(t) && toplevels[t].pixels.width > 0)
}

/// The ids of the windows, among the first `n`, whose first buffer has come.
pub open spec fn opening_ids(windows: Seq<WindowState>, toplevels: Seq<ToplevelInfo>, n: int) -> Seq<i32>
    decreases n,
{
    if n <= 0 {
        Seq::empty()
    } else {
        let rest = opening_ids(windows, toplevels, n - 1);
        if opens_now(&windows[n - 1], toplevels) {
            rest.push(windows[n - 1].id)
        } else {
            rest
        }
    }
}

/// The windows whose first buffer has come no longer wait. Returns their ids: their
/// opening animations start.
pub fn kick_windows(windows: &mut Vec<WindowState>, toplevels: &Vec<ToplevelInfo>) -> (ids: Vec<i32>)
    ensures
        ids@ == opening_ids(old(windows)@, toplevels@, old(windows)@.len() as int),
        final(windows)@ == old(windows)@.map_values(
            |w: WindowState|
                if opens_now(&w, toplevels@) {
                    WindowState { awaiting_first_render: false, ..w }
                } else {
                    w
                },
        ),
{
    let ghost all = windows@;
    let ghost f = |w: WindowState|
        if opens_now(&w, toplevels@) {
            WindowState { awaiting_first_render: false, ..w }
        } else {
            w
        };
    let mut ids: Vec<i32> = Vec::new();
    let mut i: usize = 0;
    while i < windows.len()
        invariant
            0 <= i <= windows@.len(),
            windows@.len() == all.len(),
            f == (|w: WindowState|
                if opens_now(&w, toplevels@) {
                    WindowState { awaiting_first_render: false, ..w }
                } else {
                    w
                }),
            ids@ == opening_ids(all, toplevels@, i as int),
            forall|k: int| 0 <= k < i ==> #[trigger] windows@[k] == f(all[k]),
            forall|k: int| i <= k < all.len() ==> #[trigger] windows@[k] == all[k],
        decreases windows@.len() - i,
    {
        let opens = windows[i].awaiting_first_render && match position(toplevels, windows[i].surface) {
            Some(t) => toplevels[t].pixels.width > 0,
            None => false,
        };
        if opens {
            ids.push(windows[i].id);
            windows[i].awaiting_first_render = false;
        }
        i += 1;
    }
    assert(windows@ =~= all.map_values(f));
    ids
}

/// The title of a window: what the client set, or what the window manager remembers, or
/// a stand-in.
pub open spec fn title_of(set: Option<Seq<char>>, remembered: Seq<char>) -> Seq<char> {
    match set {
        Some(t) => t,
        None => if remembered.len() == 0 {
            "Window"@
        } else {
            remembered
        },
    }
}

/// The title of a window.
pub fn window_title(set: &Option<String>, remembered: &String) -> (r: String)
    ensures
        r@ == title_of(text_view(*set), remembered@),
{
    match set {
        Some(t) => t.clone(),
        None => {
            if remembered.as_str().unicode_len() == 0 {
                "Window".to_owned()
            } else {
                remembered.clone()
            }
        },
    }
}

/// What is drawn for a window.
#[derive(Debug)]
pub struct WindowItem {
    pub id: i32,
    pub title: String,
    pub shown: Area,
    pub focused: bool,
    pub alt_tab_selected: bool,
    pub geom: Area,
    pub csd: bool,
    pub maximized: bool,
    pub resizing: bool,
    /// The version of the buffer that its image shows.
    pub version: u64,
}

#[verifier::ext_equal]
pub struct ItemView {
    pub id: i32,
    pub title: Seq<char>,
    pub shown: Area,
    pub focused: bool,
    pub alt_tab_selected: bool,
    pub geom: Area,
    pub csd: bool,
    pub maximized: bool,
    pub resizing: bool,
    pub version: u64,
}

impl View for WindowItem {
    type V = ItemView;

    open spec fn view(&self) -> ItemView {
        ItemView {
            id: self.id,
            title: self.title@,
            shown: self.shown,
            focused: self.focused,
            alt_tab_selected: self.alt_tab_selected,
            geom: self.geom,
            csd: self.csd,
            maximized: self.maximized,
            resizing: self.resizing,
            version: self.version,
        }
    }
}

/// The visible part for a toplevel, or its whole buffer where it has no description.
pub open spec fn geom_for(t: &ToplevelInfo, m: Option<WindowMeta>) -> Area {
    match m {
        Some(m) => m.geom,
        None => Area { x: 0, y: 0, w: t.pixels.width as i32, h: t.pixels.height as i32 },
    }
}

/// The item of a window on toplevel `t`.
pub open spec fn item_of(
    w: &WindowState,
    t: &ToplevelInfo,
    p: &ToplevelProps,
    m: Option<WindowMeta>,
    dragged: bool,
) -> ItemView {
    ItemView {
        id: w.id,
        title: title_of(text_view(p.title), w.title@),
        shown: w.shown,
        focused: w.focused,
        alt_tab_selected: w.alt_tab_selected,
        geom: geom_for(t, m),
        csd: t.csd,
        maximized: w.maximized,
        resizing: w.sizing || dragged || p.resize_pending,
        version: t.pixels.version,
    }
}

/// Whether a window is drawn: it is not hidden in the dock and has a buffer.
pub open spec fn drawn(w: &WindowState, toplevels: Seq<ToplevelInfo>) -> bool {
    !w.hidden() && (index_of(toplevels, w.surface) matches Some(t) && toplevels[t].pixels.width != 0)
}

/// The items of the first `n` windows of an order.
pub open spec fn items_along(
    windows: Seq<WindowState>,
    toplevels: Seq<ToplevelInfo>,
    props: Seq<ToplevelProps>,
    metas: Seq<Option<WindowMeta>>,
    dragged: Option<usize>,
    order: Seq<usize>,
    n: int,
) -> Seq<ItemView>
    decreases n,
{
    if n <= 0 {
        Seq::empty()
    } else {
        let rest = items_along(windows, toplevels, props, metas, dragged, order, n - 1);
        let w = windows[order[n - 1] as int];
        if drawn(&w, toplevels) {
            let t = index_of(toplevels, w.surface)->0;
            rest.push(item_of(&w, &toplevels[t], &props[t], metas[t], dragged == Some(t as usize)))
        } else {
            rest
        }
    }
}

pub open spec fn item_views(items: Seq<WindowItem>) -> Seq<ItemView> {
    items.map_values(|i: WindowItem| i@)
}

pub open spec fn item_ids(items: Seq<WindowItem>) -> Seq<i32> {
    items.map_values(|i: WindowItem| i.id)
}

/// Whether an item of the list belongs to one of the first `n` windows of an order.
pub open spec fn listed(windows: Seq<WindowState>, order: Seq<usize>, n: int, id: i32) -> bool {
    exists|p: int| 0 <= p < n && windows[(#[trigger] order[p]) as int].id == id
}

/// Where the windows have ids of their own, so do the items of what is drawn.
pub proof fn law_items_are_distinct(
    windows: Seq<WindowState>,
    toplevels: Seq<ToplevelInfo>,
    props: Seq<ToplevelProps>,
    metas: Seq<Option<WindowMeta>>,
    dragged: Option<usize>,
    order: Seq<usize>,
    n: int,
)
    requires
        unique_ids(windows),
        is_order(back_keys(windows), order),
        0 <= n <= windows.len(),
    ensures
        forall|k: int|
            0 <= k < items_along(windows, toplevels, props, metas, dragged, order, n).len() ==> listed(
                windows,
                order,
                n,
                (#[trigger] items_along(windows, toplevels, props, metas, dragged, order, n)[k]).id,
            ),
        forall|k: int, l: int|
            0 <= k < l < items_along(windows, toplevels, props, metas, dragged, order, n).len() ==> (
            #[trigger] items_along(windows, toplevels, props, metas, dragged, order, n)[k]).id != (
            #[trigger] items_along(windows, toplevels, props, metas, dragged, order, n)[l]).id,
    decreases n,
{
    if n > 0 {
        let before = items_along(windows, toplevels, props, metas, dragged, order, n - 1);
        let after = items_along(windows, toplevels, props, metas, dragged, order, n);
        let at = order[n - 1] as int;
        law_items_are_distinct(windows, toplevels, props, metas, dragged, order, n - 1);
        assert forall|k: int| 0 <= k < after.len() implies listed(windows, order, n, (#[trigger] after[k]).id) by {
            if k < before.len() {
                assert(after[k] == before[k]);
                let p = choose|p: int| 0 <= p < n - 1 && windows[(#[trigger] order[p]) as int].id == before[k].id;
                assert(windows[order[p] as int].id == after[k].id);
            } else {
                assert(windows[order[n - 1] as int].id == after[k].id);
            }
        }
        assert forall|k: int, l: int| 0 <= k < l < after.len() implies (#[trigger] after[k]).id != (
        #[trigger] after[l]).id by {
            assert(after[k] == before[k]);
            if l < before.len() {
                assert(after[l] == before[l]);
            } else {
                let p = choose|p: int| 0 <= p < n - 1 && windows[(#[trigger] order[p]) as int].id == before[k].id;
                let q = order[p] as int;
                assert(precedes(back_keys(windows), q, at));
                assert(windows[q].id != windows[at].id);
            }
        }
    }
}

fn make_item(w: &WindowState, t: &ToplevelInfo, p: &ToplevelProps, m: Option<WindowMeta>, dragged: bool) -> (r:
    WindowItem)
    ensures
        r@ == item_of(w, t, p, m, dragged),
{
    let geom = match m {
        Some(m) => m.geom,
        None => Area { x: 0, y: 0, w: t.pixels.width as i32, h: t.pixels.height as i32 },
    };
    WindowItem {
        id: w.id,
        title: window_title(&p.title, &w.title),
        shown: w.shown,
        focused: w.focused,
        alt_tab_selected: w.alt_tab_selected,
        geom,
        csd: t.csd,
        maximized: w.maximized,
        resizing: w.sizing || dragged || p.resize_pending,
        version: t.pixels.version,
    }
}

/// What is drawn for the windows, from back to front. Windows that are hidden in the
/// dock or have no buffer are left out.
pub fn window_items(
    windows: &Vec<WindowState>,
    toplevels: &Vec<ToplevelInfo>,
    props: &Vec<ToplevelProps>,
    metas: &Vec<Option<WindowMeta>>,
    dragged: Option<usize>,
) -> (items: Vec<WindowItem>)
    requires
        props@.len() == toplevels@.len(),
        metas@.len() == toplevels@.len(),
    ensures
        item_views(items@) == items_along(
            windows@,
            toplevels@,
            props@,
            metas@,
            dragged,
            ordered(back_keys(windows@)),
            windows@.len() as int,
        ),
        unique_ids(windows@) ==> item_ids(items@).no_duplicates() && all_live(items@, windows@),
{
    let order = windows_sorted(windows);
    let mut out: Vec<WindowItem> = Vec::new();
    let mut i: usize = 0;
    assert(item_views(out@) =~= Seq::<ItemView>::empty());
    while i < order.len()
        invariant
            0 <= i <= order@.len(),
            order@.len() == windows@.len(),
            is_order(back_keys(windows@), order@),
            order@ == ordered(back_keys(windows@)),
            props@.len() == toplevels@.len(),
            metas@.len() == toplevels@.len(),
            item_views(out@) == items_along(windows@, toplevels@, props@, metas@, dragged, order@, i as int),
        decreases order@.len() - i,
    {
        let w = &windows[order[i]];
        let ghost before = out@;
        if !w.is_hidden() {
            if let Some(t) = position(toplevels, w.surface) {
                if toplevels[t].pixels.width != 0 {
                    let is_dragged = match dragged {
                        Some(d) => d == t,
                        None => false,
                    };
                    let item = make_item(w, &toplevels[t], &props[t], metas[t], is_dragged);
                    out.push(item);
                    assert(item_views(out@) =~= item_views(before).push(item@));
                }
            }
        }
        i += 1;
    }
    proof {
        if unique_ids(windows@) {
            law_items_are_distinct(windows@, toplevels@, props@, metas@, dragged, order@, windows@.len() as int);
            let views = items_along(windows@, toplevels@, props@, metas@, dragged, order@, windows@.len() as int);
            assert forall|k: int, l: int|
                0 <= k < item_ids(out@).len() && 0 <= l < item_ids(out@).len() && k != l implies item_ids(out@)[k]
                != item_ids(out@)[l] by {
                assert(item_views(out@)[k].id == out@[k].id);
                assert(item_views(out@)[l].id == out@[l].id);
                assert(views[k].id != views[l].id);
            }
            assert forall|k: int| 0 <= k < out@.len() implies live_id(windows@, (#[trigger] out@[k]).id) by {
                assert(item_views(out@)[k].id == out@[k].id);
                assert(listed(windows@, order@, windows@.len() as int, views[k].id));
                let p = choose|p: int|
                    0 <= p < windows@.len() && windows@[(#[trigger] order@[p]) as int].id == views[k].id;
                assert(windows@[order@[p] as int].id == out@[k].id);
            }
        }
    }
    out
}

/// The name shown in the panel: the title of the focused window, or a stand-in.
pub open spec fn panel_title(items: Seq<WindowItem>, i: int) -> Seq<char>
    decreases items.len() - i,
{
    if i < 0 || i >= items.len() {
        "Desktop"@
    } else if items[i].focused {
        items[i].title@
    } else {
        panel_title(items, i + 1)
    }
}

/// The name shown in the panel.
pub fn focused_title(items: &Vec<WindowItem>) -> (r: String)
    ensures
        r@ == panel_title(items@, 0),
{
    let mut i: usize = 0;
    while i < items.len()
        invariant
            0 <= i <= items@.len(),
            panel_title(items@, 0) == panel_title(items@, i as int),
        decreases items@.len() - i,
    {
        if items[i].focused {
            return items[i].title.clone();
        }
        i += 1;
    }
    "Desktop".to_owned()
}

/// Which version of a buffer the image of each window shows.
#[derive(Debug)]
pub struct ImageCache {
    pub ids: Vec<i32>,
    pub versions: Vec<u64>,
}

impl ImageCache {
    /// One version per window.
    pub open spec fn wf(&self) -> bool {
        self.ids@.len() == self.versions@.len() && self.ids@.no_duplicates()
    }

    /// The cached version of a window's image.
    pub open spec fn version_of(&self, id: i32) -> Option<u64> {
        if self.ids@.contains(id) {
            Some(self.versions@[self.ids@.index_of(id)])
        } else {
            None
        }
    }

    pub fn empty() -> (c: ImageCache)
        ensures
            c.wf(),
            c.ids@.len() == 0,
            forall|id: i32| #[trigger] c.version_of(id) is None,
    {
        ImageCache { ids: Vec::new(), versions: Vec::new() }
    }

    fn find(&self, id: i32) -> (r: Option<usize>)
        ensures
            match r {
                Some(i) => i < self.ids@.len() && self.ids@[i as int] == id,
                None => !self.ids@.contains(id),
            },
    {
        let mut i: usize = 0;
        while i < self.ids.len()
            invariant
                0 <= i <= self.ids@.len(),
                forall|k: int| 0 <= k < i ==> self.ids@[k] != id,
            decreases self.ids@.len() - i,
        {
            if self.ids[i] == id {
                return Some(i);
            }
            i += 1;
        }
        None
    }

    /// Whether the image of a window has to be rebuilt for a version of its buffer. The
    /// version is remembered.
    pub fn refresh(&mut self, id: i32, version: u64) -> (rebuild: bool)
        requires
            old(self).wf(),
        ensures
            final(self).wf(),
            rebuild == (old(self).version_of(id) != Some(version)),
            final(self).version_of(id) == Some(version),
            final(self).ids@.len() == old(self).ids@.len() + if old(self).version_of(id) is None {
                1int
            } else {
                0
            },
            forall|other: i32| other != id ==> #[trigger] final(self).version_of(other) == old(self).version_of(other),
    {
        match self.find(id) {
            Some(i) => {
                let rebuild = self.versions[i] != version;
                self.versions.set(i, version);
                rebuild
            },
            None => {
                let ghost before = *self;
                self.ids.push(id);
                self.versions.push(version);
                proof {
                    let n = before.ids@.len() as int;
                    assert(self.ids@[n] == id);
                    assert(self.ids@.contains(id));
                    assert(self.ids@.index_of(id) == n);
                    assert forall|other: i32| other != id implies #[trigger] self.version_of(other)
                        == before.version_of(other) by {
                        if before.ids@.contains(other) {
                            let k = before.ids@.index_of(other);
                            assert(self.ids@[k] == other);
                            assert(self.ids@.index_of(other) == k);
                        } else if self.ids@.contains(other) {
                            let k = self.ids@.index_of(other);
                            assert(before.ids@[k] == other);
                        }
                    }
                }
                true
            },
        }
    }

    /// Forgets the images of windows that are gone, when more are kept than windows exist.
    pub fn evict(&mut self, windows: &Vec<WindowState>)
        requires
            old(self).wf(),
        ensures
            final(self).wf(),
            old(self).ids@.len() <= windows@.len() ==> *final(self) == *old(self),
            old(self).ids@.len() > windows@.len() ==> forall|id: i32| #[trigger]
                final(self).version_of(id) == if exists|i: int| 0 <= i < windows@.len() && (#[trigger] windows@[i]).id
                    == id {
                    old(self).version_of(id)
                } else {
                    None
                },
    {
        if self.ids.len() <= windows.len() {
            return;
        }
        let ghost all = *self;
        let mut ids: Vec<i32> = Vec::new();
        let mut versions: Vec<u64> = Vec::new();
        let mut i: usize = 0;
        while i < self.ids.len()
            invariant
                0 <= i <= self.ids@.len(),
                *self == all,
                all.wf(),
                ids@.len() == versions@.len(),
                ids@.no_duplicates(),
                forall|k: int|
                    0 <= k < ids@.len() ==> live_id(windows@, #[trigger] ids@[k]) && exists|j: int|
                        0 <= j < i && #[trigger] all.ids@[j] == ids@[k] && all.versions@[j] == versions@[k],
                forall|j: int|
                    0 <= j < i && live_id(windows@, #[trigger] all.ids@[j]) ==> ids@.contains(all.ids@[j]),
            decreases self.ids@.len() - i,
        {
            let id: i32 = self.ids[i];
            if crate::windows::find_window(windows, id).is_some() {
                proof {
                    crate::windows::lemma_window_from(windows@, id, 0);
                    let w = crate::windows::window_of(windows@, id)->0;
                    assert(windows@[w].id == id);
                    if ids@.contains(id) {
                        let k = ids@.index_of(id);
                        let j = choose|j: int| 0 <= j < i && #[trigger] all.ids@[j] == ids@[k] && all.versions@[j]
                            == versions@[k];
                        assert(all.ids@[j] == all.ids@[i as int]);
                    }
                }
                let ghost before = ids@;
                let ghost before_v = versions@;
                ids.push(id);
                versions.push(self.versions[i]);
                proof {
                    assert forall|k: int| 0 <= k < ids@.len() implies live_id(windows@, #[trigger] ids@[k])
                        && exists|j: int|
                        0 <= j < i + 1 && #[trigger] all.ids@[j] == ids@[k] && all.versions@[j] == versions@[k] by {
                        if k < before.len() {
                            assert(ids@[k] == before[k]);
                            let j = choose|j: int| 0 <= j < i && #[trigger] all.ids@[j] == before[k] && all.versions@[j]
                                == before_v[k];
                            assert(all.ids@[j] == ids@[k] && all.versions@[j] == versions@[k]);
                        } else {
                            assert(all.ids@[i as int] == ids@[k] && all.versions@[i as int] == versions@[k]);
                        }
                    }
                    assert forall|j: int| 0 <= j < i + 1 && live_id(windows@, #[trigger] all.ids@[j]) implies ids@.contains(
                        all.ids@[j],
                    ) by {
                        if j < i {
                            let k = before.index_of(all.ids@[j]);
                            assert(ids@[k] == all.ids@[j]);
                        } else {
                            assert(ids@[before.len() as int] == id);
                        }
                    }
                }
            } else {
                proof {
                    crate::windows::lemma_window_from(windows@, id, 0);
                }
            }
            i += 1;
        }
        self.ids = ids;
        self.versions = versions;
        proof {
            assert forall|id: i32| #[trigger] self.version_of(id) == if live_id(windows@, id) {
                all.version_of(id)
            } else {
                None
            } by {
                if self.ids@.contains(id) {
                    let k = self.ids@.index_of(id);
                    let j = choose|j: int| 0 <= j < all.ids@.len() && #[trigger] all.ids@[j] == self.ids@[k]
                        && all.versions@[j] == self.versions@[k];
                    assert(all.ids@.index_of(id) == j);
                } else if live_id(windows@, id) && all.ids@.contains(id) {
                    let j = all.ids@.index_of(id);
                    assert(self.ids@.contains(all.ids@[j]));
                }
            }
        }
    }
}

/// The cached version of a window's image once the first `n` items were drawn.
pub open spec fn version_after(was: &ImageCache, items: Seq<WindowItem>, id: i32, n: int) -> Option<u64>
    decreases n,
{
    if n <= 0 {
        was.version_of(id)
    } else if items[n - 1].id == id {
        Some(items[n - 1].version)
    } else {
        version_after(was, items, id, n - 1)
    }
}

/// How many of the first `n` items had no image before.
pub open spec fn uncached(was: &ImageCache, items: Seq<WindowItem>, n: int) -> nat
    decreases n,
{
    if n <= 0 {
        0
    } else {
        uncached(was, items, n - 1) + if was.version_of(items[n - 1].id) is None {
            1nat
        } else {
            0
        }
    }
}

/// Whether `now` holds the images after a frame drew `items`: those of the items are up to
/// date and the others are as before, but where more images than windows are kept, those
/// of windows that are gone are forgotten.
pub open spec fn images_after(
    was: &ImageCache,
    now: &ImageCache,
    items: Seq<WindowItem>,
    windows: Seq<WindowState>,
) -> bool {
    let n = items.len() as int;
    let kept = was.ids@.len() + uncached(was, items, n);
    forall|id: i32| #[trigger]
        now.version_of(id) == if kept <= windows.len() || live_id(windows, id) {
            version_after(was, items, id, n)
        } else {
            None
        }
}

/// Whether every item belongs to a window.
pub open spec fn all_live(items: Seq<WindowItem>, windows: Seq<WindowState>) -> bool {
    forall|i: int| 0 <= i < items.len() ==> live_id(windows, (#[trigger] items[i]).id)
}

/// Whether a window with an id exists.
pub open spec fn live_id(windows: Seq<WindowState>, id: i32) -> bool {
    exists|i: int| 0 <= i < windows.len() && (#[trigger] windows[i]).id == id
}

/// The visible part of a window is the one that its client set; without one it is what the
/// buffer holds, and all of the buffer where nothing is found in it.
pub proof fn law_client_sets_visible_part(set: Area, content: Option<(i32, i32, i32, i32)>, buf_w: i32, buf_h: i32)
    ensures
        ({
            let part = visible_part(set, content, buf_w, buf_h);
            &&& set.w > 0 && set.h > 0 ==> part == set
            &&& !(set.w > 0 && set.h > 0) && content is Some ==> (part.x, part.y, part.w, part.h) == content->0
            &&& !(set.w > 0 && set.h > 0) && content is None ==> part == (Area { x: 0, y: 0, w: buf_w, h: buf_h })
        }),
{
}

/// A window learns who draws its frame and which part of its buffer is visible, and keeps
/// the part it knew where the new one is empty. Windows of other clients learn nothing.
pub proof fn law_window_learns_of_its_client(windows: Seq<WindowState>, m: WindowMeta)
    ensures
        ({
            let after = all_described(windows, seq![Some(m)], 1);
            &&& after.len() == windows.len()
            &&& forall|k: int|
                0 <= k < windows.len() ==> {
                    let w = #[trigger] after[k];
                    if index_of(windows, m.surface) == Some(k) {
                        &&& w.csd == m.csd
                        &&& m.geom.w > 0 && m.geom.h > 0 ==> w.geom == m.geom
                        &&& !(m.geom.w > 0 && m.geom.h > 0) ==> w.geom == windows[k].geom
                        &&& w == (WindowState { csd: w.csd, geom: w.geom, ..windows[k] })
                    } else {
                        w == windows[k]
                    }
                }
        }),
{
    reveal_with_fuel(all_described, 2);
    crate::surface::lemma_index_of(windows, m.surface);
    assert(seq![Some(m)][0] == Some(m));
}

/// A window follows the size of its visible part, or of its buffer where that is empty;
/// not while it is being resized, nor without a buffer.
pub proof fn law_window_follows_buffer(metas: Seq<Option<WindowMeta>>, m: WindowMeta)
    ensures
        size_updates(Seq::empty(), 0).len() == 0,
        ({
            let n = metas.len() as int;
            let before = size_updates(metas, n);
            let after = size_updates(metas.push(Some(m)), n + 1);
            &&& m.resizing || m.buf_w <= 0 || m.buf_h <= 0 ==> after == before
            &&& !m.resizing && m.buf_w > 0 && m.buf_h > 0 && m.geom.w > 0 && m.geom.h > 0 ==> after == before.push(
                SizeUpdate { surface: m.surface, w: m.geom.w, h: m.geom.h },
            )
            &&& !m.resizing && m.buf_w > 0 && m.buf_h > 0 && !(m.geom.w > 0 && m.geom.h > 0) ==> after == before.push(
                SizeUpdate { surface: m.surface, w: m.buf_w, h: m.buf_h },
            )
            &&& size_updates(metas.push(None), n + 1) == before
        }),
{
    let n = metas.len() as int;
    lemma_sizes_prefix(metas, Some(m), n);
    lemma_sizes_prefix(metas, None, n);
    assert(metas.push(Some(m))[n] == Some(m));
}

proof fn lemma_sizes_prefix(metas: Seq<Option<WindowMeta>>, m: Option<WindowMeta>, n: int)
    requires
        0 <= n <= metas.len(),
    ensures
        size_updates(metas.push(m), n) == size_updates(metas, n),
    decreases n,
{
    if n > 0 {
        lemma_sizes_prefix(metas, m, n - 1);
        assert(metas.push(m)[n - 1] == metas[n - 1]);
    }
}

/// The windows that open are those that wait for their first buffer and now have one.
pub proof fn law_first_buffer_opens(windows: Seq<WindowState>, toplevels: Seq<ToplevelInfo>, n: int)
    requires
        0 <= n <= windows.len(),
    ensures
        opening_ids(windows, toplevels, n) == windows.take(n).filter(
            |w: WindowState|
                w.awaiting_first_render && (index_of(toplevels, w.surface) matches Some(t) && toplevels[t].pixels.width
                    != 0),
        ).map_values(|w: WindowState| w.id),
    decreases n,
{
    let waits = |w: WindowState|
        w.awaiting_first_render && (index_of(toplevels, w.surface) matches Some(t) && toplevels[t].pixels.width != 0);
    reveal(Seq::filter);
    if n > 0 {
        law_first_buffer_opens(windows, toplevels, n - 1);
        assert(windows.take(n).drop_last() =~= windows.take(n - 1));
        assert(windows.take(n).last() == windows[n - 1]);
    }
    assert(opening_ids(windows, toplevels, n) =~= windows.take(n).filter(waits).map_values(|w: WindowState| w.id));
}

/// The windows that are drawn are those with a buffer that are not minimized, from back to
/// front, each with what its client and the window manager say of it.
pub proof fn law_drawn_windows(
    windows: Seq<WindowState>,
    toplevels: Seq<ToplevelInfo>,
    props: Seq<ToplevelProps>,
    metas: Seq<Option<WindowMeta>>,
    dragged: Option<usize>,
    order: Seq<usize>,
    n: int,
)
    requires
        0 <= n <= order.len(),
    ensures
        items_along(windows, toplevels, props, metas, dragged, order, n) == order.take(n).filter(
            |at: usize|
                {
                    let w = windows[at as int];
                    !(w.minimized && w.settled) && (index_of(toplevels, w.surface) matches Some(t)
                        && toplevels[t].pixels.width != 0)
                },
        ).map_values(
            |at: usize|
                {
                    let w = windows[at as int];
                    let t = index_of(toplevels, w.surface)->0;
                    item_of(&w, &toplevels[t], &props[t], metas[t], dragged == Some(t as usize))
                },
        ),
    decreases n,
{
    let shows = |at: usize|
        {
            let w = windows[at as int];
            !(w.minimized && w.settled) && (index_of(toplevels, w.surface) matches Some(t) && toplevels[t].pixels.width
                != 0)
        };
    let make = |at: usize|
        {
            let w = windows[at as int];
            let t = index_of(toplevels, w.surface)->0;
            item_of(&w, &toplevels[t], &props[t], metas[t], dragged == Some(t as usize))
        };
    reveal(Seq::filter);
    if n > 0 {
        law_drawn_windows(windows, toplevels, props, metas, dragged, order, n - 1);
        assert(order.take(n).drop_last() =~= order.take(n - 1));
        assert(order.take(n).last() == order[n - 1]);
    }
    assert(items_along(windows, toplevels, props, metas, dragged, order, n) =~= order.take(n).filter(shows).map_values(
        make,
    ));
}

/// A window is drawn with its own id, place, focus and flags, under the title that its
/// client set, with the latest version of its pixels.
pub proof fn law_item_shows_its_window(
    w: &WindowState,
    t: &ToplevelInfo,
    p: &ToplevelProps,
    m: Option<WindowMeta>,
    dragged: bool,
)
    ensures
        ({
            let item = item_of(w, t, p, m, dragged);
            &&& item.id == w.id && item.shown == w.shown && item.focused == w.focused && item.maximized == w.maximized
            &&& item.alt_tab_selected == w.alt_tab_selected && item.csd == t.csd && item.version == t.pixels.version
            &&& item.resizing <==> w.sizing || dragged || p.resize_pending
            &&& p.title matches Some(title) ==> item.title == title@
            &&& p.title is None && w.title@.len() > 0 ==> item.title == w.title@
            &&& p.title is None && w.title@.len() == 0 ==> item.title == "Window"@
            &&& m matches Some(meta) ==> item.geom == meta.geom
        }),
{
}

/// The panel names the focused window, and the desktop where none has the focus.
pub proof fn law_panel_names_focus(items: Seq<WindowItem>, from: int)
    requires
        0 <= from <= items.len(),
    ensures
        (forall|k: int| from <= k < items.len() ==> !(#[trigger] items[k]).focused) ==> panel_title(items, from)
            == "Desktop"@,
        forall|i: int|
            from <= i < items.len() && (#[trigger] items[i]).focused && (forall|k: int|
                from <= k < items.len() && k != i ==> !(#[trigger] items[k]).focused) ==> panel_title(items, from)
                == items[i].title@,
    decreases items.len() - from,
{
    if from < items.len() {
        law_panel_names_focus(items, from + 1);
    }
}

/// What is known of a window's client is the client's own: its buffer as large as it
/// is, whether it decorates itself, whether it is being resized, and its visible part.
pub proof fn law_meta_is_the_clients(t: &ToplevelInfo, p: &ToplevelProps, dragged: bool, m: WindowMeta)
    requires
        is_meta(t, p, dragged, m),
    ensures
        m.surface == t.surface,
        t.pixels.width <= i32::MAX ==> m.buf_w == t.pixels.width,
        t.pixels.height <= i32::MAX ==> m.buf_h == t.pixels.height,
        m.csd == t.csd,
        m.resizing <==> dragged || p.resize_pending,
        exists|content: Option<(i32, i32, i32, i32)>|
            is_bbox(t.pixels.pixels@, t.pixels.width, t.pixels.height, content) && m.geom == #[trigger] visible_part(
                p.geometry,
                content,
                m.buf_w,
                m.buf_h,
            ),
{
}

proof fn lemma_version_after(was: &ImageCache, items: Seq<WindowItem>, id: i32, n: int)
    requires
        0 <= n <= items.len(),
    ensures
        version_after(was, items, id, n) == was.version_of(id) || exists|k: int|
            0 <= k < n && (#[trigger] items[k]).id == id && version_after(was, items, id, n) == Some(items[k].version),
        forall|k: int|
            0 <= k < n && (#[trigger] items[k]).id == id && (forall|j: int|
                k < j < n ==> (#[trigger] items[j]).id != id) ==> version_after(was, items, id, n) == Some(
                items[k].version,
            ),
    decreases n,
{
    if n > 0 {
        lemma_version_after(was, items, id, n - 1);
        assert forall|k: int|
            0 <= k < n && (#[trigger] items[k]).id == id && (forall|j: int|
                k < j < n ==> (#[trigger] items[j]).id != id) implies version_after(was, items, id, n) == Some(
            items[k].version,
        ) by {
            if k < n - 1 {
                assert(items[n - 1].id != id);
            }
        }
    }
}

/// The picture kept of a drawn window is of the version drawn; a live window that was
/// not drawn keeps the picture it had, and a picture of a version that never was drawn
/// is never kept.
pub proof fn law_pictures_are_of_what_is_drawn(
    was: &ImageCache,
    now: &ImageCache,
    items: Seq<WindowItem>,
    windows: Seq<WindowState>,
    k: int,
    id: i32,
)
    requires
        images_after(was, now, items, windows),
    ensures
        0 <= k < items.len() && live_id(windows, items[k].id) && (forall|j: int|
            k < j < items.len() ==> (#[trigger] items[j]).id != items[k].id) ==> now.version_of(items[k].id) == Some(
            items[k].version,
        ),
        live_id(windows, id) && (forall|j: int| 0 <= j < items.len() ==> (#[trigger] items[j]).id != id)
            ==> now.version_of(id) == was.version_of(id),
        was.ids@.len() + items.len() <= windows.len() && (forall|j: int|
            0 <= j < items.len() ==> (#[trigger] items[j]).id != id) ==> now.version_of(id) == was.version_of(id),
        now.version_of(id) is Some ==> now.version_of(id) == was.version_of(id) || exists|j: int|
            0 <= j < items.len() && (#[trigger] items[j]).id == id && now.version_of(id) == Some(items[j].version),
{
    let n = items.len() as int;
    lemma_version_after(was, items, id, n);
    lemma_uncached_bound(was, items, n);
    if 0 <= k < items.len() {
        lemma_version_after(was, items, items[k].id, n);
    }
    if version_after(was, items, id, n) != was.version_of(id) {
        let j = choose|j: int|
            0 <= j < n && (#[trigger] items[j]).id == id && version_after(was, items, id, n) == Some(items[j].version);
        assert(items[j].id == id);
    }
}

proof fn lemma_uncached_bound(was: &ImageCache, items: Seq<WindowItem>, n: int)
    requires
        0 <= n,
    ensures
        uncached(was, items, n) <= n,
    decreases n,
{
    if n > 0 {
        lemma_uncached_bound(was, items, n - 1);
    }
}

} // verus!
