//! The managed windows: what is known of each, which of them can be clicked on,
//! and which one is under the pointer.

use vstd::prelude::*;

use crate::cursor::Coord;
use crate::layer_shell::Area;
use crate::num::{max_i32, max_int};
use crate::order::{is_order, lemma_order_exists, occurs_in, order_by, ordered, precedes};
use crate::state::ToplevelInfo;
use crate::surface::{index_of, position, OnSurface, SurfaceId};

verus! {

/// A managed window.
#[derive(Debug)]
pub struct WindowState {
    pub id: i32,
    pub surface: SurfaceId,
    /// Where the window is drawn at the moment, animations included.
    pub shown: Area,
    /// Where the window belongs.
    pub rect: Area,
    /// The visible part of the client's buffer.
    pub geom: Area,
    /// Windows with a higher order are in front.
    pub z_order: i32,
    pub focused: bool,
    pub minimized: bool,
    pub maximized: bool,
    /// The window plays its closing animation and will be removed.
    pub closing: bool,
    /// The client draws its own decorations.
    pub csd: bool,
    /// No animation is running.
    pub settled: bool,
    /// Its size is being animated.
    pub sizing: bool,
    /// No buffer has arrived yet; the opening animation waits for the first.
    pub awaiting_first_render: bool,
    pub alt_tab_selected: bool,
    /// Where to go back to from being maximized.
    pub pre_maximize: Option<Area>,
    /// Where to go back to from being tiled.
    pub pre_snap: Option<Area>,
    pub title: String,
    pub app_id: String,
}

/// Whether no two windows have the same id.
pub open spec fn unique_ids(windows: Seq<WindowState>) -> bool {
    forall|i: int, j: int| 0 <= i < j < windows.len() ==> (#[trigger] windows[i]).id != (#[trigger] windows[j]).id
}

/// Whether the windows have the ids that they had, in the same places.
pub open spec fn same_ids(before: Seq<WindowState>, after: Seq<WindowState>) -> bool {
    &&& before.len() == after.len()
    &&& forall|i: int| 0 <= i < before.len() ==> (#[trigger] after[i]).id == before[i].id
}

impl OnSurface for WindowState {
    open spec fn sid(&self) -> SurfaceId {
        self.surface
    }

    fn surface_id(&self) -> (r: SurfaceId) {
        self.surface
    }
}

impl WindowState {
    /// Fully minimized: the animation into the dock is over.
    pub open spec fn hidden(&self) -> bool {
        self.minimized && self.settled
    }

    /// Whether the user can click on the window.
    pub open spec fn clickable(&self) -> bool {
        !self.closing && !self.hidden()
    }

    pub fn is_hidden(&self) -> (r: bool)
        ensures
            r == self.hidden(),
    {
        self.minimized && self.settled
    }

    pub fn is_clickable(&self) -> (r: bool)
        ensures
            r == self.clickable(),
    {
        !self.closing && !self.is_hidden()
    }
}

/// The first window at or after `from` with an id.
pub open spec fn window_from(windows: Seq<WindowState>, id: i32, from: int) -> Option<int>
    decreases windows.len() - from,
{
    if from < 0 || from >= windows.len() {
        None
    } else if windows[from].id == id {
        Some(from)
    } else {
        window_from(windows, id, from + 1)
    }
}

/// The index of the window with an id.
pub open spec fn window_of(windows: Seq<WindowState>, id: i32) -> Option<int> {
    window_from(windows, id, 0)
}

pub proof fn lemma_window_from(windows: Seq<WindowState>, id: i32, from: int)
    requires
        0 <= from <= windows.len(),
    ensures
        match window_from(windows, id, from) {
            Some(i) => from <= i < windows.len() && windows[i].id == id,
            None => forall|k: int| from <= k < windows.len() ==> (#[trigger] windows[k]).id != id,
        },
    decreases windows.len() - from,
{
    if from < windows.len() && windows[from].id != id {
        lemma_window_from(windows, id, from + 1);
    }
}

/// The index of the window with an id.
pub fn find_window(windows: &Vec<WindowState>, id: i32) -> (r: Option<usize>)
    ensures
        match r {
            Some(i) => window_of(windows@, id) == Some(i as int) && i < windows@.len() && windows@[i as int].id == id,
            None => window_of(windows@, id) is None,
        },
{
    let mut i: usize = 0;
    while i < windows.len()
        invariant
            0 <= i <= windows@.len(),
            window_of(windows@, id) == window_from(windows@, id, i as int),
        decreases windows@.len() - i,
    {
        if windows[i].id == id {
            return Some(i);
        }
        i += 1;
    }
    None
}

/// The surface of the window with an id.
pub open spec fn surface_of(windows: Seq<WindowState>, id: i32) -> Option<SurfaceId> {
    match window_of(windows, id) {
        Some(i) => Some(windows[i].surface),
        None => None,
    }
}

pub fn surface_for_id(windows: &Vec<WindowState>, id: i32) -> (r: Option<SurfaceId>)
    ensures
        r == surface_of(windows@, id),
{
    match find_window(windows, id) {
        Some(i) => Some(windows[i].surface),
        None => None,
    }
}

/// The id of the window on a surface.
pub open spec fn id_of(windows: Seq<WindowState>, surface: SurfaceId) -> Option<i32> {
    match index_of(windows, surface) {
        Some(i) => Some(windows[i].id),
        None => None,
    }
}

pub fn id_for_surface(windows: &Vec<WindowState>, surface: SurfaceId) -> (r: Option<i32>)
    ensures
        r == id_of(windows@, surface),
{
    match position(windows, surface) {
        Some(i) => Some(windows[i].id),
        None => None,
    }
}

/// Whether the window on a surface is maximized.
pub open spec fn maximized_on(windows: Seq<WindowState>, surface: SurfaceId) -> bool {
    index_of(windows, surface) matches Some(i) && windows[i].maximized
}

pub fn is_maximized_on(windows: &Vec<WindowState>, surface: SurfaceId) -> (r: bool)
    ensures
        r == maximized_on(windows@, surface),
{
    match position(windows, surface) {
        Some(i) => windows[i].maximized,
        None => false,
    }
}

/// The sort keys that put windows in front first.
pub open spec fn front_keys(windows: Seq<WindowState>) -> Seq<i64> {
    windows.map_values(|w: WindowState| (-(w.z_order as int)) as i64)
}

/// The sort keys that put windows in the back first.
pub open spec fn back_keys(windows: Seq<WindowState>) -> Seq<i64> {
    windows.map_values(|w: WindowState| w.z_order as i64)
}

/// The windows from front to back.
pub fn front_to_back(windows: &Vec<WindowState>) -> (order: Vec<usize>)
    ensures
        is_order(front_keys(windows@), order@),
        order@ == ordered(front_keys(windows@)),
{
    let mut keys: Vec<i64> = Vec::new();
    let mut i: usize = 0;
    while i < windows.len()
        invariant
            0 <= i <= windows@.len(),
            keys@.len() == i,
            forall|k: int| 0 <= k < i ==> keys@[k] == front_keys(windows@)[k],
        decreases windows@.len() - i,
    {
        keys.push(-(windows[i].z_order as i64));
        i += 1;
    }
    assert(keys@ =~= front_keys(windows@));
    order_by(&keys)
}

/// The windows from back to front.
pub fn windows_sorted(windows: &Vec<WindowState>) -> (order: Vec<usize>)
    ensures
        is_order(back_keys(windows@), order@),
        order@ == ordered(back_keys(windows@)),
{
    let mut keys: Vec<i64> = Vec::new();
    let mut i: usize = 0;
    while i < windows.len()
        invariant
            0 <= i <= windows@.len(),
            keys@.len() == i,
            forall|k: int| 0 <= k < i ==> keys@[k] == back_keys(windows@)[k],
        decreases windows@.len() - i,
    {
        keys.push(windows[i].z_order as i64);
        i += 1;
    }
    assert(keys@ =~= back_keys(windows@));
    order_by(&keys)
}

/// The rectangle of a window for hit tests, its title bar included. The id is the
/// window's index among the toplevels.
#[derive(Clone, Copy, Debug, PartialEq, Eq, Structural)]
pub struct WindowRect {
    pub id: usize,
    pub x: i64,
    pub y: i64,
    pub w: i64,
    pub h: i64,
    pub csd: bool,
}

/// Height of the title bar that is drawn for a window.
pub open spec fn bar_height(w: &WindowState, titlebar_h: i32) -> int {
    if w.csd {
        0
    } else {
        titlebar_h as int
    }
}

/// The hit rectangle of window `w`, which is toplevel number `idx`.
pub open spec fn hit_rect(w: &WindowState, idx: int, titlebar_h: i32) -> WindowRect {
    WindowRect {
        id: idx as usize,
        x: w.shown.x as i64,
        y: w.shown.y as i64,
        w: max_int(w.geom.w as int, 1) as i64,
        h: (max_int(w.geom.h as int, 1) + bar_height(w, titlebar_h)) as i64,
        csd: w.csd,
    }
}

/// The hit rectangles of the first `n` windows of an order.
pub open spec fn rects_along(
    windows: Seq<WindowState>,
    toplevels: Seq<ToplevelInfo>,
    titlebar_h: i32,
    order: Seq<usize>,
    n: int,
) -> Seq<WindowRect>
    decreases n,
{
    if n <= 0 {
        Seq::empty()
    } else {
        let rest = rects_along(windows, toplevels, titlebar_h, order, n - 1);
        let w = windows[order[n - 1] as int];
        match index_of(toplevels, w.surface) {
            Some(idx) => if w.clickable() {
                rest.push(hit_rect(&w, idx, titlebar_h))
            } else {
                rest
            },
            None => rest,
        }
    }
}

fn rect_of(w: &WindowState, idx: usize, titlebar_h: i32) -> (r: WindowRect)
    ensures
        r == hit_rect(w, idx as int, titlebar_h),
{
    let bar: i64 = if w.csd {
        0
    } else {
        titlebar_h as i64
    };
    WindowRect {
        id: idx,
        x: w.shown.x as i64,
        y: w.shown.y as i64,
        w: max_i32(w.geom.w, 1) as i64,
        h: max_i32(w.geom.h, 1) as i64 + bar,
        csd: w.csd,
    }
}

/// The hit rectangles of the windows that can be clicked on, from front to back.
/// They cover the window geometry, not the buffer, which may hold a shadow.
pub fn window_rects(windows: &Vec<WindowState>, toplevels: &Vec<ToplevelInfo>, titlebar_h: i32) -> (r: Vec<
    WindowRect,
>)
    ensures
        r@ == rects_along(
            windows@,
            toplevels@,
            titlebar_h,
            ordered(front_keys(windows@)),
            windows@.len() as int,
        ),
{
    let order = front_to_back(windows);
    let mut out: Vec<WindowRect> = Vec::new();
    let mut i: usize = 0;
    while i < order.len()
        invariant
            0 <= i <= order@.len(),
            is_order(front_keys(windows@), order@),
            order@ == ordered(front_keys(windows@)),
            out@ == rects_along(windows@, toplevels@, titlebar_h, order@, i as int),
        decreases order@.len() - i,
    {
        let at: usize = order[i];
        if windows[at].is_clickable() {
            if let Some(idx) = position(toplevels, windows[at].surface) {
                out.push(rect_of(&windows[at], idx, titlebar_h));
            }
        }
        i += 1;
    }
    out
}

/// Whether the pointer is over a window or within `edge` of it.
pub open spec fn near(w: &WindowState, x: Coord, y: Coord, titlebar_h: i32, edge: i32) -> bool {
    let r = hit_rect(w, 0, titlebar_h);
    &&& x.ge(r.x - edge)
    &&& x.lt(r.x + r.w + edge)
    &&& y.ge(r.y - edge)
    &&& y.lt(r.y + r.h + edge)
}

/// The first window of an order, from its `i`-th on, that is a toplevel, can be
/// clicked on and is near the pointer; the result is its index among the toplevels.
pub open spec fn first_near(
    windows: Seq<WindowState>,
    toplevels: Seq<ToplevelInfo>,
    x: Coord,
    y: Coord,
    titlebar_h: i32,
    edge: i32,
    order: Seq<usize>,
    i: int,
) -> Option<int>
    decreases order.len() - i,
{
    if i < 0 || i >= order.len() {
        None
    } else {
        let w = windows[order[i] as int];
        if w.clickable() && near(&w, x, y, titlebar_h, edge) && index_of(toplevels, w.surface) is Some {
            index_of(toplevels, w.surface)
        } else {
            first_near(windows, toplevels, x, y, titlebar_h, edge, order, i + 1)
        }
    }
}

/// The frontmost toplevel that the pointer is over, or within `edge` of.
pub open spec fn toplevel_near(
    windows: Seq<WindowState>,
    toplevels: Seq<ToplevelInfo>,
    x: Coord,
    y: Coord,
    titlebar_h: i32,
    edge: i32,
) -> Option<int> {
    first_near(windows, toplevels, x, y, titlebar_h, edge, ordered(front_keys(windows)), 0)
}

fn is_near(w: &WindowState, x: Coord, y: Coord, titlebar_h: i32, edge: i32) -> (r: bool)
    ensures
        r == near(w, x, y, titlebar_h, edge),
{
    let r = rect_of(w, 0, titlebar_h);
    let e: i64 = edge as i64;
    x.at_least(r.x - e) && x.below(r.x + r.w + e) && y.at_least(r.y - e) && y.below(r.y + r.h + e)
}

/// The frontmost toplevel that the pointer is over, or within `edge` of.
pub fn find_toplevel_idx(
    windows: &Vec<WindowState>,
    toplevels: &Vec<ToplevelInfo>,
    x: Coord,
    y: Coord,
    titlebar_h: i32,
    edge: i32,
) -> (r: Option<usize>)
    ensures
        match r {
            Some(idx) => toplevel_near(windows@, toplevels@, x, y, titlebar_h, edge) == Some(idx as int) && idx
                < toplevels@.len(),
            None => toplevel_near(windows@, toplevels@, x, y, titlebar_h, edge) is None,
        },
{
    let order = front_to_back(windows);
    let mut r: Option<usize> = None;
    let mut i: usize = 0;
    while i < order.len() && r.is_none()
        invariant
            0 <= i <= order@.len(),
            is_order(front_keys(windows@), order@),
            order@ == ordered(front_keys(windows@)),
            match r {
                Some(idx) => first_near(windows@, toplevels@, x, y, titlebar_h, edge, order@, 0) == Some(
                    idx as int,
                ) && idx < toplevels@.len(),
                None => first_near(windows@, toplevels@, x, y, titlebar_h, edge, order@, 0) == first_near(
                    windows@,
                    toplevels@,
                    x,
                    y,
                    titlebar_h,
                    edge,
                    order@,
                    i as int,
                ),
            },
        decreases order@.len() - i,
    {
        let at: usize = order[i];
        if windows[at].is_clickable() && is_near(&windows[at], x, y, titlebar_h, edge) {
            r = position(toplevels, windows[at].surface);
        }
        i += 1;
    }
    r
}

/// Whether a click at a point may go to a window: it is a toplevel's, is neither closing nor
/// minimized, and the point is on its geometry with the title bar that is drawn above it, or
/// no more than `edge` away.
pub open spec fn takes_click(
    w: WindowState,
    toplevels: Seq<ToplevelInfo>,
    x: Coord,
    y: Coord,
    titlebar_h: i32,
    edge: i32,
) -> bool {
    let width = if w.geom.w < 1 { 1 } else { w.geom.w as int };
    let height = (if w.geom.h < 1 { 1 } else { w.geom.h as int }) + if w.csd { 0 } else { titlebar_h as int };
    &&& !w.closing && !(w.minimized && w.settled)
    &&& exists|t: int| 0 <= t < toplevels.len() && (#[trigger] toplevels[t]).surface == w.surface
    &&& w.shown.x - edge <= x.floor < w.shown.x + width + edge
    &&& w.shown.y - edge <= y.floor < w.shown.y + height + edge
}

/// A click goes to the frontmost window that may take it, and to none where no window may.
pub proof fn law_click_goes_to_the_front(
    windows: Seq<WindowState>,
    toplevels: Seq<ToplevelInfo>,
    x: Coord,
    y: Coord,
    titlebar_h: i32,
    edge: i32,
)
    requires
        windows.len() <= usize::MAX,
    ensures
        match toplevel_near(windows, toplevels, x, y, titlebar_h, edge) {
            Some(t) => 0 <= t < toplevels.len() && exists|i: int|
                0 <= i < windows.len() && takes_click(#[trigger] windows[i], toplevels, x, y, titlebar_h, edge)
                    && windows[i].surface == toplevels[t].surface && (forall|k: int|
                    0 <= k < windows.len() && takes_click(#[trigger] windows[k], toplevels, x, y, titlebar_h, edge)
                        ==> windows[k].z_order <= windows[i].z_order),
            None => forall|k: int|
                0 <= k < windows.len() ==> !takes_click(#[trigger] windows[k], toplevels, x, y, titlebar_h, edge),
        },
{
    let keys = front_keys(windows);
    lemma_order_exists(keys);
    let order = ordered(keys);
    lemma_first_near(windows, toplevels, x, y, titlebar_h, edge, order, 0);
    assert forall|k: int| 0 <= k < windows.len() implies #[trigger] occurs_in(order, k) by {}
    match toplevel_near(windows, toplevels, x, y, titlebar_h, edge) {
        Some(t) => {
            let p = choose|p: int|
                0 <= p < order.len() && takes_click(
                    windows[(#[trigger] order[p]) as int],
                    toplevels,
                    x,
                    y,
                    titlebar_h,
                    edge,
                ) && windows[order[p] as int].surface == toplevels[t].surface && (forall|q: int|
                    0 <= q < p ==> !takes_click(windows[(#[trigger] order[q]) as int], toplevels, x, y, titlebar_h, edge));
            let i = order[p] as int;
            assert forall|k: int| 0 <= k < windows.len() && takes_click(
                #[trigger] windows[k],
                toplevels,
                x,
                y,
                titlebar_h,
                edge,
            ) implies windows[k].z_order <= windows[i].z_order by {
                assert(occurs_in(order, k));
                let q = choose|q: int| 0 <= q < order.len() && #[trigger] order[q] == k;
                if q > p {
                    assert(precedes(keys, order[p] as int, order[q] as int));
                }
            }
            assert(takes_click(windows[i], toplevels, x, y, titlebar_h, edge));
        },
        None => {
            assert forall|k: int| 0 <= k < windows.len() implies !takes_click(
                #[trigger] windows[k],
                toplevels,
                x,
                y,
                titlebar_h,
                edge,
            ) by {
                assert(occurs_in(order, k));
                let q = choose|q: int| 0 <= q < order.len() && #[trigger] order[q] == k;
                assert(!takes_click(windows[order[q] as int], toplevels, x, y, titlebar_h, edge));
            }
        },
    }
}

proof fn lemma_first_near(
    windows: Seq<WindowState>,
    toplevels: Seq<ToplevelInfo>,
    x: Coord,
    y: Coord,
    titlebar_h: i32,
    edge: i32,
    order: Seq<usize>,
    i: int,
)
    requires
        0 <= i <= order.len(),
        forall|p: int| 0 <= p < order.len() ==> (#[trigger] order[p]) < windows.len(),
    ensures
        match first_near(windows, toplevels, x, y, titlebar_h, edge, order, i) {
            Some(t) => 0 <= t < toplevels.len() && exists|p: int|
                i <= p < order.len() && takes_click(
                    windows[(#[trigger] order[p]) as int],
                    toplevels,
                    x,
                    y,
                    titlebar_h,
                    edge,
                ) && windows[order[p] as int].surface == toplevels[t].surface && (forall|q: int|
                    i <= q < p ==> !takes_click(windows[(#[trigger] order[q]) as int], toplevels, x, y, titlebar_h, edge)),
            None => forall|q: int|
                i <= q < order.len() ==> !takes_click(
                    windows[(#[trigger] order[q]) as int],
                    toplevels,
                    x,
                    y,
                    titlebar_h,
                    edge,
                ),
        },
    decreases order.len() - i,
{
    if i < order.len() {
        let w = windows[order[i] as int];
        crate::surface::lemma_index_of(toplevels, w.surface);
        assert(takes_click(w, toplevels, x, y, titlebar_h, edge) <==> w.clickable() && near(&w, x, y, titlebar_h, edge)
            && index_of(toplevels, w.surface) is Some);
        lemma_first_near(windows, toplevels, x, y, titlebar_h, edge, order, i + 1);
        if takes_click(w, toplevels, x, y, titlebar_h, edge) {
            assert(takes_click(windows[order[i] as int], toplevels, x, y, titlebar_h, edge));
        }
    }
}

/// A window is found under its own id and on its own surface, where no other has them.
pub proof fn law_window_is_found(windows: Seq<WindowState>, i: int)
    requires
        0 <= i < windows.len(),
        forall|k: int|
            0 <= k < windows.len() && k != i ==> (#[trigger] windows[k]).id != windows[i].id && windows[k].surface
                != windows[i].surface,
    ensures
        window_of(windows, windows[i].id) == Some(i),
        surface_of(windows, windows[i].id) == Some(windows[i].surface),
        id_of(windows, windows[i].surface) == Some(windows[i].id),
        maximized_on(windows, windows[i].surface) == windows[i].maximized,
{
    lemma_window_from(windows, windows[i].id, 0);
    crate::surface::lemma_index_of(windows, windows[i].surface);
}

/// The sorted windows are all windows, from the hindmost to the foremost or the other way
/// round; windows at one height keep their order.
pub proof fn law_windows_are_stacked(windows: Seq<WindowState>, p: int, q: int)
    requires
        windows.len() <= usize::MAX,
        0 <= p < q < windows.len(),
    ensures
        ({
            let back = ordered(back_keys(windows));
            let front = ordered(front_keys(windows));
            &&& back.len() == windows.len() && front.len() == windows.len()
            &&& windows[back[p] as int].z_order <= windows[back[q] as int].z_order
            &&& windows[front[p] as int].z_order >= windows[front[q] as int].z_order
            &&& windows[back[p] as int].z_order == windows[back[q] as int].z_order ==> back[p] < back[q]
            &&& windows[front[p] as int].z_order == windows[front[q] as int].z_order ==> front[p] < front[q]
        }),
{
    lemma_order_exists(back_keys(windows));
    lemma_order_exists(front_keys(windows));
    let back = ordered(back_keys(windows));
    let front = ordered(front_keys(windows));
    assert(precedes(back_keys(windows), back[p] as int, back[q] as int));
    assert(precedes(front_keys(windows), front[p] as int, front[q] as int));
}

/// The rectangles that take clicks are those of the clickable windows that have a
/// client, from front to back as the windows are given.
pub proof fn law_click_rectangles_in_order(
    windows: Seq<WindowState>,
    toplevels: Seq<ToplevelInfo>,
    titlebar_h: i32,
    order: Seq<usize>,
    n: int,
)
    requires
        0 <= n <= order.len(),
    ensures
        rects_along(windows, toplevels, titlebar_h, order, n) == order.take(n).filter(
            |at: usize|
                windows[at as int].clickable() && index_of(toplevels, windows[at as int].surface) is Some,
        ).map_values(
            |at: usize|
                hit_rect(&windows[at as int], index_of(toplevels, windows[at as int].surface)->0, titlebar_h),
        ),
    decreases n,
{
    reveal(Seq::filter);
    let takes = |at: usize|
        windows[at as int].clickable() && index_of(toplevels, windows[at as int].surface) is Some;
    let rect = |at: usize|
        hit_rect(&windows[at as int], index_of(toplevels, windows[at as int].surface)->0, titlebar_h);
    if n > 0 {
        law_click_rectangles_in_order(windows, toplevels, titlebar_h, order, n - 1);
        assert(order.take(n).drop_last() =~= order.take(n - 1));
        assert(order.take(n).last() == order[n - 1]);
        let rest = order.take(n - 1).filter(takes);
        if takes(order[n - 1]) {
            assert(rest.push(order[n - 1]).map_values(rect) =~= rest.map_values(rect).push(rect(order[n - 1])));
        }
    } else {
        assert(rects_along(windows, toplevels, titlebar_h, order, n) =~= order.take(n).filter(takes).map_values(rect));
    }
}

} // verus!
