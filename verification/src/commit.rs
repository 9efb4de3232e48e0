//! Surface commits: which part of the state a committed surface belongs to, and taking
//! over its pixels there.

use vstd::prelude::*;

use crate::layer_shell::{Area, LayerInfo};
use crate::num::{sat32, saturate};
use crate::pixels::{
    fits_in_memory, import_shm_buffer, next_version, tree_fits, tree_imported, ClientSurfaceData, SurfaceNode,
};
use crate::state::{Backing, CursorStatus, DndIcon, LockSurfaceInfo, PopupInfo, SpikeState, SpikeView, ToplevelInfo};
use crate::surface::{index_of, position, SurfaceId};
use crate::surface_import::{
    import_shm_per_surface, imported_map, pixel_map, sound, surfaces_wf, ImportSurface, SurfacePixels,
};

verus! {

/// What a committed surface belongs to.
#[derive(Clone, Copy, Debug, PartialEq, Eq, Structural)]
pub enum CommitTarget {
    /// Nothing that is drawn.
    Unknown,
    /// The pointer's image.
    Cursor(SurfaceId),
    /// The drag-and-drop icon.
    Icon(SurfaceId),
    /// The lock surface with this index.
    Lock(usize),
    /// The popup with this index.
    Popup(usize),
    /// The layer surface with this index.
    Layer(usize),
    /// The toplevel with this index.
    Toplevel(usize),
}

/// The first popup, from the `i`-th on, that is one of two surfaces.
pub open spec fn popup_from(popups: Seq<PopupInfo>, a: SurfaceId, b: SurfaceId, i: int) -> Option<int>
    decreases popups.len() - i,
{
    if i < 0 || i >= popups.len() {
        None
    } else if popups[i].surface == a || popups[i].surface == b {
        Some(i)
    } else {
        popup_from(popups, a, b, i + 1)
    }
}

fn find_popup(popups: &Vec<PopupInfo>, a: SurfaceId, b: SurfaceId) -> (r: Option<usize>)
    ensures
        match r {
            Some(i) => popup_from(popups@, a, b, 0) == Some(i as int) && i < popups@.len(),
            None => popup_from(popups@, a, b, 0) is None,
        },
{
    let mut i: usize = 0;
    while i < popups.len()
        invariant
            0 <= i <= popups@.len(),
            popup_from(popups@, a, b, 0) == popup_from(popups@, a, b, i as int),
        decreases popups@.len() - i,
    {
        if popups[i].surface == a || popups[i].surface == b {
            return Some(i);
        }
        i += 1;
    }
    None
}

/// What a commit of `surface`, in the tree of `root`, belongs to. Roles are tried in order:
/// pointer image, drag icon, lock surface, popup, layer surface, toplevel.
pub open spec fn target_of(st: SpikeView, surface: SurfaceId, root: SurfaceId) -> CommitTarget {
    let cursor = match st.cursor_status {
        CursorStatus::Surface(c) => if c == surface || c == root {
            Some(c)
        } else {
            None
        },
        _ => None,
    };
    let icon = match st.dnd_icon {
        Some(i) => if i.surface == surface || i.surface == root {
            Some(i.surface)
        } else {
            None
        },
        None => None,
    };
    if cursor is Some {
        CommitTarget::Cursor(cursor->0)
    } else if icon is Some {
        CommitTarget::Icon(icon->0)
    } else if index_of(st.lock_surfaces, root) is Some {
        CommitTarget::Lock(index_of(st.lock_surfaces, root)->0 as usize)
    } else if popup_from(st.popups, root, surface, 0) is Some {
        CommitTarget::Popup(popup_from(st.popups, root, surface, 0)->0 as usize)
    } else if index_of(st.layer_surfaces, root) is Some {
        CommitTarget::Layer(index_of(st.layer_surfaces, root)->0 as usize)
    } else if index_of(st.toplevels, root) is Some {
        CommitTarget::Toplevel(index_of(st.toplevels, root)->0 as usize)
    } else {
        CommitTarget::Unknown
    }
}

/// Whether a target is part of the state.
pub open spec fn target_valid(st: SpikeView, target: CommitTarget) -> bool {
    match target {
        CommitTarget::Unknown | CommitTarget::Cursor(_) => true,
        CommitTarget::Icon(_) => st.dnd_icon is Some,
        CommitTarget::Lock(i) => i < st.lock_surfaces.len(),
        CommitTarget::Popup(i) => i < st.popups.len(),
        CommitTarget::Layer(i) => i < st.layer_surfaces.len(),
        CommitTarget::Toplevel(i) => i < st.toplevels.len(),
    }
}

/// The surface tree of a committed surface.
#[derive(Debug)]
pub struct CommitTree {
    /// For the composite of the whole tree.
    pub nodes: Vec<SurfaceNode>,
    /// For every surface on its own.
    pub surfaces: Vec<ImportSurface>,
    /// The key of the root among these.
    pub root_key: u32,
}

impl CommitTree {
    pub open spec fn wf(&self) -> bool {
        tree_fits(self.nodes@) && surfaces_wf(self.surfaces@)
    }

    /// Whether the tree can be imported.
    pub fn can_import(&self) -> (r: bool)
        ensures
            r == self.wf(),
    {
        fits_in_memory(&self.nodes) && sound(&self.surfaces)
    }
}

/// Whether `after` holds the tree imported over `before`, unless pixels read from a GPU
/// buffer are there: then it holds those.
pub open spec fn imported_or_pending(
    nodes: Seq<SurfaceNode>,
    pending: Option<ClientSurfaceData>,
    before: &ClientSurfaceData,
    after: &ClientSurfaceData,
) -> bool {
    match pending {
        Some(data) => *after == data,
        None => tree_imported(nodes, before, after),
    }
}

/// Whether `after` holds the tree imported over `before`; where that shows nothing, pixels
/// read from a GPU buffer take its place and are used up.
pub open spec fn imported_else_pending(
    nodes: Seq<SurfaceNode>,
    surface: SurfaceId,
    pending: Map<SurfaceId, ClientSurfaceData>,
    left: Map<SurfaceId, ClientSurfaceData>,
    before: &ClientSurfaceData,
    after: &ClientSurfaceData,
) -> bool {
    exists|mid: ClientSurfaceData| #[trigger]
        tree_imported(nodes, before, &mid) && if mid.width == 0 && pending.contains_key(surface) {
            *after == pending[surface] && left == pending.remove(surface)
        } else {
            *after == mid && left == pending
        }
}

/// The pixels read from a surface's GPU buffer.
pub open spec fn pending_of(st: SpikeView, surface: SurfaceId) -> Option<ClientSurfaceData> {
    if st.dmabuf_pending.contains_key(surface) {
        Some(st.dmabuf_pending[surface])
    } else {
        None
    }
}

impl SpikeState {
    /// What a commit of `surface`, in the tree of `root`, belongs to. A synchronized
    /// subsurface waits for its parent.
    pub fn commit_target(&self, surface: SurfaceId, root: SurfaceId, synchronized: bool) -> (r: CommitTarget)
        ensures
            r == if synchronized {
                CommitTarget::Unknown
            } else {
                target_of(self@, surface, root)
            },
            target_valid(self@, r),
    {
        if synchronized {
            return CommitTarget::Unknown;
        }
        if let CursorStatus::Surface(c) = self.cursor_status {
            if c == surface || c == root {
                return CommitTarget::Cursor(c);
            }
        }
        if let Some(icon) = self.dnd_icon {
            if icon.surface == surface || icon.surface == root {
                return CommitTarget::Icon(icon.surface);
            }
        }
        if let Some(i) = position(&self.lock_surfaces, root) {
            return CommitTarget::Lock(i);
        }
        if let Some(i) = find_popup(&self.popups, root, surface) {
            return CommitTarget::Popup(i);
        }
        if let Some(i) = position(&self.layer_surfaces, root) {
            return CommitTarget::Layer(i);
        }
        if let Some(i) = position(&self.toplevels, root) {
            return CommitTarget::Toplevel(i);
        }
        CommitTarget::Unknown
    }

    /// A commit of the pointer's image. Its hotspot moves against the buffer.
    pub fn commit_cursor(&mut self, tree: &CommitTree, delta: Option<(i32, i32)>)
        requires
            tree.wf(),
        ensures
            cursor_committed(old(self), final(self), tree, delta),
    {
        if let Some(d) = delta {
            if let Some(h) = self.cursor_hotspot {
                self.cursor_hotspot = Some(move_hotspot(h, d));
            }
        }
        import_shm_buffer(&tree.nodes, &mut self.cursor_surface_pixels);
    }

    /// A commit of the drag-and-drop icon. Its hotspot moves along with the buffer.
    pub fn commit_icon(&mut self, tree: &CommitTree, delta: Option<(i32, i32)>)
        requires
            tree.wf(),
        ensures
            icon_committed(old(self), final(self), tree, delta),
    {
        if let Some((dx, dy)) = delta {
            if let Some(icon) = self.dnd_icon {
                self.dnd_icon = Some(
                    DndIcon {
                        surface: icon.surface,
                        offset_x: saturate(icon.offset_x as i64 + dx as i64),
                        offset_y: saturate(icon.offset_y as i64 + dy as i64),
                    },
                );
            }
        }
        import_shm_buffer(&tree.nodes, &mut self.dnd_icon_pixels);
    }

    fn take_pending(&mut self, surface: SurfaceId) -> (r: Option<ClientSurfaceData>)
        ensures
            r == pending_of(old(self)@, surface),
            final(self)@ == (SpikeView { dmabuf_pending: old(self)@.dmabuf_pending.remove(surface), ..old(self)@ }),
            final(self).lock_surfaces == old(self).lock_surfaces,
            final(self).layer_surfaces == old(self).layer_surfaces,
            final(self).popups == old(self).popups,
            final(self).toplevels == old(self).toplevels,
            final(self).client_pixels == old(self).client_pixels,
    {
        broadcast use vstd::std_specs::hash::group_hash_axioms;

        self.dmabuf_pending.remove(&surface)
    }

    /// A commit of a lock surface. The first one with pixels confirms a requested lock.
    /// Returns whether it did.
    pub fn commit_lock(&mut self, i: usize, tree: &CommitTree) -> (locked: bool)
        requires
            i < old(self)@.lock_surfaces.len(),
            tree.wf(),
        ensures
            lock_committed(old(self), final(self), i, tree, locked),
    {
        let surface: SurfaceId = self.lock_surfaces[i].surface;
        let pending = self.take_pending(surface);
        match pending {
            Some(data) => {
                self.lock_surfaces[i].pixels = data;
            },
            None => {
                import_shm_buffer(&tree.nodes, &mut self.lock_surfaces[i].pixels);
            },
        }
        let locked = self.pending_session_lock && self.lock_surfaces[i].pixels.width > 0;
        if locked {
            self.pending_session_lock = false;
            self.session_locked = true;
        }
        locked
    }

    /// A commit of a layer surface.
    pub fn commit_layer(&mut self, i: usize, tree: &CommitTree)
        requires
            i < old(self)@.layer_surfaces.len(),
            tree.wf(),
        ensures
            layer_committed(old(self), final(self), i, tree),
    {
        let surface: SurfaceId = self.layer_surfaces[i].surface;
        let pending = self.take_pending(surface);
        match pending {
            Some(data) => {
                self.layer_surfaces[i].pixels = data;
            },
            None => {
                import_shm_buffer(&tree.nodes, &mut self.layer_surfaces[i].pixels);
            },
        }
    }

    /// A commit of a popup, with the window geometry that its client set.
    pub fn commit_popup(&mut self, i: usize, tree: &CommitTree, geometry: Area)
        requires
            i < old(self)@.popups.len(),
            tree.wf(),
        ensures
            popup_committed(old(self), final(self), i, tree, geometry),
    {
        let surface: SurfaceId = self.popups[i].surface;
        import_shm_buffer(&tree.nodes, &mut self.popups[i].pixels);
        let ghost mid = self.popups@[i as int].pixels;
        assert(tree_imported(tree.nodes@, &old(self)@.popups[i as int].pixels, &mid));
        import_shm_per_surface(&tree.surfaces, &mut self.popups[i].surface_pixels);
        if self.popups[i].pixels.width == 0 {
            let pending = self.take_pending(surface);
            if let Some(data) = pending {
                self.popups[i].pixels = data;
            } else {
                assert(self@.dmabuf_pending =~= old(self)@.dmabuf_pending);
            }
        }
        if geometry.w > 0 && geometry.h > 0 {
            self.popups[i].geom = geometry;
        }
        assert(self@.popups =~= old(self)@.popups.update(i as int, self@.popups[i as int]));
        assert(self@ =~= (SpikeView {
            popups: self@.popups,
            dmabuf_pending: self@.dmabuf_pending,
            ..old(self)@
        }));
    }
}

/// The drag-and-drop icon after its buffer moved by `delta`.
pub open spec fn icon_moved(icon: Option<DndIcon>, delta: Option<(i32, i32)>) -> Option<DndIcon> {
    match (icon, delta) {
        (Some(i), Some((dx, dy))) => Some(
            DndIcon {
                surface: i.surface,
                offset_x: sat32(i.offset_x + dx),
                offset_y: sat32(i.offset_y + dy),
            },
        ),
        _ => icon,
    }
}

/// A copy of imported pixels, published as a version of its own.
pub open spec fn copied(from: &ClientSurfaceData, version: u64) -> SurfacePixels {
    SurfacePixels {
        pixels: from.pixels@,
        width: from.width,
        height: from.height,
        dirty: true,
        version,
        last_commit: None,
    }
}

fn copy_pixels(from: &ClientSurfaceData, version: u64) -> (r: ClientSurfaceData)
    ensures
        r@ == copied(from, version),
{
    let pixels = from.pixels.clone();
    assert(pixels@ =~= from.pixels@);
    ClientSurfaceData {
        pixels,
        width: from.width,
        height: from.height,
        dirty: true,
        version,
        last_commit: None,
    }
}

fn following(version: u64) -> (r: u64)
    ensures
        r == next_version(version),
{
    if version == u64::MAX {
        0
    } else {
        version + 1
    }
}

/// The version after the one that a surface was last imported at.
pub open spec fn version_after(m: Map<u32, SurfacePixels>, key: u32) -> u64 {
    next_version(
        if m.contains_key(key) {
            m[key].version
        } else {
            0
        },
    )
}

/// The imported surfaces of a window after its tree was imported; pixels read from a GPU
/// buffer stand for the root.
pub open spec fn with_root(m: Map<u32, SurfacePixels>, key: u32, data: Option<ClientSurfaceData>) -> Map<
    u32,
    SurfacePixels,
> {
    match data {
        Some(d) => m.insert(key, copied(&d, version_after(m, key))),
        None => m,
    }
}

/// What a commit does to a toplevel's pixels: they hold the composite of the tree, or,
/// where that shows nothing, what was read from its GPU buffer. `used` are the pixels that
/// were.
pub open spec fn toplevel_imported(
    tree: &CommitTree,
    surface: SurfaceId,
    pending: Map<SurfaceId, ClientSurfaceData>,
    before: &ToplevelInfo,
    after: &ToplevelInfo,
    used: Option<ClientSurfaceData>,
) -> bool {
    exists|mid: ClientSurfaceData|
        {
            &&& #[trigger] tree_imported(tree.nodes@, &before.pixels, &mid)
            &&& used == if mid.width == 0 && pending.contains_key(surface) {
                Some(pending[surface])
            } else {
                None
            }
            &&& after.pixels == match used {
                Some(d) => d,
                None => mid,
            }
            &&& pixel_map(after.surface_pixels@) == with_root(
                imported_map(pixel_map(before.surface_pixels@), tree.surfaces@),
                tree.root_key,
                used,
            )
        }
}

/// Whether `after` holds a copy of a window's pixels over the tree imported into `before`;
/// where the window has none, the imported tree.
pub open spec fn focused_copy(
    nodes: Seq<SurfaceNode>,
    pixels: &ClientSurfaceData,
    before: &ClientSurfaceData,
    after: &ClientSurfaceData,
) -> bool {
    exists|mid: ClientSurfaceData| #[trigger]
        tree_imported(nodes, before, &mid) && if pixels.width > 0 {
            after@ == copied(pixels, next_version(mid.version))
        } else {
            *after == mid
        }
}

impl SpikeState {
    fn import_toplevel(&mut self, i: usize, tree: &CommitTree) -> (used: Ghost<Option<ClientSurfaceData>>)
        requires
            i < old(self)@.toplevels.len(),
            tree.wf(),
        ensures
            ({
                let before = old(self)@.toplevels[i as int];
                let after = final(self)@.toplevels[i as int];
                &&& toplevel_imported(
                    tree,
                    before.surface,
                    old(self)@.dmabuf_pending,
                    &before,
                    &after,
                    used@,
                )
                &&& final(self)@.toplevels == old(self)@.toplevels.update(
                    i as int,
                    ToplevelInfo { pixels: after.pixels, surface_pixels: after.surface_pixels, ..before },
                )
                &&& final(self)@ == (SpikeView {
                    toplevels: final(self)@.toplevels,
                    dmabuf_pending: if used@ is Some {
                        old(self)@.dmabuf_pending.remove(before.surface)
                    } else {
                        old(self)@.dmabuf_pending
                    },
                    ..old(self)@
                })
                &&& final(self).client_pixels == old(self).client_pixels
            }),
    {
        broadcast use vstd::std_specs::hash::group_hash_axioms;

        let surface: SurfaceId = self.toplevels[i].surface;
        let ghost first = self@.toplevels[i as int];
        import_shm_buffer(&tree.nodes, &mut self.toplevels[i].pixels);
        let ghost mid = self.toplevels@[i as int].pixels;
        assert(tree_imported(tree.nodes@, &first.pixels, &mid));
        import_shm_per_surface(&tree.surfaces, &mut self.toplevels[i].surface_pixels);
        let ghost mut used: Option<ClientSurfaceData> = None;
        let ghost imported = pixel_map(self.toplevels@[i as int].surface_pixels@);
        if self.toplevels[i].pixels.width == 0 {
            let pending = self.take_pending(surface);
            if let Some(data) = pending {
                proof {
                    used = Some(data);
                }
                let mut version: u64 = 0;
                if let Some(d) = self.toplevels[i].surface_pixels.get(&tree.root_key) {
                    version = d.version;
                }
                let copy = copy_pixels(&data, following(version));
                let ghost before_map = self.toplevels@[i as int].surface_pixels@;
                self.toplevels[i].surface_pixels.insert(tree.root_key, copy);
                assert(pixel_map(before_map.insert(tree.root_key, copy)) =~= with_root(
                    imported,
                    tree.root_key,
                    used,
                ));
                self.toplevels[i].pixels = data;
            } else {
                assert(self@.dmabuf_pending =~= old(self)@.dmabuf_pending);
            }
        }
        Ghost(used)
    }

    /// A commit of a toplevel. The focused window's pixels are kept in a buffer of their own
    /// as well.
    pub fn commit_toplevel(&mut self, i: usize, tree: &CommitTree)
        requires
            i < old(self)@.toplevels.len(),
            tree.wf(),
        ensures
            toplevel_committed(old(self), final(self), i, tree),
    {
        let used = self.import_toplevel(i, tree);
        let surface: SurfaceId = self.toplevels[i].surface;
        let active = match self.active_surface {
            Some(s) => s == surface,
            None => false,
        };
        if active {
            import_shm_buffer(&tree.nodes, &mut self.client_pixels);
            let ghost mid = self.client_pixels;
            assert(tree_imported(tree.nodes@, &old(self).client_pixels, &mid));
            if self.toplevels[i].pixels.width > 0 {
                let version: u64 = following(self.client_pixels.version);
                self.client_pixels = copy_pixels(&self.toplevels[i].pixels, version);
            }
        }
        assert(toplevel_imported(
            tree,
            old(self)@.toplevels[i as int].surface,
            old(self)@.dmabuf_pending,
            &old(self)@.toplevels[i as int],
            &self@.toplevels[i as int],
            used@,
        ));
    }

    /// Whether the first configure of a committed surface is due; it counts as sent then.
    /// The first result is for a toplevel, the second for a popup.
    pub fn take_initial_configure(&mut self, surface: SurfaceId) -> (r: (bool, bool))
        ensures
            r.0 == (index_of(old(self)@.toplevels, surface) matches Some(i) && old(self)@.toplevels[i].backing == (
            Backing::Xdg { initial_configure_sent: false })),
            r.1 == (index_of(old(self)@.popups, surface) matches Some(i)
                && !old(self)@.popups[i].initial_configure_sent),
            final(self)@ == (SpikeView {
                toplevels: if r.0 {
                    let i = index_of(old(self)@.toplevels, surface)->0;
                    old(self)@.toplevels.update(
                        i,
                        ToplevelInfo {
                            backing: Backing::Xdg { initial_configure_sent: true },
                            ..old(self)@.toplevels[i]
                        },
                    )
                } else {
                    old(self)@.toplevels
                },
                popups: if r.1 {
                    let i = index_of(old(self)@.popups, surface)->0;
                    old(self)@.popups.update(
                        i,
                        PopupInfo { initial_configure_sent: true, ..old(self)@.popups[i] },
                    )
                } else {
                    old(self)@.popups
                },
                ..old(self)@
            }),
    {
        let mut toplevel = false;
        let mut popup = false;
        if let Some(i) = position(&self.toplevels, surface) {
            if let Backing::Xdg { initial_configure_sent } = self.toplevels[i].backing {
                if !initial_configure_sent {
                    self.toplevels[i].backing = Backing::Xdg { initial_configure_sent: true };
                    toplevel = true;
                }
            }
        }
        if let Some(i) = position(&self.popups, surface) {
            if !self.popups[i].initial_configure_sent {
                self.popups[i].initial_configure_sent = true;
                popup = true;
            }
        }
        (toplevel, popup)
    }
}

/// The hotspot of an image whose buffer moved by `delta`.
pub open spec fn hotspot_moved(hotspot: (i32, i32), delta: (i32, i32)) -> (i32, i32) {
    (sat32(hotspot.0 - delta.0), sat32(hotspot.1 - delta.1))
}

/// Moves a hotspot by the inverse of how far the buffer moved.
pub fn move_hotspot(hotspot: (i32, i32), delta: (i32, i32)) -> (r: (i32, i32))
    ensures
        r == hotspot_moved(hotspot, delta),
{
    (saturate(hotspot.0 as i64 - delta.0 as i64), saturate(hotspot.1 as i64 - delta.1 as i64))
}

/// The hotspot after a commit that moved the buffer by `delta`.
pub open spec fn hotspot_after(hotspot: Option<(i32, i32)>, delta: Option<(i32, i32)>) -> Option<(i32, i32)> {
    match (hotspot, delta) {
        (Some(h), Some(d)) => Some(hotspot_moved(h, d)),
        _ => hotspot,
    }
}

/// The image, which is drawn with its hotspot under the pointer, moves by as much as
/// its client moved the buffer.
pub proof fn law_image_moves_with_buffer(hotspot: (i32, i32), delta: (i32, i32), x: int, y: int)
    requires
        i32::MIN <= hotspot.0 - delta.0 <= i32::MAX,
        i32::MIN <= hotspot.1 - delta.1 <= i32::MAX,
    ensures
        x - hotspot_moved(hotspot, delta).0 == (x - hotspot.0) + delta.0,
        y - hotspot_moved(hotspot, delta).1 == (y - hotspot.1) + delta.1,
{
}

/// What a commit of the pointer's image does.
pub open spec fn cursor_committed(
    was: &SpikeState,
    now: &SpikeState,
    tree: &CommitTree,
    delta: Option<(i32, i32)>,
) -> bool {
    &&& tree_imported(tree.nodes@, &was.cursor_surface_pixels, &now.cursor_surface_pixels)
    &&& now@ == (SpikeView {
                cursor_hotspot: hotspot_after(was@.cursor_hotspot, delta),
                cursor_surface_pixels: now.cursor_surface_pixels@,
                ..was@
            })
}

/// What a commit of the drag-and-drop icon does.
pub open spec fn icon_committed(was: &SpikeState, now: &SpikeState, tree: &CommitTree, delta: Option<(i32, i32)>) -> bool {
    &&& tree_imported(tree.nodes@, &was.dnd_icon_pixels, &now.dnd_icon_pixels)
    &&& now@ == (SpikeView {
                dnd_icon_pixels: now.dnd_icon_pixels@,
                dnd_icon: icon_moved(was@.dnd_icon, delta),
                ..was@
            })
}

/// What a commit of a lock surface does.
pub open spec fn lock_committed(was: &SpikeState, now: &SpikeState, i: usize, tree: &CommitTree, locked: bool) -> bool {
    let before = was@.lock_surfaces[i as int];
    let after = now@.lock_surfaces[i as int];
    &&& imported_or_pending(
        tree.nodes@,
        pending_of(was@, before.surface),
        &before.pixels,
        &after.pixels,
    )
    &&& now@.lock_surfaces == was@.lock_surfaces.update(
        i as int,
        LockSurfaceInfo { pixels: after.pixels, ..before },
    )
    &&& locked == (was@.pending_session_lock && after.pixels.width > 0)
    &&& now@ == (SpikeView {
        lock_surfaces: now@.lock_surfaces,
        dmabuf_pending: was@.dmabuf_pending.remove(before.surface),
        session_locked: was@.session_locked || locked,
        pending_session_lock: was@.pending_session_lock && !locked,
        ..was@
    })
}

/// What a commit of a layer surface does.
pub open spec fn layer_committed(was: &SpikeState, now: &SpikeState, i: usize, tree: &CommitTree) -> bool {
    let before = was@.layer_surfaces[i as int];
    let after = now@.layer_surfaces[i as int];
    &&& imported_or_pending(
        tree.nodes@,
        pending_of(was@, before.surface),
        &before.pixels,
        &after.pixels,
    )
    &&& now@.layer_surfaces == was@.layer_surfaces.update(
        i as int,
        LayerInfo { pixels: after.pixels, ..before },
    )
    &&& now@ == (SpikeView {
        layer_surfaces: now@.layer_surfaces,
        dmabuf_pending: was@.dmabuf_pending.remove(before.surface),
        ..was@
    })
}

/// What a commit of a popup does.
pub open spec fn popup_committed(was: &SpikeState, now: &SpikeState, i: usize, tree: &CommitTree, geometry: Area) -> bool {
    let before = was@.popups[i as int];
    let after = now@.popups[i as int];
    &&& imported_else_pending(
        tree.nodes@,
        before.surface,
        was@.dmabuf_pending,
        now@.dmabuf_pending,
        &before.pixels,
        &after.pixels,
    )
    &&& pixel_map(after.surface_pixels@) == imported_map(
        pixel_map(before.surface_pixels@),
        tree.surfaces@,
    )
    &&& after.geom == if geometry.w > 0 && geometry.h > 0 {
        geometry
    } else {
        before.geom
    }
    &&& now@.popups == was@.popups.update(
        i as int,
        PopupInfo {
            pixels: after.pixels,
            surface_pixels: after.surface_pixels,
            geom: after.geom,
            ..before
        },
    )
    &&& now@ == (SpikeView {
        popups: now@.popups,
        dmabuf_pending: now@.dmabuf_pending,
        ..was@
    })
}

/// What a commit of a toplevel does.
pub open spec fn toplevel_committed(was: &SpikeState, now: &SpikeState, i: usize, tree: &CommitTree) -> bool {
    let before = was@.toplevels[i as int];
    let after = now@.toplevels[i as int];
    let active = was@.active_surface == Some(before.surface);
    &&& exists|used: Option<ClientSurfaceData>| #[trigger]
        toplevel_imported(
            tree,
            before.surface,
            was@.dmabuf_pending,
            &before,
            &after,
            used,
        ) && now@.dmabuf_pending == if used is Some {
            was@.dmabuf_pending.remove(before.surface)
        } else {
            was@.dmabuf_pending
        }
    &&& now@.toplevels == was@.toplevels.update(
        i as int,
        ToplevelInfo { pixels: after.pixels, surface_pixels: after.surface_pixels, ..before },
    )
    &&& active ==> focused_copy(
        tree.nodes@,
        &after.pixels,
        &was.client_pixels,
        &now.client_pixels,
    )
    &&& !active ==> now@.client_pixels == was@.client_pixels
    &&& now@ == (SpikeView {
        toplevels: now@.toplevels,
        dmabuf_pending: now@.dmabuf_pending,
        client_pixels: now@.client_pixels,
        ..was@
    })
}

/// What a commit does to the state.
pub open spec fn committed(
    was: &SpikeState,
    now: &SpikeState,
    target: CommitTarget,
    tree: &CommitTree,
    delta: Option<(i32, i32)>,
    geometry: Area,
    locked: bool,
) -> bool {
    match target {
        CommitTarget::Unknown => now@ == was@ && !locked,
        CommitTarget::Cursor(_) => cursor_committed(was, now, tree, delta) && !locked,
        CommitTarget::Icon(_) => icon_committed(was, now, tree, delta) && !locked,
        CommitTarget::Lock(i) => lock_committed(was, now, i, tree, locked),
        CommitTarget::Popup(i) => popup_committed(was, now, i, tree, geometry) && !locked,
        CommitTarget::Layer(i) => layer_committed(was, now, i, tree) && !locked,
        CommitTarget::Toplevel(i) => toplevel_committed(was, now, i, tree) && !locked,
    }
}

impl SpikeState {
    /// Takes over a committed surface tree. `delta` is how far the buffer moved, `geometry`
    /// the window geometry that the client set. Returns whether the commit confirmed a
    /// requested session lock.
    pub fn commit(
        &mut self,
        target: CommitTarget,
        tree: &CommitTree,
        delta: Option<(i32, i32)>,
        geometry: Area,
    ) -> (locked: bool)
        requires
            target_valid(old(self)@, target),
            tree.wf(),
        ensures
            committed(old(self), final(self), target, tree, delta, geometry, locked),
    {
        match target {
            CommitTarget::Unknown => {},
            CommitTarget::Cursor(_) => self.commit_cursor(tree, delta),
            CommitTarget::Icon(_) => self.commit_icon(tree, delta),
            CommitTarget::Lock(i) => {
                return self.commit_lock(i, tree);
            },
            CommitTarget::Popup(i) => self.commit_popup(i, tree, geometry),
            CommitTarget::Layer(i) => self.commit_layer(i, tree),
            CommitTarget::Toplevel(i) => self.commit_toplevel(i, tree),
        }
        false
    }
}

/// Only a commit of a lock surface with pixels, while a lock is asked for, locks the
/// session; and no commit unlocks it.
pub proof fn law_commit_locks(
    was: &SpikeState,
    now: &SpikeState,
    target: CommitTarget,
    tree: &CommitTree,
    delta: Option<(i32, i32)>,
    geometry: Area,
    locked: bool,
)
    requires
        target_valid(was@, target),
        committed(was, now, target, tree, delta, geometry, locked),
    ensures
        was@.session_locked ==> now@.session_locked,
        !was@.session_locked && now@.session_locked ==> was@.pending_session_lock && (target matches CommitTarget::Lock(
            i,
        ) && now@.lock_surfaces[i as int].pixels.width > 0),
{
}

/// A commit keeps every surface in its role: no list grows, shrinks or changes its order.
pub proof fn law_commit_keeps_roles(
    was: &SpikeState,
    now: &SpikeState,
    target: CommitTarget,
    tree: &CommitTree,
    delta: Option<(i32, i32)>,
    geometry: Area,
    locked: bool,
)
    requires
        target_valid(was@, target),
        committed(was, now, target, tree, delta, geometry, locked),
    ensures
        now@.toplevels.len() == was@.toplevels.len(),
        forall|k: int| 0 <= k < was@.toplevels.len() ==> (#[trigger] now@.toplevels[k]).surface
            == was@.toplevels[k].surface,
        now@.popups.len() == was@.popups.len(),
        forall|k: int| 0 <= k < was@.popups.len() ==> (#[trigger] now@.popups[k]).surface == was@.popups[k].surface,
        now@.layer_surfaces.len() == was@.layer_surfaces.len(),
        now@.lock_surfaces.len() == was@.lock_surfaces.len(),
        now@.active_surface == was@.active_surface,
{
}

/// A commit belongs to what its surface, or the root of its tree, was made for: the pointer's
/// image and the dragged icon come first, then lock surfaces, popups, layer surfaces and
/// windows. A surface that is none of these belongs to nothing.
pub proof fn law_commit_finds_its_role(st: SpikeView, surface: SurfaceId, root: SurfaceId)
    requires
        st.lock_surfaces.len() <= usize::MAX,
        st.popups.len() <= usize::MAX,
        st.layer_surfaces.len() <= usize::MAX,
        st.toplevels.len() <= usize::MAX,
    ensures
        ({
            let cursor = st.cursor_status matches CursorStatus::Surface(c) && (c == surface || c == root);
            let icon = st.dnd_icon matches Some(i) && (i.surface == surface || i.surface == root);
            let lock = exists|k: int| 0 <= k < st.lock_surfaces.len() && (#[trigger] st.lock_surfaces[k]).surface == root;
            let popup = exists|k: int|
                0 <= k < st.popups.len() && ((#[trigger] st.popups[k]).surface == root || st.popups[k].surface
                    == surface);
            let layer = exists|k: int|
                0 <= k < st.layer_surfaces.len() && (#[trigger] st.layer_surfaces[k]).surface == root;
            let window = exists|k: int| 0 <= k < st.toplevels.len() && (#[trigger] st.toplevels[k]).surface == root;
            match target_of(st, surface, root) {
                CommitTarget::Cursor(c) => cursor && st.cursor_status == CursorStatus::Surface(c),
                CommitTarget::Icon(i) => !cursor && icon && (st.dnd_icon->0).surface == i,
                CommitTarget::Lock(k) => !cursor && !icon && k < st.lock_surfaces.len()
                    && st.lock_surfaces[k as int].surface == root,
                CommitTarget::Popup(k) => !cursor && !icon && !lock && k < st.popups.len() && (st.popups[k as int].surface
                    == root || st.popups[k as int].surface == surface),
                CommitTarget::Layer(k) => !cursor && !icon && !lock && !popup && k < st.layer_surfaces.len()
                    && st.layer_surfaces[k as int].surface == root,
                CommitTarget::Toplevel(k) => !cursor && !icon && !lock && !popup && !layer && k < st.toplevels.len()
                    && st.toplevels[k as int].surface == root,
                CommitTarget::Unknown => !cursor && !icon && !lock && !popup && !layer && !window,
            }
        }),
{
    crate::surface::lemma_index_from(st.lock_surfaces, root, 0);
    crate::surface::lemma_index_from(st.layer_surfaces, root, 0);
    crate::surface::lemma_index_from(st.toplevels, root, 0);
    lemma_popup_from(st.popups, root, surface, 0);
}

proof fn lemma_popup_from(popups: Seq<PopupInfo>, a: SurfaceId, b: SurfaceId, i: int)
    requires
        0 <= i <= popups.len(),
    ensures
        match popup_from(popups, a, b, i) {
            Some(k) => i <= k < popups.len() && (popups[k].surface == a || popups[k].surface == b),
            None => forall|k: int|
                i <= k < popups.len() ==> (#[trigger] popups[k]).surface != a && popups[k].surface != b,
        },
    decreases popups.len() - i,
{
    if i < popups.len() && popups[i].surface != a && popups[i].surface != b {
        lemma_popup_from(popups, a, b, i + 1);
    }
}

/// A lone opaque buffer, with all of its rows: one node at the origin, of the buffer's size.
pub open spec fn lone_buffer(nodes: Seq<SurfaceNode>) -> bool {
    &&& nodes.len() == 1
    &&& nodes[0].offset_x == 0 && nodes[0].offset_y == 0 && nodes[0].mapped()
    &&& nodes[0].buffer matches Some(buf) && buf.wf() && !buf.has_alpha && buf.width == nodes[0].width && buf.height
        == nodes[0].height && (buf.height - 1) * buf.stride + 4 * buf.width <= buf.data@.len()
}

/// Whether pixels are those of a lone opaque buffer.
pub open spec fn shows_buffer(p: &ClientSurfaceData, nodes: Seq<SurfaceNode>) -> bool {
    let buf = nodes[0].buffer->0;
    &&& p.width == buf.width && p.height == buf.height && p.dirty
    &&& forall|x: int, y: int|
        #![trigger buf.data@[y * buf.stride + 4 * x]]
        #![trigger p.pixels@[4 * (y * buf.width + x)]]
        0 <= x < buf.width && 0 <= y < buf.height ==> crate::pixels::shows(
            p.pixels@,
            y * buf.width + x,
            buf.data@,
            y * buf.stride + 4 * x,
            false,
        )
}

/// What a client draws is what its surface shows: after a commit of an opaque buffer the
/// surface that it belongs to has the buffer's pixels, and no other surface of its kind
/// changed. Pixels that wait from another kind of buffer only come first on lock and layer
/// surfaces.
pub proof fn law_commit_shows_buffer(
    was: &SpikeState,
    now: &SpikeState,
    target: CommitTarget,
    tree: &CommitTree,
    delta: Option<(i32, i32)>,
    geometry: Area,
    locked: bool,
)
    requires
        target_valid(was@, target),
        committed(was, now, target, tree, delta, geometry, locked),
        lone_buffer(tree.nodes@),
    ensures
        match target {
            CommitTarget::Cursor(_) => shows_buffer(&now.cursor_surface_pixels, tree.nodes@),
            CommitTarget::Icon(_) => shows_buffer(&now.dnd_icon_pixels, tree.nodes@),
            CommitTarget::Lock(i) => !was@.dmabuf_pending.contains_key(was@.lock_surfaces[i as int].surface)
                ==> shows_buffer(&now@.lock_surfaces[i as int].pixels, tree.nodes@) && (was@.pending_session_lock
                ==> locked && now@.session_locked && !now@.pending_session_lock),
            CommitTarget::Layer(i) => !was@.dmabuf_pending.contains_key(was@.layer_surfaces[i as int].surface)
                ==> shows_buffer(&now@.layer_surfaces[i as int].pixels, tree.nodes@),
            CommitTarget::Popup(i) => shows_buffer(&now@.popups[i as int].pixels, tree.nodes@),
            CommitTarget::Toplevel(i) => shows_buffer(&now@.toplevels[i as int].pixels, tree.nodes@) && (
            was@.active_surface == Some(was@.toplevels[i as int].surface) ==> now@.client_pixels.pixels
                == now@.toplevels[i as int].pixels.pixels@ && now@.client_pixels.width == now@.toplevels[i as int].pixels.width
                && now@.client_pixels.height == now@.toplevels[i as int].pixels.height && now@.client_pixels.dirty),
            CommitTarget::Unknown => now@ == was@,
        },
        !(target is Toplevel) ==> now@.toplevels == was@.toplevels,
        target matches CommitTarget::Toplevel(i) ==> forall|k: int|
            0 <= k < was@.toplevels.len() && k != i ==> #[trigger] now@.toplevels[k] == was@.toplevels[k],
        target matches CommitTarget::Popup(i) ==> forall|k: int|
            0 <= k < was@.popups.len() && k != i ==> #[trigger] now@.popups[k] == was@.popups[k],
{
    let nodes = tree.nodes@;
    assert forall|before: ClientSurfaceData, after: ClientSurfaceData| #[trigger]
        tree_imported(nodes, &before, &after) implies shows_buffer(&after, nodes) by {
        crate::pixels::law_lone_buffer_is_shown(nodes, &before, &after);
    }
    match target {
        CommitTarget::Toplevel(i) => {
            let before = was@.toplevels[i as int];
            let after = now@.toplevels[i as int];
            let used = choose|used: Option<ClientSurfaceData>| #[trigger]
                toplevel_imported(tree, before.surface, was@.dmabuf_pending, &before, &after, used);
            let mid = choose|mid: ClientSurfaceData| #[trigger] tree_imported(nodes, &before.pixels, &mid) && used == (
            if mid.width == 0 && was@.dmabuf_pending.contains_key(before.surface) {
                Some(was@.dmabuf_pending[before.surface])
            } else {
                None
            }) && after.pixels == (match used {
                Some(d) => d,
                None => mid,
            });
            assert(shows_buffer(&mid, nodes));
        },
        CommitTarget::Popup(i) => {
            let before = was@.popups[i as int];
            let after = now@.popups[i as int];
            let mid = choose|mid: ClientSurfaceData| #[trigger]
                tree_imported(nodes, &before.pixels, &mid) && if mid.width == 0 && was@.dmabuf_pending.contains_key(
                    before.surface,
                ) {
                    after.pixels == was@.dmabuf_pending[before.surface] && now@.dmabuf_pending
                        == was@.dmabuf_pending.remove(before.surface)
                } else {
                    after.pixels == mid && now@.dmabuf_pending == was@.dmabuf_pending
                };
            assert(shows_buffer(&mid, nodes));
        },
        _ => {},
    }
}

/// Pixels that wait for a surface without a readable buffer are shown with its next commit,
/// and once.
pub proof fn law_waiting_pixels_are_shown(
    was: &SpikeState,
    now: &SpikeState,
    i: usize,
    tree: &CommitTree,
    locked: bool,
)
    ensures
        i < was@.layer_surfaces.len() && layer_committed(was, now, i, tree) ==> {
            let surface = was@.layer_surfaces[i as int].surface;
            &&& was@.dmabuf_pending.contains_key(surface) ==> now@.layer_surfaces[i as int].pixels
                == was@.dmabuf_pending[surface]
            &&& !now@.dmabuf_pending.contains_key(surface)
        },
        i < was@.lock_surfaces.len() && lock_committed(was, now, i, tree, locked) ==> {
            let surface = was@.lock_surfaces[i as int].surface;
            &&& was@.dmabuf_pending.contains_key(surface) ==> now@.lock_surfaces[i as int].pixels
                == was@.dmabuf_pending[surface]
            &&& !now@.dmabuf_pending.contains_key(surface)
        },
{
}

/// The dragged icon moves as its client moves its buffer.
pub proof fn law_icon_moves_with_buffer(icon: DndIcon, dx: i32, dy: i32)
    requires
        i32::MIN <= icon.offset_x + dx <= i32::MAX,
        i32::MIN <= icon.offset_y + dy <= i32::MAX,
    ensures
        icon_moved(Some(icon), Some((dx, dy))) matches Some(after) && after.surface == icon.surface && after.offset_x
            == icon.offset_x + dx && after.offset_y == icon.offset_y + dy,
        icon_moved(Some(icon), None) == Some(icon),
        icon_moved(None, Some((dx, dy))) is None,
{
}

} // verus!
