//! The compositor's protocol state: which surfaces are mapped in which role,
//! what has the focus, and what clients have asked for since the last frame.

use std::collections::HashMap;

use vstd::prelude::*;

use crate::layer_shell::{Area, LayerInfo};
use crate::pixels::ClientSurfaceData;
use crate::resize::ResizeEdge;
use crate::surface::{index_of, OnSurface, SurfaceId};
use crate::surface_import::SurfacePixels;

verus! {

/// Identifies a display output.
pub type OutputId = u32;

/// What backs a toplevel window.
#[derive(Clone, Copy, Debug, PartialEq, Eq, Structural)]
pub enum Backing {
    /// A native client. The first configure is sent on its first commit.
    Xdg { initial_configure_sent: bool },
    /// An X11 window; override-redirect windows place themselves and are not
    /// managed.
    X11 { window: u32, override_redirect: bool, geometry: Area },
}

/// The D-Bus address of a window's exported menu.
#[derive(Debug, PartialEq, Eq)]
pub struct AppmenuAddress {
    pub service: String,
    pub path: String,
}

/// A mapped toplevel window.
#[derive(Debug)]
pub struct ToplevelInfo {
    pub surface: SurfaceId,
    pub backing: Backing,
    pub x: i32,
    pub y: i32,
    /// The client draws its own decorations.
    pub csd: bool,
    pub activated: bool,
    /// The whole surface tree in one buffer.
    pub pixels: ClientSurfaceData,
    /// Every surface of the tree on its own.
    pub surface_pixels: HashMap<u32, ClientSurfaceData>,
    pub last_advertised_title: String,
    pub last_advertised_app_id: String,
    pub is_dialog: bool,
    pub icon_name: Option<String>,
    pub tag: Option<String>,
    pub description: Option<String>,
    pub appmenu: Option<AppmenuAddress>,
}

/// A mapped popup: a menu, a dropdown, a tooltip.
#[derive(Debug)]
pub struct PopupInfo {
    pub surface: SurfaceId,
    /// A toplevel or another popup.
    pub parent: SurfaceId,
    /// Position and size relative to the parent.
    pub rel: Area,
    pub initial_configure_sent: bool,
    pub pixels: ClientSurfaceData,
    pub surface_pixels: HashMap<u32, ClientSurfaceData>,
    /// The visible part of the buffer; without an area, all of it.
    pub geom: Area,
}

/// The surface that follows the pointer during drag and drop, and how far its
/// hotspot is from its corner.
#[derive(Clone, Copy, Debug, PartialEq, Eq, Structural)]
pub struct DndIcon {
    pub surface: SurfaceId,
    pub offset_x: i32,
    pub offset_y: i32,
}

/// A surface that covers an output while the session is locked.
#[derive(Debug)]
pub struct LockSurfaceInfo {
    pub surface: SurfaceId,
    pub output: OutputId,
    pub pixels: ClientSurfaceData,
}

/// What the focused client wants the pointer to look like.
#[derive(Clone, Copy, Debug, PartialEq, Eq, Structural)]
pub enum CursorStatus {
    Hidden,
    /// A named shape; the default one leaves the choice to the shell.
    Named { is_default: bool },
    Surface(SurfaceId),
}

/// The protocol state.
#[derive(Debug)]
pub struct SpikeState {
    pub toplevels: Vec<ToplevelInfo>,
    pub popups: Vec<PopupInfo>,
    pub layer_surfaces: Vec<LayerInfo>,
    pub lock_surfaces: Vec<LockSurfaceInfo>,
    pub session_locked: bool,
    /// A lock was requested and waits for its first visible surface.
    pub pending_session_lock: bool,
    pub output: Option<OutputId>,
    pub outputs: Vec<OutputId>,
    pub active_surface: Option<SurfaceId>,
    pub cursor_status: CursorStatus,
    /// The point of the pointer's image that is under the pointer, where its client set
    /// one.
    pub cursor_hotspot: Option<(i32, i32)>,
    pub cursor_surface_pixels: ClientSurfaceData,
    pub dnd_icon: Option<DndIcon>,
    pub dnd_icon_pixels: ClientSurfaceData,
    /// The focused window's buffer.
    pub client_pixels: ClientSurfaceData,
    /// Pixels read from GPU buffers, until the commit that consumes them.
    pub dmabuf_pending: HashMap<SurfaceId, ClientSurfaceData>,
    /// Menu addresses set before their window appeared.
    pub pending_appmenu: HashMap<SurfaceId, AppmenuAddress>,
    pub idle_inhibitors: Vec<SurfaceId>,
    pub destroyed_surfaces: Vec<SurfaceId>,
    pub pending_xdg_move: Vec<SurfaceId>,
    pub pending_xdg_resize: Vec<(SurfaceId, ResizeEdge)>,
    pub pending_xdg_maximize: Vec<(SurfaceId, bool)>,
    pub pending_xdg_fullscreen: Vec<(SurfaceId, bool)>,
    pub pending_xdg_minimize: Vec<SurfaceId>,
    pub pending_xdg_restore: Vec<SurfaceId>,
    pub pending_bell: Option<SurfaceId>,
    pub should_exit: bool,
}

/// The state as its operations describe it.
#[verifier::ext_equal]
pub struct SpikeView {
    pub toplevels: Seq<ToplevelInfo>,
    pub popups: Seq<PopupInfo>,
    pub layer_surfaces: Seq<LayerInfo>,
    pub lock_surfaces: Seq<LockSurfaceInfo>,
    pub session_locked: bool,
    pub pending_session_lock: bool,
    pub output: Option<OutputId>,
    pub outputs: Seq<OutputId>,
    pub active_surface: Option<SurfaceId>,
    pub cursor_status: CursorStatus,
    pub cursor_hotspot: Option<(i32, i32)>,
    pub cursor_surface_pixels: SurfacePixels,
    pub dnd_icon: Option<DndIcon>,
    pub dnd_icon_pixels: SurfacePixels,
    pub client_pixels: SurfacePixels,
    pub dmabuf_pending: Map<SurfaceId, ClientSurfaceData>,
    pub pending_appmenu: Map<SurfaceId, AppmenuAddress>,
    pub idle_inhibitors: Seq<SurfaceId>,
    pub destroyed_surfaces: Seq<SurfaceId>,
    pub pending_xdg_move: Seq<SurfaceId>,
    pub pending_xdg_resize: Seq<(SurfaceId, ResizeEdge)>,
    pub pending_xdg_maximize: Seq<(SurfaceId, bool)>,
    pub pending_xdg_fullscreen: Seq<(SurfaceId, bool)>,
    pub pending_xdg_minimize: Seq<SurfaceId>,
    pub pending_xdg_restore: Seq<SurfaceId>,
    pub pending_bell: Option<SurfaceId>,
    pub should_exit: bool,
}

impl View for SpikeState {
    type V = SpikeView;

    open spec fn view(&self) -> SpikeView {
        SpikeView {
            toplevels: self.toplevels@,
            popups: self.popups@,
            layer_surfaces: self.layer_surfaces@,
            lock_surfaces: self.lock_surfaces@,
            session_locked: self.session_locked,
            pending_session_lock: self.pending_session_lock,
            output: self.output,
            outputs: self.outputs@,
            active_surface: self.active_surface,
            cursor_status: self.cursor_status,
            cursor_hotspot: self.cursor_hotspot,
            cursor_surface_pixels: self.cursor_surface_pixels@,
            dnd_icon: self.dnd_icon,
            dnd_icon_pixels: self.dnd_icon_pixels@,
            client_pixels: self.client_pixels@,
            dmabuf_pending: self.dmabuf_pending@,
            pending_appmenu: self.pending_appmenu@,
            idle_inhibitors: self.idle_inhibitors@,
            destroyed_surfaces: self.destroyed_surfaces@,
            pending_xdg_move: self.pending_xdg_move@,
            pending_xdg_resize: self.pending_xdg_resize@,
            pending_xdg_maximize: self.pending_xdg_maximize@,
            pending_xdg_fullscreen: self.pending_xdg_fullscreen@,
            pending_xdg_minimize: self.pending_xdg_minimize@,
            pending_xdg_restore: self.pending_xdg_restore@,
            pending_bell: self.pending_bell,
            should_exit: self.should_exit,
        }
    }
}

impl OnSurface for ToplevelInfo {
    open spec fn sid(&self) -> SurfaceId {
        self.surface
    }

    fn surface_id(&self) -> (r: SurfaceId) {
        self.surface
    }
}

impl OnSurface for PopupInfo {
    open spec fn sid(&self) -> SurfaceId {
        self.surface
    }

    fn surface_id(&self) -> (r: SurfaceId) {
        self.surface
    }
}

impl OnSurface for LayerInfo {
    open spec fn sid(&self) -> SurfaceId {
        self.surface
    }

    fn surface_id(&self) -> (r: SurfaceId) {
        self.surface
    }
}

impl OnSurface for LockSurfaceInfo {
    open spec fn sid(&self) -> SurfaceId {
        self.surface
    }

    fn surface_id(&self) -> (r: SurfaceId) {
        self.surface
    }
}

impl Backing {
    pub open spec fn is_override_redirect(self) -> bool {
        self matches Backing::X11 { override_redirect, .. } && override_redirect
    }

    /// Whether the window places itself and is not managed.
    pub fn override_redirect(&self) -> (r: bool)
        ensures
            r == self.is_override_redirect(),
    {
        match self {
            Backing::X11 { override_redirect, .. } => *override_redirect,
            Backing::Xdg { .. } => false,
        }
    }
}

/// A buffer that nothing was imported into yet.
pub open spec fn blank_pixels() -> SurfacePixels {
    SurfacePixels {
        pixels: Seq::empty(),
        width: 0,
        height: 0,
        dirty: false,
        version: 0,
        last_commit: None,
    }
}

/// The list with `f` applied to the window of surface `id`, if it is tracked.
pub open spec fn map_toplevel(
    toplevels: Seq<ToplevelInfo>,
    id: SurfaceId,
    f: spec_fn(ToplevelInfo) -> ToplevelInfo,
) -> Seq<ToplevelInfo> {
    match index_of(toplevels, id) {
        Some(i) => toplevels.update(i, f(toplevels[i])),
        None => toplevels,
    }
}

impl SpikeView {
    /// Nothing is mapped, focused or asked for.
    pub open spec fn is_initial(self) -> bool {
        &&& self.toplevels.len() == 0
        &&& self.popups.len() == 0
        &&& self.layer_surfaces.len() == 0
        &&& self.lock_surfaces.len() == 0
        &&& !self.session_locked
        &&& !self.pending_session_lock
        &&& self.output is None
        &&& self.outputs.len() == 0
        &&& self.active_surface is None
        &&& self.cursor_status == (CursorStatus::Named { is_default: true })
        &&& self.cursor_hotspot is None
        &&& self.cursor_surface_pixels == blank_pixels()
        &&& self.dnd_icon is None
        &&& self.dnd_icon_pixels == blank_pixels()
        &&& self.client_pixels == blank_pixels()
        &&& self.dmabuf_pending == Map::<SurfaceId, ClientSurfaceData>::empty()
        &&& self.pending_appmenu == Map::<SurfaceId, AppmenuAddress>::empty()
        &&& self.idle_inhibitors.len() == 0
        &&& self.destroyed_surfaces.len() == 0
        &&& self.pending_xdg_move.len() == 0
        &&& self.pending_xdg_resize.len() == 0
        &&& self.pending_xdg_maximize.len() == 0
        &&& self.pending_xdg_fullscreen.len() == 0
        &&& self.pending_xdg_minimize.len() == 0
        &&& self.pending_xdg_restore.len() == 0
        &&& self.pending_bell is None
        &&& !self.should_exit
    }
}

impl SpikeState {
    /// The state of a compositor that no client has connected to.
    pub fn new() -> (s: Self)
        ensures
            s@.is_initial(),
    {
        SpikeState {
            toplevels: Vec::new(),
            popups: Vec::new(),
            layer_surfaces: Vec::new(),
            lock_surfaces: Vec::new(),
            session_locked: false,
            pending_session_lock: false,
            output: None,
            outputs: Vec::new(),
            active_surface: None,
            cursor_status: CursorStatus::Named { is_default: true },
            cursor_hotspot: None,
            cursor_surface_pixels: ClientSurfaceData::default(),
            dnd_icon: None,
            dnd_icon_pixels: ClientSurfaceData::default(),
            client_pixels: ClientSurfaceData::default(),
            dmabuf_pending: HashMap::new(),
            pending_appmenu: HashMap::new(),
            idle_inhibitors: Vec::new(),
            destroyed_surfaces: Vec::new(),
            pending_xdg_move: Vec::new(),
            pending_xdg_resize: Vec::new(),
            pending_xdg_maximize: Vec::new(),
            pending_xdg_fullscreen: Vec::new(),
            pending_xdg_minimize: Vec::new(),
            pending_xdg_restore: Vec::new(),
            pending_bell: None,
            should_exit: false,
        }
    }
}

} // verus!
