//! Who draws a window's frame.

use vstd::prelude::*;

use crate::state::{map_toplevel, SpikeState, SpikeView, ToplevelInfo};
use crate::surface::{position, SurfaceId};

verus! {

/// Who draws a window's title bar and border.
#[derive(Clone, Copy, Debug, PartialEq, Eq, Structural)]
pub enum DecorationMode {
    ClientSide,
    ServerSide,
}

/// What a client asks for; a value that is not known leaves it to the default.
#[derive(Clone, Copy, Debug, PartialEq, Eq, Structural)]
pub enum DecorationRequest {
    ClientSide,
    ServerSide,
    Unknown,
}

/// How a decoration object is answered.
#[derive(Clone, Copy, Debug, PartialEq, Eq, Structural)]
pub struct DecorationReply {
    pub mode: DecorationMode,
    /// The mode goes out now, not with the first configure.
    pub send: bool,
}

pub open spec fn with_csd(t: ToplevelInfo, csd: bool) -> ToplevelInfo {
    ToplevelInfo { csd, ..t }
}

/// The state after the window of `surface` was told who draws its frame.
pub open spec fn decorated(s: SpikeView, surface: SurfaceId, mode: DecorationMode) -> SpikeView {
    SpikeView {
        toplevels: map_toplevel(
            s.toplevels,
            surface,
            |t: ToplevelInfo| with_csd(t, mode == DecorationMode::ClientSide),
        ),
        ..s
    }
}

/// The mode that an `xdg-decoration` request is answered with: any mode but the
/// client's own is the server's.
pub open spec fn xdg_mode(request: DecorationRequest) -> DecorationMode {
    if request == DecorationRequest::ClientSide {
        DecorationMode::ClientSide
    } else {
        DecorationMode::ServerSide
    }
}

/// The mode that a `kde-server-decoration` request is answered with: any mode
/// but the server's is the client's.
pub open spec fn kde_mode(request: DecorationRequest) -> DecorationMode {
    if request == DecorationRequest::ServerSide {
        DecorationMode::ServerSide
    } else {
        DecorationMode::ClientSide
    }
}

impl SpikeState {
    fn decorate(&mut self, surface: SurfaceId, mode: DecorationMode)
        ensures
            final(self)@ == decorated(old(self)@, surface, mode),
    {
        if let Some(i) = position(&self.toplevels, surface) {
            self.toplevels[i].csd = mode == DecorationMode::ClientSide;
        }
        assert(self@ =~= decorated(old(self)@, surface, mode));
    }

    /// A client made a decoration object for its window: it draws its own frame
    /// until it asks for ours.
    pub fn new_decoration(&mut self, surface: SurfaceId, initial_configure_sent: bool) -> (r: DecorationReply)
        ensures
            r == (DecorationReply { mode: DecorationMode::ClientSide, send: initial_configure_sent }),
            final(self)@ == decorated(old(self)@, surface, DecorationMode::ClientSide),
    {
        self.decorate(surface, DecorationMode::ClientSide);
        DecorationReply { mode: DecorationMode::ClientSide, send: initial_configure_sent }
    }

    /// The client asks for a mode.
    pub fn request_mode(&mut self, surface: SurfaceId, request: DecorationRequest, initial_configure_sent: bool) -> (r:
        DecorationReply)
        ensures
            r == (DecorationReply { mode: xdg_mode(request), send: initial_configure_sent }),
            final(self)@ == decorated(old(self)@, surface, xdg_mode(request)),
    {
        let mode = if request == DecorationRequest::ClientSide {
            DecorationMode::ClientSide
        } else {
            DecorationMode::ServerSide
        };
        self.decorate(surface, mode);
        DecorationReply { mode, send: initial_configure_sent }
    }

    /// The client withdraws its wish: back to the default.
    pub fn unset_mode(&mut self, surface: SurfaceId, initial_configure_sent: bool) -> (r: DecorationReply)
        ensures
            r == (DecorationReply { mode: DecorationMode::ClientSide, send: initial_configure_sent }),
            final(self)@ == decorated(old(self)@, surface, DecorationMode::ClientSide),
    {
        self.decorate(surface, DecorationMode::ClientSide);
        DecorationReply { mode: DecorationMode::ClientSide, send: initial_configure_sent }
    }

    /// As `request_mode`, over the KDE protocol, which answers at once.
    pub fn request_kde_mode(&mut self, surface: SurfaceId, request: DecorationRequest) -> (r: DecorationReply)
        ensures
            r == (DecorationReply { mode: kde_mode(request), send: true }),
            final(self)@ == decorated(old(self)@, surface, kde_mode(request)),
    {
        let mode = if request == DecorationRequest::ServerSide {
            DecorationMode::ServerSide
        } else {
            DecorationMode::ClientSide
        };
        self.decorate(surface, mode);
        DecorationReply { mode, send: true }
    }
}

/// The last request decides, whatever was asked before.
pub proof fn law_last_mode_decides(s: SpikeView, surface: SurfaceId, first: DecorationMode, second: DecorationMode)
    ensures
        decorated(decorated(s, surface, first), surface, second) == decorated(s, surface, second),
{
    let once = decorated(s, surface, first);
    crate::surface::lemma_index_from(s.toplevels, surface, 0);
    crate::surface::lemma_index_from(once.toplevels, surface, 0);
    assert forall|k: int| 0 <= k < s.toplevels.len() implies (#[trigger] once.toplevels[k]).surface
        == s.toplevels[k].surface by {};
    let a = crate::surface::index_of(s.toplevels, surface);
    let b = crate::surface::index_of(once.toplevels, surface);
    if a is Some {
        assert(once.toplevels[a->0].surface == surface);
        if b is None {
            assert(false);
        } else if a->0 < b->0 {
            assert(once.toplevels[a->0].surface != surface);
        } else if b->0 < a->0 {
            assert(s.toplevels[b->0].surface != surface);
        }
    } else if b is Some {
        assert(s.toplevels[b->0].surface == surface);
    }
    assert(decorated(once, surface, second).toplevels =~= decorated(s, surface, second).toplevels);
}

/// A client that asks to draw its own frame is let, and one that asks for the server's gets
/// it; a wish that is not known falls to the server in one protocol and to the client in
/// the other. Only the window of the client is marked.
pub proof fn law_decoration_is_granted(s: SpikeView, surface: SurfaceId, mode: DecorationMode)
    ensures
        xdg_mode(DecorationRequest::ClientSide) is ClientSide,
        xdg_mode(DecorationRequest::ServerSide) is ServerSide,
        xdg_mode(DecorationRequest::Unknown) is ServerSide,
        kde_mode(DecorationRequest::ClientSide) is ClientSide,
        kde_mode(DecorationRequest::ServerSide) is ServerSide,
        kde_mode(DecorationRequest::Unknown) is ClientSide,
        decorated(s, surface, mode).toplevels.len() == s.toplevels.len(),
        forall|k: int|
            0 <= k < s.toplevels.len() ==> {
                let t = #[trigger] decorated(s, surface, mode).toplevels[k];
                if crate::surface::index_of(s.toplevels, surface) == Some(k) {
                    t == (ToplevelInfo { csd: mode is ClientSide, ..s.toplevels[k] })
                } else {
                    t == s.toplevels[k]
                }
            },
{
    crate::surface::lemma_index_of(s.toplevels, surface);
}

} // verus!
