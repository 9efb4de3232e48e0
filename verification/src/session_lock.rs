//! Locking the session: one lock at a time, confirmed by the first visible lock
//! surface and shown instead of everything else until it is given up.

use vstd::prelude::*;

use crate::layer_shell::{find_keyboard_owner, keyboard_owner};
use crate::outputs::OutputMode;
use crate::pixels::ClientSurfaceData;
use crate::state::{blank_pixels, LockSurfaceInfo, OutputId, SpikeState, SpikeView};
use crate::surface::SurfaceId;

verus! {

/// The size of a lock surface while there is no output.
pub const FALLBACK_WIDTH: i32 = 1280;

pub const FALLBACK_HEIGHT: i32 = 960;

/// An output as a lock surface's request sees it.
#[derive(Clone, Copy, Debug, PartialEq, Eq, Structural)]
pub struct LockOutput {
    /// The request names this output.
    pub named: bool,
    pub mode: Option<OutputMode>,
}

/// A mode's size, each side at least one pixel.
pub open spec fn covering(mode: OutputMode) -> (i32, i32) {
    (
        if mode.w < 1 {
            1
        } else {
            mode.w
        },
        if mode.h < 1 {
            1
        } else {
            mode.h
        },
    )
}

fn cover(mode: OutputMode) -> (r: (i32, i32))
    ensures
        r == covering(mode),
{
    (
        if mode.w < 1 {
            1
        } else {
            mode.w
        },
        if mode.h < 1 {
            1
        } else {
            mode.h
        },
    )
}

/// The mode of the first named output at or after `i` that has one.
pub open spec fn named_mode_from(outputs: Seq<LockOutput>, i: int) -> Option<OutputMode>
    decreases outputs.len() - i,
{
    if i < 0 || i >= outputs.len() {
        None
    } else if outputs[i].named && outputs[i].mode is Some {
        outputs[i].mode
    } else {
        named_mode_from(outputs, i + 1)
    }
}

/// The size of a lock surface: that of the output that it is for, else that of
/// the primary output, else a default.
pub open spec fn lock_size(outputs: Seq<LockOutput>) -> (i32, i32) {
    match named_mode_from(outputs, 0) {
        Some(mode) => covering(mode),
        None => if outputs.len() > 0 && outputs[0].mode is Some {
            covering(outputs[0].mode->0)
        } else {
            (FALLBACK_WIDTH, FALLBACK_HEIGHT)
        },
    }
}

pub fn output_size(outputs: &Vec<LockOutput>) -> (r: (i32, i32))
    ensures
        r == lock_size(outputs@),
{
    let mut i: usize = 0;
    while i < outputs.len()
        invariant
            0 <= i <= outputs@.len(),
            named_mode_from(outputs@, 0) == named_mode_from(outputs@, i as int),
        decreases outputs@.len() - i,
    {
        if outputs[i].named {
            if let Some(mode) = outputs[i].mode {
                return cover(mode);
            }
        }
        i += 1;
    }
    if outputs.len() > 0 {
        if let Some(mode) = outputs[0].mode {
            return cover(mode);
        }
    }
    (FALLBACK_WIDTH, FALLBACK_HEIGHT)
}

/// Whether a lock is active or on its way.
pub open spec fn lock_taken(s: SpikeView) -> bool {
    s.session_locked || s.pending_session_lock
}

/// The state after a lock request. Only one lock is held at a time.
pub open spec fn lock_requested(s: SpikeView) -> SpikeView {
    if lock_taken(s) {
        s
    } else {
        SpikeView { pending_session_lock: true, ..s }
    }
}

/// The state after the lock was given up.
pub open spec fn lock_released(s: SpikeView) -> SpikeView {
    SpikeView {
        session_locked: false,
        pending_session_lock: false,
        lock_surfaces: Seq::empty(),
        ..s
    }
}

/// Where a key goes: while the session is locked only to the lock surface, else
/// to a layer that holds the keyboard, else to the focused window.
pub open spec fn key_target(s: SpikeView, lock_surface: Option<SurfaceId>) -> Option<SurfaceId> {
    if s.session_locked {
        lock_surface
    } else {
        match keyboard_owner(s.layer_surfaces) {
            Some(layer) => Some(layer),
            None => s.active_surface,
        }
    }
}

impl SpikeState {
    /// A client asks to lock the session. The lock waits for its first visible
    /// surface; a second request is refused.
    pub fn lock(&mut self) -> (accepted: bool)
        ensures
            accepted == !lock_taken(old(self)@),
            final(self)@ == lock_requested(old(self)@),
    {
        if self.session_locked || self.pending_session_lock {
            return false;
        }
        self.pending_session_lock = true;
        true
    }

    /// The lock client gives the session free.
    pub fn unlock(&mut self)
        ensures
            final(self)@ == lock_released(old(self)@),
    {
        self.session_locked = false;
        self.pending_session_lock = false;
        self.lock_surfaces = Vec::new();
    }

    /// The lock client made a surface for `output`. Returns the size to configure
    /// it with.
    pub fn new_lock_surface(&mut self, surface: SurfaceId, output: OutputId, outputs: &Vec<LockOutput>) -> (r: (i32, i32))
        ensures
            r == lock_size(outputs@),
            ({
                let new = final(self).lock_surfaces@.last();
                &&& new.surface == surface
                &&& new.output == output
                &&& new.pixels@ == blank_pixels()
                &&& final(self)@ == SpikeView {
                    lock_surfaces: old(self)@.lock_surfaces.push(new),
                    ..old(self)@
                }
            }),
    {
        let size = output_size(outputs);
        let info = LockSurfaceInfo { surface, output, pixels: ClientSurfaceData::default() };
        self.lock_surfaces.push(info);
        size
    }

    /// The surface that keys are sent to; `lock_surface` is the one under the
    /// pointer.
    pub fn keyboard_target(&self, lock_surface: Option<SurfaceId>) -> (r: Option<SurfaceId>)
        ensures
            r == key_target(self@, lock_surface),
    {
        if self.session_locked {
            return lock_surface;
        }
        match find_keyboard_owner(&self.layer_surfaces) {
            Some(layer) => Some(layer),
            None => self.active_surface,
        }
    }
}

/// While the session is locked no window and no layer gets a key.
pub proof fn law_locked_keys_stay(s: SpikeView, lock_surface: Option<SurfaceId>)
    requires
        s.session_locked,
    ensures
        key_target(s, lock_surface) == lock_surface,
{
}

/// A lock that is held or awaited is not disturbed by another request, and once
/// it is released the next request is accepted.
pub proof fn law_one_lock(s: SpikeView)
    ensures
        lock_requested(lock_requested(s)) == lock_requested(s),
        lock_taken(lock_requested(s)),
        !lock_taken(lock_released(s)),
        lock_requested(lock_released(s)).pending_session_lock,
{
}

/// A lock surface covers at least one pixel.
pub proof fn law_lock_size_positive(outputs: Seq<LockOutput>)
    ensures
        lock_size(outputs).0 >= 1,
        lock_size(outputs).1 >= 1,
{
}

proof fn lemma_named_mode_from(outputs: Seq<LockOutput>, i: int)
    requires
        0 <= i <= outputs.len(),
    ensures
        match named_mode_from(outputs, i) {
            Some(mode) => exists|k: int|
                i <= k < outputs.len() && (#[trigger] outputs[k]).named && outputs[k].mode == Some(mode) && forall|j: int|
                    i <= j < k ==> !((#[trigger] outputs[j]).named && outputs[j].mode is Some),
            None => forall|k: int| i <= k < outputs.len() ==> !((#[trigger] outputs[k]).named && outputs[k].mode is Some),
        },
    decreases outputs.len() - i,
{
    if i < outputs.len() {
        lemma_named_mode_from(outputs, i + 1);
    }
}

/// A lock surface is as large as the output that it is meant for: the first named one
/// with a mode, or else the first output of all. With no mode to go by it is 1280 by
/// 960.
pub proof fn law_lock_covers_its_output(outputs: Seq<LockOutput>, k: int)
    ensures
        0 <= k < outputs.len() && outputs[k].named && outputs[k].mode is Some && (forall|j: int|
            0 <= j < k ==> !((#[trigger] outputs[j]).named && outputs[j].mode is Some)) && outputs[k].mode->0.w >= 1
            && outputs[k].mode->0.h >= 1 ==> lock_size(outputs) == (outputs[k].mode->0.w, outputs[k].mode->0.h),
        (forall|j: int| 0 <= j < outputs.len() ==> !((#[trigger] outputs[j]).named && outputs[j].mode is Some))
            && outputs.len() > 0 && outputs[0].mode is Some && outputs[0].mode->0.w >= 1 && outputs[0].mode->0.h >= 1
            ==> lock_size(outputs) == (outputs[0].mode->0.w, outputs[0].mode->0.h),
        (forall|j: int| 0 <= j < outputs.len() ==> (#[trigger] outputs[j]).mode is None) ==> lock_size(outputs) == (
            1280i32,
            960i32,
        ),
{
    lemma_named_mode_from(outputs, 0);
    if named_mode_from(outputs, 0) is Some {
        let m = choose|m: int|
            0 <= m < outputs.len() && (#[trigger] outputs[m]).named && outputs[m].mode == named_mode_from(outputs, 0)
                && forall|j: int| 0 <= j < m ==> !((#[trigger] outputs[j]).named && outputs[j].mode is Some);
        if 0 <= k < outputs.len() {
            assert(outputs[k].named || !outputs[k].named);
        }
    }
}

/// A lock is only asked for while none is there or under way; unlocking takes down
/// every lock surface and leaves the windows as they were. Neither touches anything
/// else.
pub proof fn law_lock_and_unlock(s: SpikeView)
    ensures
        !s.session_locked && !s.pending_session_lock ==> lock_requested(s).pending_session_lock && !lock_requested(
            s,
        ).session_locked,
        s.session_locked || s.pending_session_lock ==> lock_requested(s) == s,
        lock_requested(s).toplevels == s.toplevels,
        lock_requested(s).lock_surfaces == s.lock_surfaces,
        lock_requested(s).active_surface == s.active_surface,
        !lock_released(s).session_locked,
        !lock_released(s).pending_session_lock,
        lock_released(s).lock_surfaces.len() == 0,
        lock_released(s).toplevels == s.toplevels,
        lock_released(s).layer_surfaces == s.layer_surfaces,
        lock_released(s).active_surface == s.active_surface,
{
}

/// Unlocked, keys go to the layer surface that has taken the keyboard, and else to the
/// focused window. A locked session hands neither of them a key.
pub proof fn law_keys_find_their_target(s: SpikeView, lock_surface: Option<SurfaceId>)
    ensures
        !s.session_locked && keyboard_owner(s.layer_surfaces) is Some ==> key_target(s, lock_surface)
            == keyboard_owner(s.layer_surfaces),
        !s.session_locked && keyboard_owner(s.layer_surfaces) is None ==> key_target(s, lock_surface)
            == s.active_surface,
        s.session_locked && lock_surface is None ==> key_target(s, lock_surface) is None,
{
}

} // verus!
