//! Menus that windows export over D-Bus.

use vstd::prelude::*;

use crate::state::{map_toplevel, AppmenuAddress, SpikeState, SpikeView, ToplevelInfo};
use crate::surface::{index_of, position, SurfaceId};

verus! {

pub open spec fn with_appmenu(t: ToplevelInfo, appmenu: Option<AppmenuAddress>) -> ToplevelInfo {
    ToplevelInfo { appmenu, ..t }
}

/// The state after the menu of `surface` got an address: its window has it, or
/// the window that is yet to appear on that surface will.
pub open spec fn menu_addressed(s: SpikeView, surface: SurfaceId, address: AppmenuAddress) -> SpikeView {
    match index_of(s.toplevels, surface) {
        Some(i) => SpikeView {
            toplevels: s.toplevels.update(i, with_appmenu(s.toplevels[i], Some(address))),
            ..s
        },
        None => SpikeView { pending_appmenu: s.pending_appmenu.insert(surface, address), ..s },
    }
}

/// The state after the menu object of `surface` is gone.
pub open spec fn menu_released(s: SpikeView, surface: SurfaceId) -> SpikeView {
    SpikeView {
        toplevels: map_toplevel(s.toplevels, surface, |t: ToplevelInfo| with_appmenu(t, None)),
        pending_appmenu: s.pending_appmenu.remove(surface),
        ..s
    }
}

impl SpikeState {
    /// A client exports the menu of one of its surfaces.
    pub fn set_appmenu_address(&mut self, surface: SurfaceId, address: AppmenuAddress)
        ensures
            final(self)@ == menu_addressed(old(self)@, surface, address),
    {
        broadcast use vstd::std_specs::hash::group_hash_axioms;

        match position(&self.toplevels, surface) {
            Some(i) => {
                self.toplevels[i].appmenu = Some(address);
            },
            None => {
                self.pending_appmenu.insert(surface, address);
            },
        }
        assert(self@ =~= menu_addressed(old(self)@, surface, address));
    }

    /// The client takes the menu back.
    pub fn release_appmenu(&mut self, surface: SurfaceId)
        ensures
            final(self)@ == menu_released(old(self)@, surface),
    {
        broadcast use vstd::std_specs::hash::group_hash_axioms;

        if let Some(i) = position(&self.toplevels, surface) {
            self.toplevels[i].appmenu = None;
        }
        self.pending_appmenu.remove(&surface);
        assert(self@ =~= menu_released(old(self)@, surface));
    }
}

/// Nothing is left of a menu that was released.
pub proof fn law_release_forgets(s: SpikeView, surface: SurfaceId)
    ensures
        !menu_released(s, surface).pending_appmenu.contains_key(surface),
        index_of(s.toplevels, surface) matches Some(i) ==> menu_released(s, surface).toplevels[i].appmenu is None,
{
    crate::surface::lemma_index_from(s.toplevels, surface, 0);
}

/// The address of a menu goes to the window of its surface, or waits for one; no other window
/// gets it.
pub proof fn law_menu_goes_to_its_window(s: SpikeView, surface: SurfaceId, address: AppmenuAddress)
    ensures
        ({
            let t = menu_addressed(s, surface, address);
            &&& index_of(s.toplevels, surface) is None ==> t.toplevels == s.toplevels && t.pending_appmenu.contains_key(
                surface,
            ) && t.pending_appmenu[surface] == address
            &&& index_of(s.toplevels, surface) matches Some(i) ==> t.pending_appmenu == s.pending_appmenu
                && t.toplevels[i].appmenu == Some(address) && (forall|k: int|
                0 <= k < s.toplevels.len() && k != i ==> #[trigger] t.toplevels[k] == s.toplevels[k])
        }),
{
    crate::surface::lemma_index_of(s.toplevels, surface);
}

} // verus!
