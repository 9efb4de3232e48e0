//! Keeping the screen awake.

use vstd::prelude::*;

use crate::state::{SpikeState, SpikeView};
use crate::surface::SurfaceId;

verus! {

/// What a window's content is.
#[derive(Clone, Copy, Debug, PartialEq, Eq, Structural)]
pub enum ContentType {
    Plain,
    Photo,
    Video,
    Game,
}

/// Whether some window shows a video or a game.
pub open spec fn shows_motion(contents: Seq<ContentType>) -> bool {
    exists|i: int|
        0 <= i < contents.len() && (#[trigger] contents[i] == ContentType::Video || contents[i] == ContentType::Game)
}

/// The surfaces other than `surface`, in order.
pub open spec fn other_surfaces(surfaces: Seq<SurfaceId>, surface: SurfaceId) -> Seq<SurfaceId>
    decreases surfaces.len(),
{
    if surfaces.len() == 0 {
        Seq::empty()
    } else {
        let rest = other_surfaces(surfaces.drop_last(), surface);
        if surfaces.last() == surface {
            rest
        } else {
            rest.push(surfaces.last())
        }
    }
}

/// The state after `surface` asked for the screen to stay awake.
pub open spec fn inhibited(s: SpikeView, surface: SurfaceId) -> SpikeView {
    SpikeView {
        idle_inhibitors: if s.idle_inhibitors.contains(surface) {
            s.idle_inhibitors
        } else {
            s.idle_inhibitors.push(surface)
        },
        ..s
    }
}

/// The state after `surface` withdrew that.
pub open spec fn uninhibited(s: SpikeView, surface: SurfaceId) -> SpikeView {
    SpikeView { idle_inhibitors: other_surfaces(s.idle_inhibitors, surface), ..s }
}

impl SpikeState {
    /// `surface` keeps the screen awake from now on.
    pub fn inhibit(&mut self, surface: SurfaceId)
        ensures
            final(self)@ == inhibited(old(self)@, surface),
    {
        let mut i: usize = 0;
        while i < self.idle_inhibitors.len()
            invariant
                0 <= i <= self.idle_inhibitors@.len(),
                *self == *old(self),
                forall|k: int| 0 <= k < i ==> #[trigger] self.idle_inhibitors@[k] != surface,
            decreases self.idle_inhibitors@.len() - i,
        {
            if self.idle_inhibitors[i] == surface {
                assert(self.idle_inhibitors@.contains(surface));
                return;
            }
            i += 1;
        }
        self.idle_inhibitors.push(surface);
    }

    /// `surface` no longer keeps the screen awake.
    pub fn uninhibit(&mut self, surface: SurfaceId)
        ensures
            final(self)@ == uninhibited(old(self)@, surface),
    {
        let mut rest: Vec<SurfaceId> = Vec::new();
        let mut i: usize = 0;
        assert(other_surfaces(self.idle_inhibitors@.take(0), surface) =~= Seq::empty());
        while i < self.idle_inhibitors.len()
            invariant
                0 <= i <= self.idle_inhibitors@.len(),
                *self == *old(self),
                rest@ == other_surfaces(self.idle_inhibitors@.take(i as int), surface),
            decreases self.idle_inhibitors@.len() - i,
        {
            assert(self.idle_inhibitors@.take(i + 1).drop_last() =~= self.idle_inhibitors@.take(i as int));
            if self.idle_inhibitors[i] != surface {
                rest.push(self.idle_inhibitors[i]);
            }
            i += 1;
        }
        assert(self.idle_inhibitors@.take(i as int) =~= self.idle_inhibitors@);
        self.idle_inhibitors = rest;
    }

    /// Whether the screen stays awake: a window shows a video or a game, or some
    /// surface asked for it. `contents` tells what each window shows.
    pub fn refresh_content_type_idle_inhibit(&self, contents: &Vec<ContentType>) -> (awake: bool)
        ensures
            awake == (shows_motion(contents@) || self@.idle_inhibitors.len() > 0),
    {
        let mut i: usize = 0;
        while i < contents.len()
            invariant
                0 <= i <= contents@.len(),
                forall|k: int|
                    0 <= k < i ==> #[trigger] contents@[k] != ContentType::Video && contents@[k] != ContentType::Game,
            decreases contents@.len() - i,
        {
            if contents[i] == ContentType::Video || contents[i] == ContentType::Game {
                return true;
            }
            i += 1;
        }
        self.idle_inhibitors.len() > 0
    }
}

proof fn lemma_other_surfaces(surfaces: Seq<SurfaceId>, surface: SurfaceId)
    ensures
        !other_surfaces(surfaces, surface).contains(surface),
        !surfaces.contains(surface) ==> other_surfaces(surfaces, surface) == surfaces,
    decreases surfaces.len(),
{
    if surfaces.len() > 0 {
        let init = surfaces.drop_last();
        lemma_other_surfaces(init, surface);
        let rest = other_surfaces(init, surface);
        if init.contains(surface) {
            let k = choose|k: int| 0 <= k < init.len() && init[k] == surface;
            assert(surfaces[k] == surface);
        }
        assert(surfaces[surfaces.len() - 1] == surfaces.last());
        assert(init.push(surfaces.last()) =~= surfaces);
        let grown = rest.push(surfaces.last());
        if grown.contains(surface) && surfaces.last() != surface {
            let k = choose|k: int| 0 <= k < grown.len() && grown[k] == surface;
            assert(rest[k] == surface);
        }
    }
}

/// A surface that withdraws its inhibitor holds none, and withdrawing a new
/// inhibitor leaves the others as they were.
pub proof fn law_uninhibit_undoes(s: SpikeView, surface: SurfaceId)
    requires
        !s.idle_inhibitors.contains(surface),
    ensures
        !uninhibited(s, surface).idle_inhibitors.contains(surface),
        uninhibited(inhibited(s, surface), surface) == s,
{
    lemma_other_surfaces(s.idle_inhibitors, surface);
    assert(s.idle_inhibitors.push(surface).drop_last() =~= s.idle_inhibitors);
    assert(uninhibited(inhibited(s, surface), surface) =~= s);
}

/// The screen stays awake for as long as anyone asks, each client for itself: one that asks
/// twice counts once, and one that stops leaves the others in force.
pub proof fn law_each_inhibitor_counts(s: SpikeView, surface: SurfaceId, other: SurfaceId)
    ensures
        inhibited(s, surface).idle_inhibitors.contains(surface),
        inhibited(inhibited(s, surface), surface) == inhibited(s, surface),
        other != surface ==> (inhibited(s, surface).idle_inhibitors.contains(other) <==> s.idle_inhibitors.contains(
            other,
        )),
        !uninhibited(s, surface).idle_inhibitors.contains(surface),
        other != surface ==> (uninhibited(s, surface).idle_inhibitors.contains(other) <==> s.idle_inhibitors.contains(
            other,
        )),
{
    lemma_others_remain(s.idle_inhibitors, surface, surface);
    lemma_others_remain(s.idle_inhibitors, surface, other);
    let after = inhibited(s, surface).idle_inhibitors;
    if !s.idle_inhibitors.contains(surface) {
        assert(after[s.idle_inhibitors.len() as int] == surface);
        if s.idle_inhibitors.contains(other) {
            let k = choose|k: int| 0 <= k < s.idle_inhibitors.len() && s.idle_inhibitors[k] == other;
            assert(after[k] == other);
        }
    }
}

proof fn lemma_others_remain(surfaces: Seq<SurfaceId>, surface: SurfaceId, other: SurfaceId)
    ensures
        other_surfaces(surfaces, surface).contains(other) <==> surfaces.contains(other) && other != surface,
    decreases surfaces.len(),
{
    if surfaces.len() > 0 {
        let front = surfaces.drop_last();
        lemma_others_remain(front, surface, other);
        let rest = other_surfaces(front, surface);
        let all = other_surfaces(surfaces, surface);
        if rest.contains(other) {
            let k = choose|k: int| 0 <= k < rest.len() && rest[k] == other;
            assert(all[k] == other);
            let j = choose|j: int| 0 <= j < front.len() && front[j] == other;
            assert(surfaces[j] == other);
        }
        if surfaces.last() == other && other != surface {
            assert(all[rest.len() as int] == other);
            assert(surfaces[surfaces.len() - 1] == other);
        }
        if surfaces.contains(other) && surfaces.last() != other {
            let j = choose|j: int| 0 <= j < surfaces.len() && surfaces[j] == other;
            assert(front[j] == other);
        }
        if all.contains(other) {
            let k = choose|k: int| 0 <= k < all.len() && all[k] == other;
            if k < rest.len() {
                assert(rest[k] == other);
            } else {
                assert(surfaces[surfaces.len() - 1] == other);
            }
        }
    }
}

/// Films and games keep the screen awake, still contents do not.
pub proof fn law_motion_keeps_awake(contents: Seq<ContentType>)
    ensures
        shows_motion(contents) <==> exists|i: int|
            0 <= i < contents.len() && (#[trigger] contents[i] is Video || contents[i] is Game),
        shows_motion(contents) <==> !(forall|i: int|
            0 <= i < contents.len() ==> (#[trigger] contents[i] is Plain || contents[i] is Photo)),
{
    if shows_motion(contents) {
        let i = choose|i: int|
            0 <= i < contents.len() && (#[trigger] contents[i] == ContentType::Video || contents[i] == ContentType::Game);
        assert(contents[i] is Video || contents[i] is Game);
    }
    if exists|i: int| 0 <= i < contents.len() && (#[trigger] contents[i] is Video || contents[i] is Game) {
        let i = choose|i: int| 0 <= i < contents.len() && (#[trigger] contents[i] is Video || contents[i] is Game);
        assert(contents[i] == ContentType::Video || contents[i] == ContentType::Game);
    }
}

} // verus!
