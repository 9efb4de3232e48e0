//! When frames are shown, and which surfaces are told of it.

use vstd::prelude::*;

use crate::outputs::OutputMode;
use crate::state::{SpikeState, SpikeView};
use crate::surface::SurfaceId;

verus! {

/// The time between two frames at sixty hertz, in nanoseconds.
pub const REFRESH_60HZ_NS: u64 = 16_666_667;

/// A million million: nanoseconds times thousandths of a hertz.
pub const NANOS_PER_MILLIHERTZ: u64 = 1_000_000_000_000;

/// The time between two frames of an output.
pub open spec fn refresh_nanos(mode: Option<OutputMode>) -> int {
    match mode {
        Some(m) => if m.refresh > 0 {
            NANOS_PER_MILLIHERTZ as int / m.refresh as int
        } else {
            REFRESH_60HZ_NS as int
        },
        None => REFRESH_60HZ_NS as int,
    }
}

pub fn refresh_nanos_for(mode: Option<OutputMode>) -> (r: u64)
    ensures
        r == refresh_nanos(mode),
{
    match mode {
        Some(m) => if m.refresh > 0 {
            NANOS_PER_MILLIHERTZ / m.refresh as u64
        } else {
            REFRESH_60HZ_NS
        },
        None => REFRESH_60HZ_NS,
    }
}

/// The first occurrence of each value, in order.
pub open spec fn distinct(s: Seq<u64>) -> Seq<u64>
    decreases s.len(),
{
    if s.len() == 0 {
        Seq::empty()
    } else {
        let rest = distinct(s.drop_last());
        if s.drop_last().contains(s.last()) {
            rest
        } else {
            rest.push(s.last())
        }
    }
}

proof fn lemma_distinct_members(s: Seq<u64>, x: u64)
    ensures
        distinct(s).contains(x) <==> s.contains(x),
    decreases s.len(),
{
    if s.len() > 0 {
        let init = s.drop_last();
        lemma_distinct_members(init, x);
        let rest = distinct(init);
        assert(s[s.len() - 1] == s.last());
        if init.contains(x) {
            let k = choose|k: int| 0 <= k < init.len() && init[k] == x;
            assert(s[k] == x);
        }
        if s.contains(x) && x != s.last() {
            let k = choose|k: int| 0 <= k < s.len() && s[k] == x;
            assert(init[k] == x);
        }
        let grown = rest.push(s.last());
        assert(grown[grown.len() - 1] == s.last());
        if rest.contains(x) {
            let k = choose|k: int| 0 <= k < rest.len() && rest[k] == x;
            assert(grown[k] == x);
        }
        if grown.contains(x) && x != s.last() {
            let k = choose|k: int| 0 <= k < grown.len() && grown[k] == x;
            assert(rest[k] == x);
        }
    }
}

/// The values of `s` without repetitions, each where it first occurs.
pub fn first_occurrences(s: &Vec<u64>) -> (r: Vec<u64>)
    ensures
        r@ == distinct(s@),
{
    let mut r: Vec<u64> = Vec::new();
    let mut i: usize = 0;
    assert(distinct(s@.take(0)) =~= Seq::empty());
    while i < s.len()
        invariant
            0 <= i <= s@.len(),
            r@ == distinct(s@.take(i as int)),
        decreases s@.len() - i,
    {
        assert(s@.take(i + 1).drop_last() =~= s@.take(i as int));
        let mut known: bool = false;
        let mut k: usize = 0;
        while k < r.len() && !known
            invariant
                0 <= k <= r@.len(),
                i < s@.len(),
                known ==> r@.contains(s@[i as int]),
                !known ==> forall|j: int| 0 <= j < k ==> #[trigger] r@[j] != s@[i as int],
            decreases r@.len() - k,
        {
            if r[k] == s[i] {
                known = true;
            }
            k += 1;
        }
        proof {
            lemma_distinct_members(s@.take(i as int), s@[i as int]);
        }
        if !known {
            r.push(s[i]);
        }
        i += 1;
    }
    assert(s@.take(i as int) =~= s@);
    r
}

/// The surfaces whose pending frames are released: every window's, then every
/// layer's.
pub open spec fn driven(s: SpikeView) -> Seq<SurfaceId> {
    Seq::new(s.toplevels.len(), |i: int| s.toplevels[i].surface) + Seq::new(
        s.layer_surfaces.len(),
        |i: int| s.layer_surfaces[i].surface,
    )
}

impl SpikeState {
    /// The time between two frames that is reported when a frame was shown;
    /// nothing is reported unless some surface waits for it.
    pub fn send_presentation_feedback_for(&self, waiting: usize, mode: Option<OutputMode>) -> (r: Option<u64>)
        ensures
            r == if waiting == 0 {
                None::<u64>
            } else {
                Some(refresh_nanos(mode) as u64)
            },
            r matches Some(nanos) ==> nanos == refresh_nanos(mode),
    {
        if waiting == 0 {
            return None;
        }
        Some(refresh_nanos_for(mode))
    }

    /// The surfaces that a frame callback goes to, each once. `surfaces` are those
    /// that the frame shows.
    pub fn send_frame_callbacks_for_render_state(&self, surfaces: &Vec<SurfaceId>) -> (r: Vec<SurfaceId>)
        ensures
            r@ == distinct(surfaces@),
    {
        first_occurrences(surfaces)
    }

    /// The surfaces whose barriers are signalled before a frame is drawn,
    /// whether or not they are visible.
    pub fn driven_surfaces(&self) -> (r: Vec<SurfaceId>)
        ensures
            r@ == driven(self@),
    {
        let mut r: Vec<SurfaceId> = Vec::new();
        let mut i: usize = 0;
        while i < self.toplevels.len()
            invariant
                0 <= i <= self.toplevels@.len(),
                r@ == Seq::new(i as nat, |k: int| self@.toplevels[k].surface),
            decreases self.toplevels@.len() - i,
        {
            r.push(self.toplevels[i].surface);
            i += 1;
        }
        let ghost windows = r@;
        let mut j: usize = 0;
        while j < self.layer_surfaces.len()
            invariant
                0 <= j <= self.layer_surfaces@.len(),
                r@ == windows + Seq::new(j as nat, |k: int| self@.layer_surfaces[k].surface),
            decreases self.layer_surfaces@.len() - j,
        {
            r.push(self.layer_surfaces[j].surface);
            j += 1;
        }
        r
    }

    /// The clients whose queued commits are released before a frame is drawn,
    /// each once. `clients` holds the client of each driven surface that has one.
    pub fn pre_render_drive_clients(&self, clients: &Vec<Option<u64>>) -> (r: Vec<u64>)
        ensures
            r@ == distinct(present(clients@)),
    {
        let mut live: Vec<u64> = Vec::new();
        let mut i: usize = 0;
        assert(present(clients@.take(0)) =~= Seq::empty());
        while i < clients.len()
            invariant
                0 <= i <= clients@.len(),
                live@ == present(clients@.take(i as int)),
            decreases clients@.len() - i,
        {
            assert(clients@.take(i + 1).drop_last() =~= clients@.take(i as int));
            if let Some(c) = clients[i] {
                live.push(c);
            }
            i += 1;
        }
        assert(clients@.take(i as int) =~= clients@);
        first_occurrences(&live)
    }
}

/// The values that are there, in order.
pub open spec fn present(s: Seq<Option<u64>>) -> Seq<u64>
    decreases s.len(),
{
    if s.len() == 0 {
        Seq::empty()
    } else {
        match s.last() {
            Some(x) => present(s.drop_last()).push(x),
            None => present(s.drop_last()),
        }
    }
}

/// Nothing is left out and nothing occurs twice.
pub proof fn law_each_once(s: Seq<u64>)
    ensures
        forall|x: u64| distinct(s).contains(x) <==> s.contains(x),
        distinct(s).no_duplicates(),
    decreases s.len(),
{
    assert forall|x: u64| distinct(s).contains(x) <==> s.contains(x) by {
        lemma_distinct_members(s, x);
    }
    if s.len() > 0 {
        law_each_once(s.drop_last());
        let rest = distinct(s.drop_last());
        if !s.drop_last().contains(s.last()) {
            let grown = rest.push(s.last());
            assert forall|i: int, j: int| 0 <= i < j < grown.len() implies grown[i] != grown[j] by {
                if j == grown.len() - 1 && grown[i] == s.last() {
                    assert(rest[i] == s.last());
                    assert(rest.contains(s.last()));
                }
            }
        }
    }
}

/// A frame lasts as long as the refresh rate says: as many of them as the rate in
/// millihertz fill a thousand seconds, but for less than one of them. Without a rate it is
/// a sixtieth of a second.
pub proof fn law_frames_fill_the_second(mode: OutputMode)
    ensures
        mode.refresh > 0 ==> {
            let nanos = refresh_nanos(Some(mode));
            nanos * mode.refresh <= 1_000_000_000_000 < nanos * mode.refresh + mode.refresh
        },
        mode.refresh <= 0 ==> refresh_nanos(Some(mode)) == 16_666_667,
        refresh_nanos(None) == 16_666_667,
{
    if mode.refresh > 0 {
        let d = mode.refresh as int;
        let nanos = 1_000_000_000_000int / d;
        assert(nanos * d <= 1_000_000_000_000 < nanos * d + d) by (nonlinear_arith)
            requires
                nanos == 1_000_000_000_000int / d,
                d > 0,
        ;
    }
}

/// The surfaces that are driven are all windows, then all layer surfaces.
pub proof fn law_all_are_driven(s: SpikeView, i: int)
    ensures
        driven(s).len() == s.toplevels.len() + s.layer_surfaces.len(),
        0 <= i < s.toplevels.len() ==> driven(s)[i] == s.toplevels[i].surface,
        0 <= i < s.layer_surfaces.len() ==> driven(s)[s.toplevels.len() + i] == s.layer_surfaces[i].surface,
{
}

/// The clients that are known are those of the list, in its order.
pub proof fn law_known_clients(s: Seq<Option<u64>>)
    ensures
        present(s) == s.filter(|c: Option<u64>| c is Some).map_values(|c: Option<u64>| c->0),
    decreases s.len(),
{
    let known = |c: Option<u64>| c is Some;
    reveal(Seq::filter);
    if s.len() > 0 {
        law_known_clients(s.drop_last());
    }
    assert(present(s) =~= s.filter(known).map_values(|c: Option<u64>| c->0));
}

} // verus!
