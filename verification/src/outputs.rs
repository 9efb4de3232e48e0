//! The outputs, and which surfaces are on them.

use std::collections::HashMap;

use vstd::prelude::*;

use crate::state::{CursorStatus, OutputId, SpikeState, SpikeView};
use crate::surface::SurfaceId;

verus! {

/// An output's size in pixels and its refresh rate in thousandths of a hertz.
#[derive(Clone, Copy, Debug, PartialEq, Eq, Structural)]
pub struct OutputMode {
    pub w: i32,
    pub h: i32,
    pub refresh: i32,
}

pub open spec fn other_than(output: OutputId) -> spec_fn(OutputId) -> bool {
    |o: OutputId| o != output
}

/// The outputs other than `output`, in order.
pub open spec fn other_outputs(outputs: Seq<OutputId>, output: OutputId) -> Seq<OutputId> {
    outputs.filter(other_than(output))
}

pub open spec fn first_output(outputs: Seq<OutputId>) -> Option<OutputId> {
    if outputs.len() > 0 {
        Some(outputs[0])
    } else {
        None
    }
}

/// The state after `output` was connected.
pub open spec fn output_registered(s: SpikeView, output: OutputId) -> SpikeView {
    SpikeView {
        output: if s.output is None {
            Some(output)
        } else {
            s.output
        },
        outputs: if s.outputs.contains(output) {
            s.outputs
        } else {
            s.outputs.push(output)
        },
        ..s
    }
}

/// The state after `output` was disconnected.
pub open spec fn output_unregistered(s: SpikeView, output: OutputId) -> SpikeView {
    let rest = other_outputs(s.outputs, output);
    SpikeView {
        outputs: rest,
        output: if s.output == Some(output) {
            first_output(rest)
        } else {
            s.output
        },
        ..s
    }
}

pub open spec fn primary(s: SpikeView) -> Option<OutputId> {
    match s.output {
        Some(o) => Some(o),
        None => first_output(s.outputs),
    }
}

/// The output of each root surface, in the order in which they are refreshed:
/// windows, popups, layers, lock surfaces, the pointer and the drag icon.
pub open spec fn bound_roots(s: SpikeView, layer_outputs: Seq<OutputId>, on: OutputId) -> Seq<(SurfaceId, OutputId)> {
    Seq::new(s.toplevels.len(), |i: int| (s.toplevels[i].surface, on))
        + Seq::new(s.popups.len(), |i: int| (s.popups[i].surface, on))
        + Seq::new(s.layer_surfaces.len(), |i: int| (s.layer_surfaces[i].surface, layer_outputs[i]))
        + Seq::new(s.lock_surfaces.len(), |i: int| (s.lock_surfaces[i].surface, s.lock_surfaces[i].output))
        + (match s.cursor_status {
        CursorStatus::Surface(surface) => seq![(surface, on)],
        _ => Seq::empty(),
    }) + (match s.dnd_icon {
        Some(icon) => seq![(icon.surface, on)],
        None => Seq::empty(),
    })
}

/// Whether `r` is the first output that was entered.
pub open spec fn is_entered_output(outputs: Seq<OutputId>, entered: Seq<bool>, r: Option<OutputId>) -> bool {
    match r {
        Some(o) => exists|i: int|
            0 <= i < entered.len() && #[trigger] entered[i] && o == outputs[i] && forall|k: int|
                0 <= k < i ==> !(#[trigger] entered[k]),
        None => forall|k: int| 0 <= k < entered.len() ==> !(#[trigger] entered[k]),
    }
}

impl SpikeState {
    /// An output was connected. The first one is the primary output.
    pub fn register_output(&mut self, output: OutputId)
        ensures
            final(self)@ == output_registered(old(self)@, output),
    {
        if self.output.is_none() {
            self.output = Some(output);
        }
        let mut known: bool = false;
        let mut i: usize = 0;
        while i < self.outputs.len()
            invariant
                0 <= i <= self.outputs@.len(),
                known == self.outputs@.take(i as int).contains(output),
                self@ == (SpikeView { output: self.output, ..old(self)@ }),
            decreases self.outputs@.len() - i,
        {
            assert(self.outputs@.take(i + 1) =~= self.outputs@.take(i as int).push(self.outputs@[i as int]));
            if self.outputs[i] == output {
                known = true;
                assert(self.outputs@.take(i + 1)[i as int] == output);
            } else {
                proof {
                    let a = self.outputs@.take(i as int);
                    let b = self.outputs@.take(i + 1);
                    if a.contains(output) {
                        let k = choose|k: int| 0 <= k < a.len() && a[k] == output;
                        assert(b[k] == output);
                    }
                    if b.contains(output) {
                        let k = choose|k: int| 0 <= k < b.len() && b[k] == output;
                        assert(a[k] == output);
                    }
                }
            }
            i += 1;
        }
        assert(self.outputs@.take(i as int) =~= self.outputs@);
        if !known {
            self.outputs.push(output);
        }
        assert(self@ =~= output_registered(old(self)@, output));
    }

    /// An output was disconnected. The oldest of the others takes its place as
    /// the primary output.
    pub fn unregister_output(&mut self, output: OutputId)
        ensures
            final(self)@ == output_unregistered(old(self)@, output),
    {
        broadcast use vstd::seq_lib::group_filter_ensures;

        let mut rest: Vec<OutputId> = Vec::new();
        let mut i: usize = 0;
        assert(other_outputs(self.outputs@.take(0), output) =~= Seq::empty());
        while i < self.outputs.len()
            invariant
                0 <= i <= self.outputs@.len(),
                *self == *old(self),
                rest@ == other_outputs(self.outputs@.take(i as int), output),
            decreases self.outputs@.len() - i,
        {
            proof {
                assert(self.outputs@.take(i + 1).drop_last() =~= self.outputs@.take(i as int));
                reveal(Seq::filter);
            }
            if self.outputs[i] != output {
                rest.push(self.outputs[i]);
            }
            i += 1;
        }
        assert(self.outputs@.take(i as int) =~= self.outputs@);
        self.outputs = rest;
        if self.output == Some(output) {
            self.output = if self.outputs.len() > 0 {
                Some(self.outputs[0])
            } else {
                None
            };
        }
        assert(self@ =~= output_unregistered(old(self)@, output));
    }

    pub fn primary_output(&self) -> (r: Option<OutputId>)
        ensures
            r == primary(self@),
    {
        match self.output {
            Some(o) => Some(o),
            None => if self.outputs.len() > 0 {
                Some(self.outputs[0])
            } else {
                None
            },
        }
    }

    /// The output that a surface is taken to be on: the first one that its client
    /// uses. `entered` tells for each output whether the client does.
    pub fn output_for_surface(&self, entered: &Vec<bool>) -> (r: Option<OutputId>)
        requires
            entered@.len() == self.outputs@.len(),
        ensures
            is_entered_output(self@.outputs, entered@, r),
    {
        let mut i: usize = 0;
        while i < entered.len()
            invariant
                0 <= i <= entered@.len(),
                entered@.len() == self.outputs@.len(),
                forall|k: int| 0 <= k < i ==> !(#[trigger] entered@[k]),
            decreases entered@.len() - i,
        {
            if entered[i] {
                return Some(self.outputs[i]);
            }
            i += 1;
        }
        None
    }

    /// Which output each mapped root surface is to be told of; none while there
    /// is no output. `layer_outputs` gives the output of each layer.
    pub fn surface_roots(&self, layer_outputs: &Vec<OutputId>) -> (roots: Vec<(SurfaceId, OutputId)>)
        requires
            layer_outputs@.len() == self.layer_surfaces@.len(),
        ensures
            roots@ == self.roots_on(layer_outputs@),
    {
        let mut roots: Vec<(SurfaceId, OutputId)> = Vec::new();
        let on = match self.primary_output() {
            Some(o) => o,
            None => {
                return roots;
            },
        };
        let mut i: usize = 0;
        while i < self.toplevels.len()
            invariant
                0 <= i <= self.toplevels@.len(),
                roots@ == Seq::new(i as nat, |k: int| (self@.toplevels[k].surface, on)),
            decreases self.toplevels@.len() - i,
        {
            roots.push((self.toplevels[i].surface, on));
            i += 1;
        }
        let ghost done = roots@;
        let mut j: usize = 0;
        while j < self.popups.len()
            invariant
                0 <= j <= self.popups@.len(),
                roots@ == done + Seq::new(j as nat, |k: int| (self@.popups[k].surface, on)),
            decreases self.popups@.len() - j,
        {
            roots.push((self.popups[j].surface, on));
            j += 1;
        }
        let ghost done = roots@;
        let mut l: usize = 0;
        while l < self.layer_surfaces.len()
            invariant
                0 <= l <= self.layer_surfaces@.len(),
                layer_outputs@.len() == self.layer_surfaces@.len(),
                roots@ == done + Seq::new(l as nat, |k: int| (self@.layer_surfaces[k].surface, layer_outputs@[k])),
            decreases self.layer_surfaces@.len() - l,
        {
            roots.push((self.layer_surfaces[l].surface, layer_outputs[l]));
            l += 1;
        }
        let ghost done = roots@;
        let mut m: usize = 0;
        while m < self.lock_surfaces.len()
            invariant
                0 <= m <= self.lock_surfaces@.len(),
                roots@ == done + Seq::new(
                    m as nat,
                    |k: int| (self@.lock_surfaces[k].surface, self@.lock_surfaces[k].output),
                ),
            decreases self.lock_surfaces@.len() - m,
        {
            roots.push((self.lock_surfaces[m].surface, self.lock_surfaces[m].output));
            m += 1;
        }
        if let CursorStatus::Surface(surface) = self.cursor_status {
            roots.push((surface, on));
        }
        if let Some(icon) = self.dnd_icon {
            roots.push((icon.surface, on));
        }
        assert(roots@ =~= bound_roots(self@, layer_outputs@, on));
        roots
    }
}

/// What the surfaces of one tree leave behind.
pub open spec fn bound_upto(m: Map<SurfaceId, OutputId>, tree: Seq<SurfaceId>, output: OutputId, n: int) -> Map<
    SurfaceId,
    OutputId,
>
    decreases n,
{
    if n <= 0 {
        m
    } else {
        bound_upto(m, tree, output, n - 1).insert(tree[n - 1], output)
    }
}

/// The surfaces of the tree that leave another output, each with that output.
pub open spec fn left_upto(m: Map<SurfaceId, OutputId>, tree: Seq<SurfaceId>, output: OutputId, n: int) -> Seq<
    (SurfaceId, OutputId),
>
    decreases n,
{
    if n <= 0 {
        Seq::empty()
    } else {
        let before = bound_upto(m, tree, output, n - 1);
        let left = left_upto(m, tree, output, n - 1);
        let surface = tree[n - 1];
        if before.contains_key(surface) && before[surface] != output {
            left.push((surface, before[surface]))
        } else {
            left
        }
    }
}

/// Records that every surface of a tree is on `output`. Returns the surfaces that
/// have to leave the output they were on before.
pub fn refresh_surface_tree_output(
    surface_outputs: &mut HashMap<SurfaceId, OutputId>,
    tree: &Vec<SurfaceId>,
    output: OutputId,
) -> (left: Vec<(SurfaceId, OutputId)>)
    ensures
        final(surface_outputs)@ == bound_upto(old(surface_outputs)@, tree@, output, tree@.len() as int),
        left@ == left_upto(old(surface_outputs)@, tree@, output, tree@.len() as int),
{
    broadcast use vstd::std_specs::hash::group_hash_axioms;

    let mut left: Vec<(SurfaceId, OutputId)> = Vec::new();
    let mut i: usize = 0;
    while i < tree.len()
        invariant
            0 <= i <= tree@.len(),
            surface_outputs@ == bound_upto(old(surface_outputs)@, tree@, output, i as int),
            left@ == left_upto(old(surface_outputs)@, tree@, output, i as int),
        decreases tree@.len() - i,
    {
        let surface: SurfaceId = tree[i];
        if let Some(previous) = surface_outputs.insert(surface, output) {
            if previous != output {
                left.push((surface, previous));
            }
        }
        i += 1;
    }
    left
}

/// The outputs of all surfaces after the first `n` trees were refreshed.
pub open spec fn all_bound(
    m: Map<SurfaceId, OutputId>,
    roots: Seq<(SurfaceId, OutputId)>,
    trees: Seq<Vec<SurfaceId>>,
    n: int,
) -> Map<SurfaceId, OutputId>
    decreases n,
{
    if n <= 0 {
        m
    } else {
        bound_upto(all_bound(m, roots, trees, n - 1), trees[n - 1]@, roots[n - 1].1, trees[n - 1]@.len() as int)
    }
}

/// The surfaces that leave an output while the first `n` trees are refreshed.
pub open spec fn all_left(
    m: Map<SurfaceId, OutputId>,
    roots: Seq<(SurfaceId, OutputId)>,
    trees: Seq<Vec<SurfaceId>>,
    n: int,
) -> Seq<(SurfaceId, OutputId)>
    decreases n,
{
    if n <= 0 {
        Seq::empty()
    } else {
        all_left(m, roots, trees, n - 1) + left_upto(
            all_bound(m, roots, trees, n - 1),
            trees[n - 1]@,
            roots[n - 1].1,
            trees[n - 1]@.len() as int,
        )
    }
}

impl SpikeState {
    /// What `surface_roots` returns.
    pub open spec fn roots_on(&self, layer_outputs: Seq<OutputId>) -> Seq<(SurfaceId, OutputId)> {
        match primary(self@) {
            Some(on) => bound_roots(self@, layer_outputs, on),
            None => Seq::empty(),
        }
    }

    /// Records the output of every surface of every mapped tree; `trees` holds the
    /// surfaces below each root. Returns the surfaces that have to leave the
    /// output they were on before.
    pub fn refresh_surface_outputs(
        &self,
        surface_outputs: &mut HashMap<SurfaceId, OutputId>,
        layer_outputs: &Vec<OutputId>,
        trees: &Vec<Vec<SurfaceId>>,
    ) -> (left: Vec<(SurfaceId, OutputId)>)
        requires
            layer_outputs@.len() == self.layer_surfaces@.len(),
            trees@.len() == self.roots_on(layer_outputs@).len(),
        ensures
            final(surface_outputs)@ == all_bound(
                old(surface_outputs)@,
                self.roots_on(layer_outputs@),
                trees@,
                trees@.len() as int,
            ),
            left@ == all_left(
                old(surface_outputs)@,
                self.roots_on(layer_outputs@),
                trees@,
                trees@.len() as int,
            ),
    {
        let roots = self.surface_roots(layer_outputs);
        let mut left: Vec<(SurfaceId, OutputId)> = Vec::new();
        let mut i: usize = 0;
        while i < trees.len()
            invariant
                0 <= i <= trees@.len(),
                trees@.len() == roots@.len(),
                surface_outputs@ == all_bound(old(surface_outputs)@, roots@, trees@, i as int),
                left@ == all_left(old(surface_outputs)@, roots@, trees@, i as int),
            decreases trees@.len() - i,
        {
            let mut gone = refresh_surface_tree_output(surface_outputs, &trees[i], roots[i].1);
            left.append(&mut gone);
            i += 1;
        }
        left
    }

    /// The same, under the name that the frame loop knows it by.
    pub fn bind_surfaces_to_output(
        &self,
        surface_outputs: &mut HashMap<SurfaceId, OutputId>,
        layer_outputs: &Vec<OutputId>,
        trees: &Vec<Vec<SurfaceId>>,
    ) -> (left: Vec<(SurfaceId, OutputId)>)
        requires
            layer_outputs@.len() == self.layer_surfaces@.len(),
            trees@.len() == self.roots_on(layer_outputs@).len(),
        ensures
            final(surface_outputs)@ == all_bound(
                old(surface_outputs)@,
                self.roots_on(layer_outputs@),
                trees@,
                trees@.len() as int,
            ),
            left@ == all_left(
                old(surface_outputs)@,
                self.roots_on(layer_outputs@),
                trees@,
                trees@.len() as int,
            ),
    {
        self.refresh_surface_outputs(surface_outputs, layer_outputs, trees)
    }
}

/// Afterwards every surface of the tree is on the output, and no other surface
/// has moved.
pub proof fn law_tree_on_one_output(
    m: Map<SurfaceId, OutputId>,
    tree: Seq<SurfaceId>,
    output: OutputId,
    n: int,
    surface: SurfaceId,
)
    requires
        0 <= n <= tree.len(),
    ensures
        ({
            let after = bound_upto(m, tree, output, n);
            if tree.take(n).contains(surface) {
                after.contains_key(surface) && after[surface] == output
            } else {
                (after.contains_key(surface) <==> m.contains_key(surface)) && (m.contains_key(surface)
                    ==> after[surface] == m[surface])
            }
        }),
    decreases n,
{
    if n > 0 {
        law_tree_on_one_output(m, tree, output, n - 1, surface);
        let shorter = tree.take(n - 1);
        let longer = tree.take(n);
        assert(longer[n - 1] == tree[n - 1]);
        if shorter.contains(surface) {
            let k = choose|k: int| 0 <= k < shorter.len() && shorter[k] == surface;
            assert(longer[k] == surface);
        }
        if longer.contains(surface) && surface != tree[n - 1] {
            let k = choose|k: int| 0 <= k < longer.len() && longer[k] == surface;
            assert(shorter[k] == surface);
        }
    }
}

/// As long as an output is connected there is a primary one, and it is connected.
pub proof fn law_primary_is_connected(s: SpikeView, output: OutputId)
    requires
        s.output is None ==> s.outputs.len() == 0,
        s.output matches Some(o) ==> s.outputs.contains(o),
    ensures
        ({
            let added = output_registered(s, output);
            let removed = output_unregistered(s, output);
            &&& primary(added) is Some
            &&& added.outputs.contains(primary(added)->0)
            &&& primary(removed) is Some <==> removed.outputs.len() > 0
            &&& primary(removed) matches Some(o) ==> removed.outputs.contains(o)
        }),
{
    broadcast use vstd::seq_lib::group_filter_ensures;

    let added = output_registered(s, output);
    if s.output is Some {
        let o = s.output->0;
        let k = choose|k: int| 0 <= k < s.outputs.len() && s.outputs[k] == o;
        assert(added.outputs[k] == o);
    } else {
        assert(added.outputs[added.outputs.len() - 1] == output);
    }
    let removed = output_unregistered(s, output);
    if s.output is Some && s.output != Some(output) {
        let o = s.output->0;
        assert(other_than(output)(o));
        assert(removed.outputs.contains(o));
        let k = choose|k: int| 0 <= k < removed.outputs.len() && removed.outputs[k] == o;
        assert(removed.outputs.len() > 0);
    } else if removed.outputs.len() > 0 {
        assert(removed.outputs.contains(removed.outputs[0]));
        assert(removed.outputs.len() <= s.outputs.len());
    }
}

/// A connected output is listed once, behind the others, and the first one ever
/// becomes the primary one.
pub proof fn law_output_connects(s: SpikeView, output: OutputId)
    ensures
        ({
            let after = output_registered(s, output);
            &&& s.outputs.contains(output) ==> after.outputs == s.outputs
            &&& !s.outputs.contains(output) ==> after.outputs == s.outputs + seq![output]
            &&& s.output is None ==> after.output == Some(output)
            &&& s.output is Some ==> after.output == s.output
            &&& output_registered(after, output) == after
            &&& after.toplevels == s.toplevels
        }),
{
    let after = output_registered(s, output);
    if !s.outputs.contains(output) {
        assert(s.outputs.push(output) =~= s.outputs + seq![output]);
        assert(after.outputs[s.outputs.len() as int] == output);
    }
    assert(after.outputs.contains(output));
}

/// A disconnected output is listed no more and the others stay in their order. If it
/// was the primary one, the first of those left takes its place.
pub proof fn law_output_disconnects(s: SpikeView, output: OutputId)
    ensures
        ({
            let after = output_unregistered(s, output);
            let rest = s.outputs.filter(|o: OutputId| o != output);
            &&& after.outputs == rest
            &&& s.output != Some(output) ==> after.output == s.output
            &&& s.output == Some(output) && rest.len() > 0 ==> after.output == Some(rest[0])
            &&& s.output == Some(output) && rest.len() == 0 ==> after.output is None
            &&& after.toplevels == s.toplevels
        }),
{
    assert(other_than(output) =~= |o: OutputId| o != output);
}

/// The primary output is the one chosen for it; with none chosen it is the first.
pub proof fn law_primary_output(s: SpikeView)
    ensures
        s.output is Some ==> primary(s) == s.output,
        s.output is None && s.outputs.len() > 0 ==> primary(s) == Some(s.outputs[0]),
        s.output is None && s.outputs.len() == 0 ==> primary(s) is None,
{
}

/// An output that a surface has entered is found whenever there is one: an entered
/// one, and none before it was entered.
pub proof fn law_entered_output_is_found(outputs: Seq<OutputId>, entered: Seq<bool>, r: Option<OutputId>, i: int)
    requires
        outputs.len() == entered.len(),
        is_entered_output(outputs, entered, r),
        0 <= i < entered.len(),
        entered[i],
        forall|k: int| 0 <= k < i ==> !(#[trigger] entered[k]),
    ensures
        r == Some(outputs[i]),
{
    if r is Some {
        let j = choose|j: int|
            0 <= j < entered.len() && #[trigger] entered[j] && r->0 == outputs[j] && forall|k: int|
                0 <= k < j ==> !(#[trigger] entered[k]);
        if j < i {
            assert(!entered[j]);
        } else if i < j {
            assert(!entered[i]);
        }
    }
}

/// Windows, popups, the pointer and a dragged icon are on the primary output; a layer
/// surface is on the one that it is laid out for, and a lock surface on its own.
pub proof fn law_surfaces_have_their_output(s: SpikeView, layer_outputs: Seq<OutputId>, on: OutputId, i: int)
    requires
        layer_outputs.len() == s.layer_surfaces.len(),
    ensures
        ({
            let roots = bound_roots(s, layer_outputs, on);
            &&& 0 <= i < s.toplevels.len() ==> roots.contains((s.toplevels[i].surface, on))
            &&& 0 <= i < s.popups.len() ==> roots.contains((s.popups[i].surface, on))
            &&& 0 <= i < s.layer_surfaces.len() ==> roots.contains((s.layer_surfaces[i].surface, layer_outputs[i]))
            &&& 0 <= i < s.lock_surfaces.len() ==> roots.contains(
                (s.lock_surfaces[i].surface, s.lock_surfaces[i].output),
            )
            &&& (s.cursor_status matches CursorStatus::Surface(c) ==> roots.contains((c, on)))
            &&& (s.dnd_icon matches Some(icon) ==> roots.contains((icon.surface, on)))
            &&& roots.len() == s.toplevels.len() + s.popups.len() + s.layer_surfaces.len() + s.lock_surfaces.len()
                + (if s.cursor_status is Surface { 1int } else { 0 }) + (if s.dnd_icon is Some { 1int } else { 0 })
        }),
{
    let roots = bound_roots(s, layer_outputs, on);
    let a = s.toplevels.len() as int;
    let b = a + s.popups.len();
    let c = b + s.layer_surfaces.len();
    let d = c + s.lock_surfaces.len();
    if 0 <= i < s.toplevels.len() {
        assert(roots[i] == (s.toplevels[i].surface, on));
    }
    if 0 <= i < s.popups.len() {
        assert(roots[a + i] == (s.popups[i].surface, on));
    }
    if 0 <= i < s.layer_surfaces.len() {
        assert(roots[b + i] == (s.layer_surfaces[i].surface, layer_outputs[i]));
    }
    if 0 <= i < s.lock_surfaces.len() {
        assert(roots[c + i] == (s.lock_surfaces[i].surface, s.lock_surfaces[i].output));
    }
    if let CursorStatus::Surface(p) = s.cursor_status {
        assert(roots[d] == (p, on));
    }
    if let Some(icon) = s.dnd_icon {
        let e = d + if s.cursor_status is Surface { 1int } else { 0 };
        assert(roots[e] == (icon.surface, on));
    }
}

proof fn lemma_left_has(m: Map<SurfaceId, OutputId>, tree: Seq<SurfaceId>, output: OutputId, n: int, k: int)
    requires
        0 <= n <= tree.len(),
        0 <= k < left_upto(m, tree, output, n).len(),
    ensures
        ({
            let (s, o) = left_upto(m, tree, output, n)[k];
            tree.take(n).contains(s) && m.contains_key(s) && m[s] == o && o != output
        }),
    decreases n,
{
    if n > 0 {
        let s = tree[n - 1];
        law_tree_on_one_output(m, tree, output, n - 1, s);
        assert(tree.take(n)[n - 1] == s);
        if k < left_upto(m, tree, output, n - 1).len() {
            lemma_left_has(m, tree, output, n - 1, k);
            let (t, o) = left_upto(m, tree, output, n - 1)[k];
            let front = tree.take(n - 1);
            let j = choose|j: int| 0 <= j < front.len() && front[j] == t;
            assert(tree.take(n)[j] == t);
        }
    }
}

proof fn lemma_left_all(m: Map<SurfaceId, OutputId>, tree: Seq<SurfaceId>, output: OutputId, n: int, s: SurfaceId)
    requires
        0 <= n <= tree.len(),
        tree.take(n).contains(s),
        m.contains_key(s),
        m[s] != output,
    ensures
        left_upto(m, tree, output, n).contains((s, m[s])),
    decreases n,
{
    if n > 0 {
        law_tree_on_one_output(m, tree, output, n - 1, s);
        let j = choose|j: int| 0 <= j < tree.take(n).len() && tree.take(n)[j] == s;
        let left = left_upto(m, tree, output, n);
        let before = left_upto(m, tree, output, n - 1);
        if tree.take(n - 1).contains(s) {
            lemma_left_all(m, tree, output, n - 1, s);
            let k = choose|k: int| 0 <= k < before.len() && before[k] == (s, m[s]);
            assert(left[k] == (s, m[s]));
        } else {
            if j < n - 1 {
                assert(tree.take(n - 1)[j] == s);
            }
            assert(left[left.len() - 1] == (s, m[s]));
        }
    }
}

/// A surface leaves an output exactly when it was bound to another one than its tree
/// is on now, and it is that other one that it leaves.
pub proof fn law_old_output_is_left(
    m: Map<SurfaceId, OutputId>,
    tree: Seq<SurfaceId>,
    output: OutputId,
    s: SurfaceId,
    o: OutputId,
)
    ensures
        left_upto(m, tree, output, tree.len() as int).contains((s, o)) <==> tree.contains(s) && m.contains_key(s)
            && m[s] == o && o != output,
{
    let left = left_upto(m, tree, output, tree.len() as int);
    assert(tree.take(tree.len() as int) =~= tree);
    if left.contains((s, o)) {
        let k = choose|k: int| 0 <= k < left.len() && left[k] == (s, o);
        lemma_left_has(m, tree, output, tree.len() as int, k);
    }
    if tree.contains(s) && m.contains_key(s) && m[s] == o && o != output {
        lemma_left_all(m, tree, output, tree.len() as int, s);
    }
}

/// Every surface ends up on the output of the last tree that it belongs to, and a
/// surface of no tree stays where it was.
pub proof fn law_all_trees_are_bound(
    m: Map<SurfaceId, OutputId>,
    roots: Seq<(SurfaceId, OutputId)>,
    trees: Seq<Vec<SurfaceId>>,
    n: int,
    s: SurfaceId,
    k: int,
)
    requires
        0 <= n <= trees.len(),
        n <= roots.len(),
    ensures
        0 <= k < n && trees[k]@.contains(s) && (forall|j: int| k < j < n ==> !(#[trigger] trees[j])@.contains(s)) ==> {
            &&& all_bound(m, roots, trees, n).contains_key(s)
            &&& all_bound(m, roots, trees, n)[s] == roots[k].1
        },
        (forall|j: int| 0 <= j < n ==> !(#[trigger] trees[j])@.contains(s)) ==> {
            &&& all_bound(m, roots, trees, n).contains_key(s) <==> m.contains_key(s)
            &&& m.contains_key(s) ==> all_bound(m, roots, trees, n)[s] == m[s]
        },
    decreases n,
{
    if n > 0 {
        let before = all_bound(m, roots, trees, n - 1);
        let tree = trees[n - 1]@;
        law_tree_on_one_output(before, tree, roots[n - 1].1, tree.len() as int, s);
        assert(tree.take(tree.len() as int) =~= tree);
        law_all_trees_are_bound(m, roots, trees, n - 1, s, k);
    }
}

/// What all surfaces leave is what the surfaces of each tree leave, tree after tree.
pub proof fn law_all_old_outputs_are_left(
    m: Map<SurfaceId, OutputId>,
    roots: Seq<(SurfaceId, OutputId)>,
    trees: Seq<Vec<SurfaceId>>,
    n: int,
    s: SurfaceId,
    o: OutputId,
)
    requires
        0 <= n <= trees.len(),
        n <= roots.len(),
    ensures
        all_left(m, roots, trees, n).contains((s, o)) <==> exists|k: int|
            0 <= k < n && (#[trigger] trees[k])@.contains(s) && all_bound(m, roots, trees, k).contains_key(s)
                && all_bound(m, roots, trees, k)[s] == o && o != roots[k].1,
    decreases n,
{
    if n > 0 {
        law_all_old_outputs_are_left(m, roots, trees, n - 1, s, o);
        let before = all_left(m, roots, trees, n - 1);
        let tree = trees[n - 1]@;
        let bound = all_bound(m, roots, trees, n - 1);
        let here = left_upto(bound, tree, roots[n - 1].1, tree.len() as int);
        let all = all_left(m, roots, trees, n);
        law_old_output_is_left(bound, tree, roots[n - 1].1, s, o);
        if before.contains((s, o)) {
            let k = choose|k: int| 0 <= k < before.len() && before[k] == (s, o);
            assert(all[k] == (s, o));
        }
        if here.contains((s, o)) {
            let k = choose|k: int| 0 <= k < here.len() && here[k] == (s, o);
            assert(all[before.len() + k] == (s, o));
        }
        if all.contains((s, o)) {
            let k = choose|k: int| 0 <= k < all.len() && all[k] == (s, o);
            if k < before.len() {
                assert(before[k] == (s, o));
            } else {
                assert(here[k - before.len()] == (s, o));
            }
        }
    }
}

} // verus!
