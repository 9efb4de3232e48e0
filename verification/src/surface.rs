//! Surface identities, and the lists that are searched and pruned by them.

use vstd::prelude::*;

verus! {

/// Identifies a client surface for as long as it lives.
pub type SurfaceId = u64;

/// Something that belongs to one surface.
pub trait OnSurface: Sized {
    spec fn sid(&self) -> SurfaceId;

    fn surface_id(&self) -> (r: SurfaceId)
        ensures
            r == self.sid(),
    ;
}

/// The first index at or after `from` whose item belongs to `id`.
pub open spec fn index_from<T: OnSurface>(items: Seq<T>, id: SurfaceId, from: int) -> Option<int>
    decreases items.len() - from,
{
    if from < 0 || from >= items.len() {
        None
    } else if items[from].sid() == id {
        Some(from)
    } else {
        index_from(items, id, from + 1)
    }
}

/// The index of the first item that belongs to `id`.
pub open spec fn index_of<T: OnSurface>(items: Seq<T>, id: SurfaceId) -> Option<int> {
    index_from(items, id, 0)
}

/// Whether some item belongs to `id`.
pub open spec fn tracks<T: OnSurface>(items: Seq<T>, id: SurfaceId) -> bool {
    exists|i: int| 0 <= i < items.len() && (#[trigger] items[i]).sid() == id
}

/// The items that do not belong to `id`, in order.
pub open spec fn without<T: OnSurface>(items: Seq<T>, id: SurfaceId) -> Seq<T>
    decreases items.len(),
{
    if items.len() == 0 {
        Seq::empty()
    } else {
        let rest = without(items.drop_last(), id);
        if items.last().sid() == id {
            rest
        } else {
            rest.push(items.last())
        }
    }
}

pub proof fn lemma_index_from<T: OnSurface>(items: Seq<T>, id: SurfaceId, from: int)
    requires
        0 <= from <= items.len(),
    ensures
        match index_from(items, id, from) {
            Some(i) => from <= i < items.len() && items[i].sid() == id && forall|k: int|
                from <= k < i ==> (#[trigger] items[k]).sid() != id,
            None => forall|k: int| from <= k < items.len() ==> (#[trigger] items[k]).sid() != id,
        },
    decreases items.len() - from,
{
    if from < items.len() && items[from].sid() != id {
        lemma_index_from(items, id, from + 1);
    }
}

/// An item is found exactly when one is tracked.
pub proof fn lemma_index_of<T: OnSurface>(items: Seq<T>, id: SurfaceId)
    ensures
        index_of(items, id) is Some <==> tracks(items, id),
        index_of(items, id) matches Some(i) ==> 0 <= i < items.len() && items[i].sid() == id,
{
    lemma_index_from(items, id, 0);
}

/// Pruning removes every item of the surface and nothing else.
pub proof fn lemma_without<T: OnSurface>(items: Seq<T>, id: SurfaceId)
    ensures
        !tracks(without(items, id), id),
        without(items, id).len() <= items.len(),
        forall|other: SurfaceId| other != id ==> (tracks(without(items, id), other) <==> tracks(items, other)),
    decreases items.len(),
{
    if items.len() > 0 {
        let init = items.drop_last();
        let rest = without(init, id);
        lemma_without(init, id);
        assert forall|other: SurfaceId| tracks(items, other) <==> (tracks(init, other) || items.last().sid()
            == other) by {
            if tracks(init, other) {
                let i = choose|i: int| 0 <= i < init.len() && (#[trigger] init[i]).sid() == other;
                assert(items[i].sid() == other);
            }
            if items.last().sid() == other {
                assert(items[items.len() - 1].sid() == other);
            }
            if tracks(items, other) {
                let i = choose|i: int| 0 <= i < items.len() && (#[trigger] items[i]).sid() == other;
                if i < items.len() - 1 {
                    assert(init[i].sid() == other);
                }
            }
        }
        let grown = rest.push(items.last());
        assert forall|other: SurfaceId| tracks(grown, other) <==> (tracks(rest, other) || items.last().sid()
            == other) by {
            if tracks(rest, other) {
                let i = choose|i: int| 0 <= i < rest.len() && (#[trigger] rest[i]).sid() == other;
                assert(grown[i].sid() == other);
            }
            if items.last().sid() == other {
                assert(grown[grown.len() - 1].sid() == other);
            }
            if tracks(grown, other) {
                let i = choose|i: int| 0 <= i < grown.len() && (#[trigger] grown[i]).sid() == other;
                if i < grown.len() - 1 {
                    assert(rest[i].sid() == other);
                }
            }
        }
    }
}

/// The position of the first item that belongs to `id`.
pub fn position<T: OnSurface>(items: &Vec<T>, id: SurfaceId) -> (r: Option<usize>)
    ensures
        match r {
            Some(i) => index_of(items@, id) == Some(i as int) && i < items@.len(),
            None => index_of(items@, id) is None,
        },
{
    let mut i: usize = 0;
    while i < items.len()
        invariant
            0 <= i <= items@.len(),
            index_of(items@, id) == index_from(items@, id, i as int),
        decreases items@.len() - i,
    {
        if items[i].surface_id() == id {
            return Some(i);
        }
        i += 1;
    }
    None
}

/// Removes every item that belongs to `id`.
pub fn remove_all<T: OnSurface>(items: &mut Vec<T>, id: SurfaceId)
    ensures
        final(items)@ == without(old(items)@, id),
{
    let ghost all = items@;
    let ghost mut seen: int = 0;
    let mut i: usize = 0;
    while i < items.len()
        invariant
            0 <= i <= items@.len(),
            0 <= seen <= all.len(),
            items@.len() - i == all.len() - seen,
            items@.take(i as int) == without(all.take(seen), id),
            items@.skip(i as int) == all.skip(seen),
        decreases items@.len() - i,
    {
        assert(items@[i as int] == items@.skip(i as int)[0]);
        assert(items@[i as int] == all[seen]);
        assert(all.take(seen + 1).drop_last() =~= all.take(seen));
        if items[i].surface_id() == id {
            let ghost before = items@;
            items.remove(i);
            assert(items@.take(i as int) =~= before.take(i as int));
            assert(items@.skip(i as int) =~= before.skip(i as int).skip(1));
            assert(all.skip(seen + 1) =~= all.skip(seen).skip(1));
        } else {
            assert(items@.take(i + 1) =~= items@.take(i as int).push(items@[i as int]));
            assert(items@.skip(i + 1) =~= items@.skip(i as int).skip(1));
            assert(all.skip(seen + 1) =~= all.skip(seen).skip(1));
            i += 1;
        }
        proof {
            seen = seen + 1;
        }
    }
    assert(items@.take(i as int) =~= items@);
    assert(all.take(seen) =~= all);
}

} // verus!
