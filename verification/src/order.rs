//! Ordering lists by an integer key.

use vstd::prelude::*;

verus! {

/// Whether index `a` comes before index `b`: by key, and by position where the
/// keys are equal.
pub open spec fn precedes(keys: Seq<i64>, a: int, b: int) -> bool {
    keys[a] < keys[b] || (keys[a] == keys[b] && a < b)
}

pub open spec fn occurs_in(order: Seq<usize>, i: int) -> bool {
    exists|p: int| 0 <= p < order.len() && #[trigger] order[p] == i
}

/// Whether `order` lists the indices of `keys` by increasing key, equal keys in
/// their given order.
pub open spec fn is_order(keys: Seq<i64>, order: Seq<usize>) -> bool {
    &&& order.len() == keys.len()
    &&& forall|p: int| 0 <= p < order.len() ==> (#[trigger] order[p]) < keys.len()
    &&& forall|p: int, q: int|
        0 <= p < q < order.len() ==> precedes(keys, (#[trigger] order[p]) as int, (#[trigger] order[q]) as int)
    &&& forall|i: int| 0 <= i < keys.len() ==> #[trigger] occurs_in(order, i)
}

/// The indices of `keys` by increasing key, equal keys in their given order.
pub open spec fn ordered(keys: Seq<i64>) -> Seq<usize> {
    choose|order: Seq<usize>| is_order(keys, order)
}

/// There is only one such order.
pub proof fn lemma_order_unique(keys: Seq<i64>, a: Seq<usize>, b: Seq<usize>)
    requires
        is_order(keys, a),
        is_order(keys, b),
    ensures
        a == b,
{
    lemma_same_prefix(keys, a, b, a.len() as int);
    assert(a =~= b);
}

proof fn lemma_same_prefix(keys: Seq<i64>, a: Seq<usize>, b: Seq<usize>, n: int)
    requires
        is_order(keys, a),
        is_order(keys, b),
        0 <= n <= a.len(),
    ensures
        forall|p: int| 0 <= p < n ==> a[p] == b[p],
    decreases n,
{
    if n > 0 {
        lemma_same_prefix(keys, a, b, n - 1);
        let k = n - 1;
        assert(occurs_in(b, a[k] as int));
        assert(occurs_in(a, b[k] as int));
        let p = choose|p: int| 0 <= p < b.len() && #[trigger] b[p] == a[k];
        let q = choose|q: int| 0 <= q < a.len() && #[trigger] a[q] == b[k];
        if p < k {
            assert(a[p] == b[p]);
            assert(precedes(keys, a[p] as int, a[k] as int));
        }
        if q < k {
            assert(a[q] == b[q]);
            assert(precedes(keys, b[q] as int, b[k] as int));
        }
        if p > k && q > k {
            assert(precedes(keys, b[k] as int, b[p] as int));
            assert(precedes(keys, a[k] as int, a[q] as int));
        }
    }
}

/// The indices of `keys` by increasing key, equal keys in their given order.
pub fn order_by(keys: &Vec<i64>) -> (order: Vec<usize>)
    ensures
        is_order(keys@, order@),
        order@ == ordered(keys@),
{
    let mut order: Vec<usize> = Vec::new();
    let mut i: usize = 0;
    assert(keys@.take(0) =~= Seq::<i64>::empty());
    while i < keys.len()
        invariant
            0 <= i <= keys@.len(),
            is_order(keys@.take(i as int), order@),
        decreases keys@.len() - i,
    {
        let ghost sub = keys@.take(i as int);
        let ghost grown = keys@.take(i + 1);
        assert forall|p: int| 0 <= p < order@.len() implies sub[(#[trigger] order@[p]) as int]
            == keys@[order@[p] as int] by {}
        let mut at: usize = order.len();
        while at > 0 && keys[order[at - 1]] > keys[i]
            invariant
                0 <= at <= order@.len(),
                i < keys@.len(),
                sub == keys@.take(i as int),
                is_order(sub, order@),
                forall|p: int| at <= p < order@.len() ==> keys@[(#[trigger] order@[p]) as int] > keys@[i as int],
            decreases at,
        {
            at = at - 1;
        }
        let ghost before = order@;
        assert forall|p: int| 0 <= p < at implies keys@[(#[trigger] before[p]) as int] <= keys@[i as int] by {
            if p < at - 1 {
                assert(precedes(sub, before[p] as int, before[at - 1] as int));
            }
        }
        order.insert(at, i);
        proof {
            let after = order@;
            assert forall|p: int| 0 <= p < after.len() implies (#[trigger] after[p]) < grown.len() by {
                if p < at {
                    assert(after[p] == before[p]);
                } else if p > at {
                    assert(after[p] == before[p - 1]);
                }
            }
            assert forall|p: int, q: int| 0 <= p < q < after.len() implies precedes(
                grown,
                (#[trigger] after[p]) as int,
                (#[trigger] after[q]) as int,
            ) by {
                if p < at {
                    assert(after[p] == before[p]);
                } else if p > at {
                    assert(after[p] == before[p - 1]);
                }
                if q < at {
                    assert(after[q] == before[q]);
                } else if q > at {
                    assert(after[q] == before[q - 1]);
                }
                if p != at && q != at {
                    let pp = if p < at {
                        p
                    } else {
                        p - 1
                    };
                    let qq = if q < at {
                        q
                    } else {
                        q - 1
                    };
                    assert(precedes(sub, before[pp] as int, before[qq] as int));
                }
            }
            assert forall|k: int| 0 <= k < grown.len() implies #[trigger] occurs_in(after, k) by {
                if k == i {
                    assert(after[at as int] == k);
                } else {
                    assert(occurs_in(before, k));
                    let p = choose|p: int| 0 <= p < before.len() && #[trigger] before[p] == k;
                    if p < at {
                        assert(after[p] == k);
                    } else {
                        assert(after[p + 1] == k);
                    }
                }
            }
        }
        i += 1;
    }
    assert(keys@.take(i as int) =~= keys@);
    proof {
        lemma_order_unique(keys@, order@, ordered(keys@));
    }
    order
}

/// An index put into an order where its key belongs.
spec fn with_index(order: Seq<usize>, at: int, i: usize) -> Seq<usize> {
    order.insert(at, i)
}

/// Every list of keys has an order.
pub proof fn lemma_order_exists(keys: Seq<i64>)
    requires
        keys.len() <= usize::MAX,
    ensures
        is_order(keys, ordered(keys)),
    decreases keys.len(),
{
    if keys.len() == 0 {
        assert(is_order(keys, Seq::<usize>::empty()));
    } else {
        let sub = keys.drop_last();
        lemma_order_exists(sub);
        let before = ordered(sub);
        let n = sub.len() as int;
        let key = keys.last();
        let at = lemma_place(keys, before, n);
        let after = with_index(before, at, n as usize);
        assert forall|p: int| 0 <= p < after.len() implies (#[trigger] after[p]) < keys.len() by {
            if p < at {
                assert(after[p] == before[p]);
            } else if p > at {
                assert(after[p] == before[p - 1]);
            }
        }
        assert forall|p: int, q: int| 0 <= p < q < after.len() implies precedes(
            keys,
            (#[trigger] after[p]) as int,
            (#[trigger] after[q]) as int,
        ) by {
            let pp = if p < at { p } else { p - 1 };
            let qq = if q < at { q } else { q - 1 };
            if p != at {
                assert(after[p] == before[pp]);
            }
            if q != at {
                assert(after[q] == before[qq]);
            }
            if p != at && q != at {
                assert(precedes(sub, before[pp] as int, before[qq] as int));
            }
        }
        assert forall|k: int| 0 <= k < keys.len() implies #[trigger] occurs_in(after, k) by {
            if k == n {
                assert(after[at] == k);
            } else {
                assert(occurs_in(before, k));
                let p = choose|p: int| 0 <= p < before.len() && #[trigger] before[p] == k;
                if p < at {
                    assert(after[p] == k);
                } else {
                    assert(after[p + 1] == k);
                }
            }
        }
        assert(is_order(keys, after));
    }
}

/// How many of the first `k` places of an order belong before the last key.
proof fn lemma_place(keys: Seq<i64>, before: Seq<usize>, k: int) -> (at: int)
    requires
        keys.len() > 0,
        0 <= k <= before.len(),
        is_order(keys.drop_last(), before),
    ensures
        0 <= at <= k,
        forall|p: int| 0 <= p < at ==> keys[(#[trigger] before[p]) as int] <= keys.last(),
        forall|p: int| at <= p < k ==> keys[(#[trigger] before[p]) as int] > keys.last(),
    decreases k,
{
    let sub = keys.drop_last();
    if k == 0 {
        0
    } else if keys[before[k - 1] as int] <= keys.last() {
        assert forall|p: int| 0 <= p < k implies keys[(#[trigger] before[p]) as int] <= keys.last() by {
            if p < k - 1 {
                assert(precedes(sub, before[p] as int, before[k - 1] as int));
            }
        }
        k
    } else {
        lemma_place(keys, before, k - 1)
    }
}

} // verus!
