//! Bringing a displayed list up to date in place.
//!
//! Every row of the list is a live widget with hover and animation state, so
//! rows that stay are updated where they are; only rows that come, go or change
//! places are inserted, removed or moved.

use vstd::prelude::*;

verus! {

/// One change to the displayed list. `item` is an index into the wanted rows.
#[derive(Clone, Copy, Debug, PartialEq, Eq, Structural)]
pub enum RowOp {
    Remove { at: usize },
    Insert { at: usize, item: usize },
    Move { from: usize, to: usize },
    Update { at: usize, item: usize },
}

/// The displayed rows before any change: each has its id, and shows nothing of the
/// wanted rows yet.
pub open spec fn stale(ids: Seq<i32>) -> Seq<(i32, Option<int>)> {
    Seq::new(ids.len(), |i: int| (ids[i], None::<int>))
}

/// The wanted rows, each showing what is wanted of it.
pub open spec fn fresh(ids: Seq<i32>) -> Seq<(i32, Option<int>)> {
    Seq::new(ids.len(), |i: int| (ids[i], Some(i)))
}

pub open spec fn row_ids(rows: Seq<(i32, Option<int>)>) -> Seq<i32> {
    rows.map_values(|r: (i32, Option<int>)| r.0)
}

/// The displayed rows after a change, each with its id and the wanted row that it shows.
pub open spec fn applied(rows: Seq<(i32, Option<int>)>, op: RowOp, wanted: Seq<i32>) -> Seq<(i32, Option<int>)> {
    match op {
        RowOp::Remove { at } => rows.remove(at as int),
        RowOp::Insert { at, item } => rows.insert(at as int, (wanted[item as int], Some(item as int))),
        RowOp::Move { from, to } => rows.remove(from as int).insert(to as int, rows[from as int]),
        RowOp::Update { at, item } => rows.update(at as int, (wanted[item as int], Some(item as int))),
    }
}

/// Whether a change fits the rows, and touches only rows that it may: a row is
/// removed when it is no longer wanted, inserted when it was not there, moved or
/// updated when it was there and is wanted.
pub open spec fn op_allowed(rows: Seq<i32>, op: RowOp, wanted: Seq<i32>) -> bool {
    match op {
        RowOp::Remove { at } => at < rows.len() && !wanted.contains(rows[at as int]),
        RowOp::Insert { at, item } => at <= rows.len() && item < wanted.len() && !rows.contains(
            wanted[item as int],
        ),
        RowOp::Move { from, to } => to < from && from < rows.len() && wanted.contains(rows[from as int]),
        RowOp::Update { at, item } => at < rows.len() && item < wanted.len() && rows[at as int]
            == wanted[item as int],
    }
}

/// The rows after all changes.
pub open spec fn applied_all(
    rows: Seq<(i32, Option<int>)>,
    ops: Seq<RowOp>,
    wanted: Seq<i32>,
) -> Seq<(i32, Option<int>)>
    decreases ops.len(),
{
    if ops.len() == 0 {
        rows
    } else {
        applied(applied_all(rows, ops.drop_last(), wanted), ops.last(), wanted)
    }
}

/// Every change is allowed at its turn.
pub open spec fn all_allowed(rows: Seq<(i32, Option<int>)>, ops: Seq<RowOp>, wanted: Seq<i32>) -> bool
    decreases ops.len(),
{
    ops.len() == 0 || (all_allowed(rows, ops.drop_last(), wanted) && op_allowed(
        row_ids(applied_all(rows, ops.drop_last(), wanted)),
        ops.last(),
        wanted,
    ))
}

/// Whether the changes turn the displayed rows into the wanted ones, each showing what is
/// wanted of it: rows that stay are updated, and where no row comes, goes or changes
/// places nothing else happens.
pub open spec fn synced(displayed: Seq<i32>, ops: Seq<RowOp>, wanted: Seq<i32>) -> bool {
    &&& all_allowed(stale(displayed), ops, wanted)
    &&& applied_all(stale(displayed), ops, wanted) == fresh(wanted)
    &&& displayed == wanted ==> in_place(ops)
}

/// No row changes its place: each is updated where it is.
pub open spec fn in_place(ops: Seq<RowOp>) -> bool {
    forall|i: int| 0 <= i < ops.len() ==> (#[trigger] ops[i]) is Update
}

fn find_row(rows: &Vec<i32>, id: i32) -> (r: Option<usize>)
    ensures
        match r {
            Some(i) => i < rows@.len() && rows@[i as int] == id,
            None => !rows@.contains(id),
        },
{
    let mut i: usize = 0;
    while i < rows.len()
        invariant
            0 <= i <= rows@.len(),
            forall|k: int| 0 <= k < i ==> rows@[k] != id,
        decreases rows@.len() - i,
    {
        if rows[i] == id {
            return Some(i);
        }
        i += 1;
    }
    None
}

proof fn lemma_push_op(rows: Seq<(i32, Option<int>)>, ops: Seq<RowOp>, op: RowOp, wanted: Seq<i32>)
    ensures
        applied_all(rows, ops.push(op), wanted) == applied(applied_all(rows, ops, wanted), op, wanted),
        all_allowed(rows, ops.push(op), wanted) == (all_allowed(rows, ops, wanted) && op_allowed(
            row_ids(applied_all(rows, ops, wanted)),
            op,
            wanted,
        )),
{
    assert(ops.push(op).drop_last() =~= ops);
}

proof fn lemma_remove_keeps_distinct(s: Seq<i32>, at: int)
    requires
        s.no_duplicates(),
        0 <= at < s.len(),
    ensures
        s.remove(at).no_duplicates(),
        forall|v: i32| s.remove(at).contains(v) <==> s.contains(v) && v != s[at],
{
    let r = s.remove(at);
    assert forall|i: int, j: int| 0 <= i < r.len() && 0 <= j < r.len() && i != j implies r[i] != r[j] by {
        let ii = if i < at {
            i
        } else {
            i + 1
        };
        let jj = if j < at {
            j
        } else {
            j + 1
        };
        assert(r[i] == s[ii] && r[j] == s[jj]);
    }
    assert forall|v: i32| r.contains(v) <==> s.contains(v) && v != s[at] by {
        if r.contains(v) {
            let i = choose|i: int| 0 <= i < r.len() && r[i] == v;
            let ii = if i < at {
                i
            } else {
                i + 1
            };
            assert(s[ii] == v);
        }
        if s.contains(v) && v != s[at] {
            let i = choose|i: int| 0 <= i < s.len() && s[i] == v;
            let ii = if i < at {
                i
            } else {
                i - 1
            };
            assert(r[ii] == v);
        }
    }
}

proof fn lemma_insert_keeps_distinct(s: Seq<i32>, at: int, v: i32)
    requires
        s.no_duplicates(),
        !s.contains(v),
        0 <= at <= s.len(),
    ensures
        s.insert(at, v).no_duplicates(),
        forall|u: i32| s.insert(at, v).contains(u) <==> s.contains(u) || u == v,
{
    let r = s.insert(at, v);
    assert forall|i: int, j: int| 0 <= i < r.len() && 0 <= j < r.len() && i != j implies r[i] != r[j] by {
        if i != at && j != at {
            let ii = if i < at {
                i
            } else {
                i - 1
            };
            let jj = if j < at {
                j
            } else {
                j - 1
            };
            assert(r[i] == s[ii] && r[j] == s[jj]);
        } else if i == at {
            let jj = if j < at {
                j
            } else {
                j - 1
            };
            assert(r[j] == s[jj]);
        } else {
            let ii = if i < at {
                i
            } else {
                i - 1
            };
            assert(r[i] == s[ii]);
        }
    }
    assert forall|u: i32| r.contains(u) <==> s.contains(u) || u == v by {
        if r.contains(u) {
            let i = choose|i: int| 0 <= i < r.len() && r[i] == u;
            if i != at {
                let ii = if i < at {
                    i
                } else {
                    i - 1
                };
                assert(s[ii] == u);
            }
        }
        if s.contains(u) {
            let i = choose|i: int| 0 <= i < s.len() && s[i] == u;
            let ii = if i < at {
                i
            } else {
                i + 1
            };
            assert(r[ii] == u);
        }
        if u == v {
            assert(r[at] == u);
        }
    }
}

/// The changes that turn the displayed rows into the wanted ones. Both are given
/// by the ids of their rows.
pub fn sync_rows(displayed: &Vec<i32>, wanted: &Vec<i32>) -> (ops: Vec<RowOp>)
    requires
        displayed@.no_duplicates(),
        wanted@.no_duplicates(),
    ensures
        synced(displayed@, ops@, wanted@),
{
    let ghost start = stale(displayed@);
    let mut ops: Vec<RowOp> = Vec::new();
    let mut rows: Vec<i32> = Vec::new();
    let mut c: usize = 0;
    while c < displayed.len()
        invariant
            0 <= c <= displayed@.len(),
            rows@ == displayed@.take(c as int),
        decreases displayed@.len() - c,
    {
        rows.push(displayed[c]);
        c += 1;
        assert(displayed@.take(c as int) =~= displayed@.take(c - 1).push(displayed@[c - 1]));
    }
    assert(rows@ =~= displayed@);
    let ghost mut shown = start;
    assert(row_ids(shown) =~= rows@);

    let mut i: usize = rows.len();
    while i > 0
        invariant
            0 <= i <= rows@.len(),
            rows@.no_duplicates(),
            shown == applied_all(start, ops@, wanted@),
            row_ids(shown) == rows@,
            all_allowed(start, ops@, wanted@),
            forall|k: int| i <= k < rows@.len() ==> wanted@.contains(#[trigger] rows@[k]),
            displayed@ == wanted@ ==> rows@ == wanted@ && ops@.len() == 0,
        decreases i,
    {
        i = i - 1;
        if find_row(wanted, rows[i]).is_none() {
            proof {
                lemma_remove_keeps_distinct(rows@, i as int);
                lemma_push_op(start, ops@, RowOp::Remove { at: i }, wanted@);
                shown = shown.remove(i as int);
            }
            ops.push(RowOp::Remove { at: i });
            rows.remove(i);
            assert(row_ids(shown) =~= rows@);
        }
    }

    let mut t: usize = 0;
    while t < wanted.len()
        invariant
            0 <= t <= wanted@.len(),
            t <= rows@.len(),
            wanted@.no_duplicates(),
            rows@.no_duplicates(),
            shown == applied_all(start, ops@, wanted@),
            row_ids(shown) == rows@,
            all_allowed(start, ops@, wanted@),
            forall|k: int| 0 <= k < t ==> rows@[k] == wanted@[k],
            forall|k: int| 0 <= k < t ==> #[trigger] shown[k] == (wanted@[k], Some(k)),
            forall|k: int| 0 <= k < rows@.len() ==> wanted@.contains(#[trigger] rows@[k]),
            displayed@ == wanted@ ==> rows@ == wanted@ && in_place(ops@),
        decreases wanted@.len() - t,
    {
        let id: i32 = wanted[t];
        assert(displayed@ == wanted@ ==> rows@[t as int] == id);
        match find_row(&rows, id) {
            Some(j) => {
                assert(j >= t) by {
                    if j < t {
                        assert(rows@[j as int] == wanted@[j as int]);
                    }
                }
                if j != t {
                    let ghost before = rows@;
                    proof {
                        lemma_remove_keeps_distinct(rows@, j as int);
                        lemma_insert_keeps_distinct(rows@.remove(j as int), t as int, id);
                        lemma_push_op(start, ops@, RowOp::Move { from: j, to: t }, wanted@);
                        assert(wanted@.contains(before[j as int]));
                        shown = shown.remove(j as int).insert(t as int, shown[j as int]);
                    }
                    ops.push(RowOp::Move { from: j, to: t });
                    rows.remove(j);
                    rows.insert(t, id);
                    assert(row_ids(shown) =~= rows@);
                    assert forall|k: int| 0 <= k < rows@.len() implies wanted@.contains(
                        #[trigger] rows@[k],
                    ) by {
                        assert(rows@.contains(rows@[k]));
                        assert(before.contains(rows@[k]) || rows@[k] == id);
                        if before.contains(rows@[k]) {
                            let b = choose|b: int| 0 <= b < before.len() && before[b] == rows@[k];
                            assert(wanted@.contains(before[b]));
                        } else {
                            assert(wanted@[t as int] == id);
                        }
                    }
                }
                proof {
                    lemma_push_op(start, ops@, RowOp::Update { at: t, item: t }, wanted@);
                    shown = shown.update(t as int, (id, Some(t as int)));
                    assert(row_ids(shown) =~= rows@);
                }
                ops.push(RowOp::Update { at: t, item: t });
            },
            None => {
                let ghost before = rows@;
                proof {
                    lemma_insert_keeps_distinct(rows@, t as int, id);
                    lemma_push_op(start, ops@, RowOp::Insert { at: t, item: t }, wanted@);
                    shown = shown.insert(t as int, (id, Some(t as int)));
                }
                ops.push(RowOp::Insert { at: t, item: t });
                rows.insert(t, id);
                assert(row_ids(shown) =~= rows@);
                assert forall|k: int| 0 <= k < rows@.len() implies wanted@.contains(#[trigger] rows@[k]) by {
                    if k == t {
                        assert(wanted@[t as int] == id);
                    } else {
                        let b = if k < t {
                            k
                        } else {
                            k - 1
                        };
                        assert(rows@[k] == before[b]);
                    }
                }
            },
        }
        t += 1;
    }
    proof {
        if rows@.len() > wanted@.len() {
            let k = wanted@.len() as int;
            assert(wanted@.contains(rows@[k]));
            let w = choose|w: int| 0 <= w < wanted@.len() && wanted@[w] == rows@[k];
            assert(rows@[w] == wanted@[w]);
        }
        assert(row_ids(shown).len() == shown.len());
        assert(shown =~= fresh(wanted@));
    }
    ops
}

/// What each change does to the rows shown: one goes, one comes with the item it is
/// for, one moves up past others that keep their order, or one is redrawn in place.
pub proof fn law_row_changes(rows: Seq<(i32, Option<int>)>, op: RowOp, wanted: Seq<i32>)
    requires
        op_allowed(row_ids(rows), op, wanted),
    ensures
        ({
            let after = row_ids(applied(rows, op, wanted));
            let ids = row_ids(rows);
            match op {
                RowOp::Remove { at } => after == ids.take(at as int) + ids.skip(at + 1),
                RowOp::Insert { at, item } => after == ids.take(at as int) + seq![wanted[item as int]] + ids.skip(
                    at as int,
                ),
                RowOp::Move { from, to } => after == ids.take(to as int) + seq![ids[from as int]] + ids.subrange(
                    to as int,
                    from as int,
                ) + ids.skip(from + 1),
                RowOp::Update { at, item } => after == ids && applied(rows, op, wanted)[at as int].1 == Some(
                    item as int,
                ),
            }
        }),
{
    let after = row_ids(applied(rows, op, wanted));
    let ids = row_ids(rows);
    match op {
        RowOp::Remove { at } => {
            assert(after =~= ids.take(at as int) + ids.skip(at + 1));
        },
        RowOp::Insert { at, item } => {
            assert(after =~= ids.take(at as int) + seq![wanted[item as int]] + ids.skip(at as int));
        },
        RowOp::Move { from, to } => {
            assert(after =~= ids.take(to as int) + seq![ids[from as int]] + ids.subrange(to as int, from as int)
                + ids.skip(from + 1));
        },
        RowOp::Update { at, item } => {
            assert(after =~= ids);
        },
    }
}

/// Synchronised rows are those wanted, in the order wanted, each drawn from its own
/// item; rows that are right already only get redrawn. Until then no row that is
/// wanted is taken away, and none is shown twice.
pub proof fn law_rows_end_as_wanted(displayed: Seq<i32>, ops: Seq<RowOp>, wanted: Seq<i32>, i: int)
    requires
        synced(displayed, ops, wanted),
    ensures
        ({
            let shown = applied_all(stale(displayed), ops, wanted);
            &&& row_ids(shown) == wanted
            &&& 0 <= i < wanted.len() ==> shown[i] == (wanted[i], Some(i))
        }),
        displayed == wanted && 0 <= i < ops.len() ==> ops[i] is Update,
        0 <= i < ops.len() ==> {
            let then = row_ids(applied_all(stale(displayed), ops.take(i), wanted));
            match ops[i] {
                RowOp::Remove { at } => at < then.len() && !wanted.contains(then[at as int]),
                RowOp::Insert { at, item } => at <= then.len() && item < wanted.len() && !then.contains(
                    wanted[item as int],
                ),
                RowOp::Move { from, to } => to < from < then.len(),
                RowOp::Update { at, item } => at < then.len() && item < wanted.len() && then[at as int]
                    == wanted[item as int],
            }
        },
{
    assert(row_ids(fresh(wanted)) =~= wanted);
    if 0 <= i < ops.len() {
        lemma_allowed_at(stale(displayed), ops, wanted, i);
    }
}

proof fn lemma_allowed_at(rows: Seq<(i32, Option<int>)>, ops: Seq<RowOp>, wanted: Seq<i32>, i: int)
    requires
        all_allowed(rows, ops, wanted),
        0 <= i < ops.len(),
    ensures
        op_allowed(row_ids(applied_all(rows, ops.take(i), wanted)), ops[i], wanted),
    decreases ops.len(),
{
    let front = ops.drop_last();
    if i == ops.len() - 1 {
        assert(ops.take(i) =~= front);
    } else {
        lemma_allowed_at(rows, front, wanted, i);
        assert(front.take(i) =~= ops.take(i));
        assert(front[i] == ops[i]);
    }
}

} // verus!
