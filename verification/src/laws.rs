//! Laws of the structural editors.
//!
//! These proof functions state, once and for all inputs, how the editing
//! operations of `edit` interact: resolution is stable under edits that do
//! not touch the resolved path, duplicating and then removing the
//! duplicate restores the layer list exactly, and a reorder is undone by
//! the inverse reorder.

use vstd::prelude::*;

use crate::edit::duplicate_at_spec;
use crate::edit::insert_at_spec;
use crate::edit::path_rest;
use crate::edit::remove_at_spec;
use crate::edit::reorder_at_spec;
use crate::edit::resolve_spec;
use crate::model::ItemModel;
use crate::model::LayerModel;

verus! {

/// The path that addresses the copy made by duplicating the layer at `p`:
/// the same path with its last step moved one sibling to the right.
pub open spec fn duplicate_path(p: Seq<usize>) -> Seq<usize> {
    p.update(p.len() - 1, (p.last() + 1) as usize)
}

/// Inserting a fresh layer anywhere never disturbs what an existing valid
/// path resolves to: appends shift no sibling index, so the path stays
/// valid and still reaches the layer with the same identity; only a layer
/// whose own nested composition received the insertion changes below it.
pub proof fn lemma_insert_preserves_resolve(
    s: Seq<LayerModel>,
    pp: Seq<usize>,
    lm: LayerModel,
    q: Seq<usize>,
)
    requires
        insert_at_spec(s, pp, lm) is Some,
        resolve_spec(s, q) is Some,
    ensures
        resolve_spec(insert_at_spec(s, pp, lm)->Some_0, q) is Some,
        (resolve_spec(insert_at_spec(s, pp, lm)->Some_0, q)->Some_0).id == (resolve_spec(
            s,
            q,
        )->Some_0).id,
    decreases q.len(),
{
    let s2 = insert_at_spec(s, pp, lm)->Some_0;
    let k = q[0] as int;
    if pp.len() == 0 {
        assert(s2 == s.push(lm));
        assert(s2[k] == s[k]);
        if q.len() > 1 {
            lemma_resolve_same_entry(s, s2, q);
        }
    } else {
        let t = pp[0] as int;
        let c = s[t].item->Comp_0;
        let c2 = insert_at_spec(c, path_rest(pp), lm)->Some_0;
        assert(s2 == s.update(t, LayerModel { item: ItemModel::Comp(c2), ..s[t] }));
        if k != t {
            assert(s2[k] == s[k]);
            if q.len() > 1 {
                lemma_resolve_same_entry(s, s2, q);
            }
        } else {
            assert(s2[k].id == s[k].id);
            if q.len() > 1 {
                match s[k].item {
                    ItemModel::Comp(qc) => {
                        assert(qc == c);
                        lemma_insert_preserves_resolve(c, path_rest(pp), lm, path_rest(q));
                    },
                    _ => {},
                }
            }
        }
    }
}

/// Resolution below the first step only reads that entry: when two lists
/// agree at a path's first index, the path resolves alike in both.
proof fn lemma_resolve_same_entry(s: Seq<LayerModel>, s2: Seq<LayerModel>, q: Seq<usize>)
    requires
        q.len() > 0,
        (q[0] as int) < s.len(),
        (q[0] as int) < s2.len(),
        s2[q[0] as int] == s[q[0] as int],
    ensures
        resolve_spec(s2, q) == resolve_spec(s, q),
{
}

/// Whether a path runs through the sibling window a reorder moves: it
/// descends past the reordered composition and its step there lies
/// between the two reorder indices.
pub open spec fn touches_window(q: Seq<usize>, pp: Seq<usize>, from: usize, to: usize) -> bool {
    &&& pp.len() < q.len()
    &&& q.subrange(0, pp.len() as int) == pp
    &&& ({
        let x = q[pp.len() as int];
        let lo: usize = if from <= to {
            from
        } else {
            to
        };
        let hi: usize = if from <= to {
            to
        } else {
            from
        };
        lo <= x <= hi
    })
}

/// A reorder never disturbs what a valid path outside the moved window
/// resolves to: identities are stable under reordering siblings.
pub proof fn lemma_reorder_preserves_resolve(
    s: Seq<LayerModel>,
    pp: Seq<usize>,
    from: usize,
    to: usize,
    q: Seq<usize>,
)
    requires
        reorder_at_spec(s, pp, from, to) is Some,
        resolve_spec(s, q) is Some,
        !touches_window(q, pp, from, to),
    ensures
        resolve_spec(reorder_at_spec(s, pp, from, to)->Some_0, q) is Some,
        (resolve_spec(reorder_at_spec(s, pp, from, to)->Some_0, q)->Some_0).id == (resolve_spec(
            s,
            q,
        )->Some_0).id,
    decreases q.len(),
{
    let s2 = reorder_at_spec(s, pp, from, to)->Some_0;
    let k = q[0] as int;
    if pp.len() == 0 {
        let moved = s.remove(from as int).insert(to as int, s[from as int]);
        assert(s2 == moved);
        let lo: int = if from <= to {
            from as int
        } else {
            to as int
        };
        let hi: int = if from <= to {
            to as int
        } else {
            from as int
        };
        assert(!(lo <= k <= hi)) by {
            assert(q.subrange(0, 0) =~= pp);
        }
        assert(s2.len() == s.len());
        assert(s2[k] == s[k]) by {
            if k < lo {
            } else {
                assert(k > hi);
            }
        }
        if q.len() > 1 {
            lemma_resolve_same_entry(s, s2, q);
        }
    } else {
        let t = pp[0] as int;
        let c = s[t].item->Comp_0;
        let c2 = reorder_at_spec(c, path_rest(pp), from, to)->Some_0;
        assert(s2 == s.update(t, LayerModel { item: ItemModel::Comp(c2), ..s[t] }));
        if k != t {
            assert(s2[k] == s[k]);
            if q.len() > 1 {
                lemma_resolve_same_entry(s, s2, q);
            }
        } else {
            assert(s2[k].id == s[k].id);
            if q.len() > 1 {
                match s[k].item {
                    ItemModel::Comp(qc) => {
                        assert(qc == c);
                        assert(!touches_window(path_rest(q), path_rest(pp), from, to)) by {
                            let qr = path_rest(q);
                            let ppr = path_rest(pp);
                            if touches_window(qr, ppr, from, to) {
                                assert forall|i: int| 0 <= i < pp.len() implies q.subrange(
                                    0,
                                    pp.len() as int,
                                )[i] == pp[i] by {
                                    if i > 0 {
                                        assert(qr.subrange(0, ppr.len() as int)[i - 1] == ppr[i
                                            - 1]);
                                    }
                                }
                                assert(q.subrange(0, pp.len() as int) =~= pp);
                                assert(q[pp.len() as int] == qr[ppr.len() as int]);
                                assert(touches_window(q, pp, from, to));
                            }
                        }
                        lemma_reorder_preserves_resolve(c, path_rest(pp), from, to, path_rest(q));
                    },
                    _ => {},
                }
            }
        }
    }
}

/// Duplicating the layer at `p` and then removing the copy restores the
/// layer list exactly; the removed copy is the layer `p` addressed.
pub proof fn lemma_duplicate_then_remove(s: Seq<LayerModel>, p: Seq<usize>)
    requires
        duplicate_at_spec(s, p) is Some,
        p.last() < usize::MAX,
    ensures
        resolve_spec(s, p) is Some,
        remove_at_spec(duplicate_at_spec(s, p)->Some_0, duplicate_path(p)) == Some(
            (s, resolve_spec(s, p)->Some_0),
        ),
    decreases p.len(),
{
    let s2 = duplicate_at_spec(s, p)->Some_0;
    let p2 = duplicate_path(p);
    let k = p[0] as int;
    if p.len() == 1 {
        assert(s2 == s.insert(k + 1, s[k]));
        assert(p.last() == p[0]);
        assert(p2 =~= seq![(p[0] + 1) as usize]);
        assert(p2[0] as int == k + 1);
        assert(s2[k + 1] == s[k]);
        assert(s2.remove(k + 1) =~= s);
    } else {
        let c = s[k].item->Comp_0;
        lemma_duplicate_then_remove(c, path_rest(p));
        let c2 = duplicate_at_spec(c, path_rest(p))->Some_0;
        assert(s2 == s.update(k, LayerModel { item: ItemModel::Comp(c2), ..s[k] }));
        assert(p2[0] == p[0]);
        assert(path_rest(p2) =~= duplicate_path(path_rest(p)));
        assert(s2[k].item == ItemModel::Comp(c2));
        let inner = remove_at_spec(c2, duplicate_path(path_rest(p)));
        assert(inner == Some((c, resolve_spec(c, path_rest(p))->Some_0)));
        assert(s2.update(k, LayerModel { item: ItemModel::Comp(c), ..s2[k] }) =~= s);
    }
}

/// A reorder is undone exactly by the inverse reorder: moving a sibling
/// from `i` to `j` and back restores the layer list it started from.
pub proof fn lemma_reorder_roundtrip(s: Seq<LayerModel>, pp: Seq<usize>, i: usize, j: usize)
    requires
        reorder_at_spec(s, pp, i, j) is Some,
    ensures
        reorder_at_spec(reorder_at_spec(s, pp, i, j)->Some_0, pp, j, i) == Some(s),
    decreases pp.len(),
{
    let s2 = reorder_at_spec(s, pp, i, j)->Some_0;
    if pp.len() == 0 {
        assert(s2 == s.remove(i as int).insert(j as int, s[i as int]));
        assert(s2.len() == s.len());
        assert(s2[j as int] == s[i as int]);
        assert(s2.remove(j as int) =~= s.remove(i as int));
        assert(s2.remove(j as int).insert(i as int, s2[j as int]) =~= s);
    } else {
        let t = pp[0] as int;
        let c = s[t].item->Comp_0;
        lemma_reorder_roundtrip(c, path_rest(pp), i, j);
        let c2 = reorder_at_spec(c, path_rest(pp), i, j)->Some_0;
        assert(s2 == s.update(t, LayerModel { item: ItemModel::Comp(c2), ..s[t] }));
        assert(s2[t].item == ItemModel::Comp(c2));
        assert(s2.update(t, LayerModel { item: ItemModel::Comp(c), ..s2[t] }) =~= s);
    }
}


/// One structural editing step, for stating batch laws.
pub enum GraphOp {
    /// Append a layer to the composition at the given path.
    Insert(Seq<usize>, LayerModel),
    /// Move the sibling at the first index of the composition at the
    /// given path to the second index.
    Reorder(Seq<usize>, usize, usize),
}

pub open spec fn apply_op_spec(s: Seq<LayerModel>, op: GraphOp) -> Option<Seq<LayerModel>> {
    match op {
        GraphOp::Insert(pp, lm) => insert_at_spec(s, pp, lm),
        GraphOp::Reorder(pp, from, to) => reorder_at_spec(s, pp, from, to),
    }
}

/// A whole batch of edits, applied left to right; `None` as soon as one
/// step is invalid.
pub open spec fn apply_ops_spec(s: Seq<LayerModel>, ops: Seq<GraphOp>) -> Option<Seq<LayerModel>>
    decreases ops.len(),
{
    if ops.len() == 0 {
        Some(s)
    } else {
        match apply_op_spec(s, ops[0]) {
            Some(s2) => apply_ops_spec(s2, ops.subrange(1, ops.len() as int)),
            None => None,
        }
    }
}

/// Whether an editing step leaves the path `q` untouched: insertions
/// always do (they only append), a reorder must not move a sibling the
/// path runs through.
pub open spec fn op_avoids(op: GraphOp, q: Seq<usize>) -> bool {
    match op {
        GraphOp::Insert(_, _) => true,
        GraphOp::Reorder(pp, from, to) => !touches_window(q, pp, from, to),
    }
}

/// Any batch of insertions and reorders that never touches a valid path
/// leaves that path valid and resolving to the layer with the same
/// identity.
pub proof fn lemma_untouched_batch_preserves_resolve(
    s: Seq<LayerModel>,
    ops: Seq<GraphOp>,
    q: Seq<usize>,
)
    requires
        apply_ops_spec(s, ops) is Some,
        resolve_spec(s, q) is Some,
        forall|i: int| 0 <= i < ops.len() ==> op_avoids(#[trigger] ops[i], q),
    ensures
        resolve_spec(apply_ops_spec(s, ops)->Some_0, q) is Some,
        (resolve_spec(apply_ops_spec(s, ops)->Some_0, q)->Some_0).id == (resolve_spec(
            s,
            q,
        )->Some_0).id,
    decreases ops.len(),
{
    if ops.len() > 0 {
        let s2 = apply_op_spec(s, ops[0])->Some_0;
        match ops[0] {
            GraphOp::Insert(pp, lm) => {
                lemma_insert_preserves_resolve(s, pp, lm, q);
            },
            GraphOp::Reorder(pp, from, to) => {
                lemma_reorder_preserves_resolve(s, pp, from, to, q);
            },
        }
        let rest = ops.subrange(1, ops.len() as int);
        assert(forall|i: int| 0 <= i < rest.len() ==> op_avoids(#[trigger] rest[i], q)) by {
            assert(forall|i: int| 0 <= i < rest.len() ==> rest[i] == ops[i + 1]);
        }
        lemma_untouched_batch_preserves_resolve(s2, rest, q);
    }
}

} // verus!
