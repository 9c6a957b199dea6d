//! The batched deletion/duplication pass.
//!
//! Interface actions only mark layers (`want_deletion`, `want_duplicate`);
//! a pass over each composition then applies the marks: nested
//! compositions first, then deletions, then duplications — copies of the
//! marked survivors appended at the end — and finally every duplication
//! mark is cleared.  Applying deletions before insertions keeps the
//! sibling indices of still-pending work meaningful.

use vstd::prelude::*;

use crate::model::AetCompNode;
use crate::model::AetItemNode;
use crate::model::AetLayerNode;
use crate::model::ItemModel;
use crate::model::LayerModel;
use crate::model::copy_layer;
use crate::model::layer_model;
use crate::model::layer_models_of;
use crate::model::lemma_layer_models_of;

verus! {

/// A layer with its duplication mark cleared.
pub open spec fn clear_dup(l: LayerModel) -> LayerModel {
    LayerModel { want_duplicate: false, ..l }
}

/// Duplication marks cleared throughout a list.
pub open spec fn clear_pass(s: Seq<LayerModel>) -> Seq<LayerModel>
    decreases s,
{
    if s.len() == 0 {
        Seq::empty()
    } else {
        clear_pass(s.drop_last()).push(clear_dup(s.last()))
    }
}

/// The layers surviving deletion.
pub open spec fn keep_pass(s: Seq<LayerModel>) -> Seq<LayerModel>
    decreases s,
{
    if s.len() == 0 {
        Seq::empty()
    } else if s.last().want_deletion {
        keep_pass(s.drop_last())
    } else {
        keep_pass(s.drop_last()).push(s.last())
    }
}

/// The layers marked for duplication.
pub open spec fn dup_pass(s: Seq<LayerModel>) -> Seq<LayerModel>
    decreases s,
{
    if s.len() == 0 {
        Seq::empty()
    } else if s.last().want_duplicate {
        dup_pass(s.drop_last()).push(s.last())
    } else {
        dup_pass(s.drop_last())
    }
}

/// The pass applied below a layer: its nested composition, if any, is
/// processed recursively.
pub open spec fn pending_layer(l: LayerModel) -> LayerModel
    decreases l,
{
    LayerModel {
        item: match l.item {
            ItemModel::Comp(c) => ItemModel::Comp(pending_spec(c)),
            _ => l.item,
        },
        ..l
    }
}

/// The pass applied below every layer of a list.
pub open spec fn rec_pass(s: Seq<LayerModel>) -> Seq<LayerModel>
    decreases s, 0int,
{
    if s.len() == 0 {
        Seq::empty()
    } else {
        rec_pass(s.drop_last()).push(pending_layer(s.last()))
    }
}

/// One whole pass over a sibling list: recurse, delete, duplicate, clear.
pub open spec fn pending_spec(s: Seq<LayerModel>) -> Seq<LayerModel>
    decreases s, 1int,
{
    let kept = keep_pass(rec_pass(s));
    clear_pass(kept + dup_pass(kept))
}

proof fn lemma_keep_pass_snoc(s: Seq<LayerModel>, l: LayerModel)
    ensures
        keep_pass(s.push(l)) == if l.want_deletion {
            keep_pass(s)
        } else {
            keep_pass(s).push(l)
        },
{
    assert(s.push(l).drop_last() =~= s);
    assert(s.push(l).last() == l);
}

proof fn lemma_dup_pass_snoc(s: Seq<LayerModel>, l: LayerModel)
    ensures
        dup_pass(s.push(l)) == if l.want_duplicate {
            dup_pass(s).push(l)
        } else {
            dup_pass(s)
        },
{
    assert(s.push(l).drop_last() =~= s);
    assert(s.push(l).last() == l);
}

proof fn lemma_rec_pass_snoc(s: Seq<LayerModel>, l: LayerModel)
    ensures
        rec_pass(s.push(l)) == rec_pass(s).push(pending_layer(l)),
{
    assert(s.push(l).drop_last() =~= s);
    assert(s.push(l).last() == l);
}

/// Builds the pass's result for one layer.
pub fn pending_layer_built(l: &AetLayerNode) -> (r: AetLayerNode)
    ensures
        r@ == pending_layer(l@),
    decreases *l,
{
    let mut r = copy_layer(l);
    let is_comp = matches!(&r.item, AetItemNode::Comp(_));
    if is_comp {
        match &mut r.item {
            AetItemNode::Comp(sub) => {
                let processed = pending_built(&l.item);
                *sub = processed;
            },
            _ => {
                proof {
                    assert(false);
                }
            },
        }
        proof {
            assert(r@ =~~= pending_layer(l@));
        }
    } else {
        proof {
            assert(r@ =~~= pending_layer(l@));
        }
    }
    r
}

/// Builds the processed nested composition of a layer item known to be a
/// composition.
fn pending_built(it: &AetItemNode) -> (r: AetCompNode)
    requires
        it is Comp,
    ensures
        r@ == pending_spec(item_comp_layers(*it)),
    decreases *it,
{
    match it {
        AetItemNode::Comp(c) => pending_comp_built(c),
        _ => {
            proof {
                assert(false);
            }
            AetCompNode { layers: Vec::new() }
        },
    }
}

/// The nested layer list of an item known to be a composition.
pub open spec fn item_comp_layers(it: AetItemNode) -> Seq<LayerModel> {
    layer_models_of(it->Comp_0.layers@)
}

/// Builds the whole pass's result for a composition.
pub fn pending_comp_built(c: &AetCompNode) -> (r: AetCompNode)
    ensures
        r@ == pending_spec(c@),
    decreases *c,
{
    proof {
        lemma_layer_models_of(c.layers@);
    }
    let n = c.layers.len();
    let mut kept: Vec<AetLayerNode> = Vec::new();
    let mut i: usize = 0;
    proof {
        assert(c.layers@.subrange(0, 0) =~= Seq::<AetLayerNode>::empty());
        assert(layer_models_of(kept@) =~= Seq::<LayerModel>::empty());
        assert(rec_pass(Seq::<LayerModel>::empty()) =~= Seq::<LayerModel>::empty());
        assert(layer_models_of(Seq::<AetLayerNode>::empty()) =~= Seq::<LayerModel>::empty());
    }
    while i < n
        invariant
            i <= n,
            n == c.layers@.len(),
            layer_models_of(kept@) == keep_pass(
                rec_pass(layer_models_of(c.layers@.subrange(0, i as int))),
            ),
        decreases n - i,
    {
        let ghost pre = layer_models_of(c.layers@.subrange(0, i as int));
        proof {
            lemma_layer_models_of(c.layers@.subrange(0, i as int));
            lemma_layer_models_of(c.layers@.subrange(0, i as int + 1));
            assert(c.layers@.subrange(0, i as int + 1).drop_last() =~= c.layers@.subrange(
                0,
                i as int,
            ));
            assert(layer_models_of(c.layers@.subrange(0, i as int + 1)) =~= pre.push(
                layer_model(c.layers@[i as int]),
            ));
            lemma_rec_pass_snoc(pre, layer_model(c.layers@[i as int]));
            lemma_keep_pass_snoc(rec_pass(pre), pending_layer(layer_model(c.layers@[i as int])));
        }
        if !c.layers[i].want_deletion {
            let ghost before = kept@;
            let l2 = pending_layer_built(&c.layers[i]);
            kept.push(l2);
            proof {
                lemma_layer_models_of(before);
                lemma_layer_models_of(kept@);
                assert(layer_models_of(kept@) =~= layer_models_of(before).push(l2@));
            }
        }
        i = i + 1;
    }
    proof {
        assert(c.layers@.subrange(0, n as int) =~= c.layers@);
    }
    let ghost kept_m = layer_models_of(kept@);
    let n0 = kept.len();
    let mut j: usize = 0;
    proof {
        lemma_layer_models_of(kept@);
        assert(kept@.subrange(0, 0) =~= Seq::<AetLayerNode>::empty());
        assert(layer_models_of(Seq::<AetLayerNode>::empty()) =~= Seq::<LayerModel>::empty());
        assert(dup_pass(Seq::<LayerModel>::empty()) =~= Seq::<LayerModel>::empty());
        assert(kept_m + Seq::<LayerModel>::empty() =~= kept_m);
        assert(kept@.subrange(0, n0 as int) =~= kept@);
    }
    while j < n0
        invariant
            j <= n0,
            n0 <= kept@.len(),
            layer_models_of(kept@) == kept_m + dup_pass(
                layer_models_of(kept@.subrange(0, j as int)),
            ),
            kept_m == layer_models_of(kept@.subrange(0, n0 as int)),
        decreases n0 - j,
    {
        let ghost prej = layer_models_of(kept@.subrange(0, j as int));
        proof {
            lemma_layer_models_of(kept@);
            lemma_layer_models_of(kept@.subrange(0, j as int));
            lemma_layer_models_of(kept@.subrange(0, j as int + 1));
            assert(kept@.subrange(0, j as int + 1).drop_last() =~= kept@.subrange(0, j as int));
            assert(layer_models_of(kept@.subrange(0, j as int + 1)) =~= prej.push(
                layer_model(kept@[j as int]),
            ));
            lemma_dup_pass_snoc(prej, layer_model(kept@[j as int]));
        }
        if kept[j].want_duplicate {
            let ghost before = kept@;
            let cp = copy_layer(&kept[j]);
            kept.push(cp);
            proof {
                lemma_layer_models_of(before);
                lemma_layer_models_of(kept@);
                assert(layer_models_of(kept@) =~= layer_models_of(before).push(
                    layer_model(before[j as int]),
                ));
                assert(kept@.subrange(0, n0 as int) =~= before.subrange(0, n0 as int));
                assert(kept@.subrange(0, j as int + 1) =~= before.subrange(0, j as int + 1));
            }
        }
        j = j + 1;
    }
    let total = kept.len();
    let ghost before_clear = layer_models_of(kept@);
    let mut k: usize = 0;
    proof {
        lemma_layer_models_of(kept@);
    }
    while k < total
        invariant
            k <= total,
            total == kept@.len(),
            before_clear.len() == total,
            forall|m: int| k <= m < total ==> layer_model(kept@[m]) == before_clear[m],
            forall|m: int| 0 <= m < k ==> layer_model(kept@[m]) == clear_dup(before_clear[m]),
        decreases total - k,
    {
        let ghost prev = kept@;
        kept[k].want_duplicate = false;
        proof {
            assert(kept@ =~= prev.update(k as int, kept@[k as int]));
            assert(layer_model(kept@[k as int]) =~~= clear_dup(layer_model(prev[k as int])));
        }
        k = k + 1;
    }
    proof {
        lemma_layer_models_of(kept@);
        lemma_clear_pass_index(before_clear);
        assert(layer_models_of(kept@) =~= clear_pass(before_clear));
        assert(layer_models_of(kept@) =~= pending_spec(c@));
    }
    AetCompNode { layers: kept }
}

proof fn lemma_clear_pass_index(s: Seq<LayerModel>)
    ensures
        clear_pass(s).len() == s.len(),
        forall|i: int| 0 <= i < s.len() ==> clear_pass(s)[i] == clear_dup(s[i]),
    decreases s,
{
    if s.len() > 0 {
        lemma_clear_pass_index(s.drop_last());
    }
}

impl AetCompNode {
    /// Applies the pending deletion and duplication marks throughout this
    /// composition, deletions before duplications, and clears the marks.
    pub fn commit_pending(&mut self)
        ensures
            final(self)@ == pending_spec(old(self)@),
    {
        let built = pending_comp_built(self);
        *self = built;
    }
}

} // verus!
