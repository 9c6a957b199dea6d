//! Path addressing and structural editing.
//!
//! A path addresses a layer inside a scene by indices: the first element
//! picks a top-level layer of the root composition, and each further
//! element descends into the nested composition carried by the layer
//! reached so far.  Every editing operation validates its path first and
//! mutates nothing when validation fails.

use vstd::prelude::*;

use crate::model::AetCompNode;
use crate::model::AetItemNode;
use crate::model::AetLayerNode;
use crate::model::ItemModel;
use crate::model::LayerModel;
use crate::model::copy_item;
use crate::model::copy_layer;
use crate::model::item_model;
use crate::model::layer_model;
use crate::model::layer_models_of;
use crate::model::lemma_layer_models_of;
use crate::scene::AetSceneNode;
use crate::scene::SceneModel;

verus! {

/// Why an editing operation was rejected; rejected operations leave the
/// scene untouched.
#[derive(Clone, Copy, PartialEq, Eq, Structural, Debug)]
pub enum EditError {
    /// The path does not address a layer (or, for an insertion target, a
    /// composition) of this scene, or a sibling index lies outside the
    /// addressed composition.
    InvalidPath,
    /// The scene has run out of fresh layer ids.
    IdsExhausted,
}

/// The path elements after the first.
pub open spec fn path_rest(p: Seq<usize>) -> Seq<usize> {
    p.subrange(1, p.len() as int)
}

/// The layer a path addresses, walking nested compositions; `None` on any
/// out-of-range index or a descent into a layer that holds no composition.
pub open spec fn resolve_spec(s: Seq<LayerModel>, p: Seq<usize>) -> Option<LayerModel>
    decreases p.len(),
{
    if p.len() == 0 {
        None
    } else if p[0] >= s.len() {
        None
    } else if p.len() == 1 {
        Some(s[p[0] as int])
    } else {
        match s[p[0] as int].item {
            ItemModel::Comp(c) => resolve_spec(c, path_rest(p)),
            _ => None,
        }
    }
}

/// The layer list after appending `lm` to the composition addressed by
/// `p` (the root list itself when `p` is empty).
pub open spec fn insert_at_spec(s: Seq<LayerModel>, p: Seq<usize>, lm: LayerModel) -> Option<
    Seq<LayerModel>,
>
    decreases p.len(),
{
    if p.len() == 0 {
        Some(s.push(lm))
    } else if p[0] >= s.len() {
        None
    } else {
        match s[p[0] as int].item {
            ItemModel::Comp(c) => match insert_at_spec(c, path_rest(p), lm) {
                Some(c2) => Some(
                    s.update(p[0] as int, LayerModel { item: ItemModel::Comp(c2), ..s[p[0] as int] }),
                ),
                None => None,
            },
            _ => None,
        }
    }
}

/// The layer list after removing the layer addressed by `p`, paired with
/// the removed layer.
pub open spec fn remove_at_spec(s: Seq<LayerModel>, p: Seq<usize>) -> Option<
    (Seq<LayerModel>, LayerModel),
>
    decreases p.len(),
{
    if p.len() == 0 {
        None
    } else if p[0] >= s.len() {
        None
    } else if p.len() == 1 {
        Some((s.remove(p[0] as int), s[p[0] as int]))
    } else {
        match s[p[0] as int].item {
            ItemModel::Comp(c) => match remove_at_spec(c, path_rest(p)) {
                Some((c2, removed)) => Some(
                    (
                        s.update(
                            p[0] as int,
                            LayerModel { item: ItemModel::Comp(c2), ..s[p[0] as int] },
                        ),
                        removed,
                    ),
                ),
                None => None,
            },
            _ => None,
        }
    }
}

/// The layer list after inserting a deep copy of the layer addressed by
/// `p` immediately after it in its composition.
pub open spec fn duplicate_at_spec(s: Seq<LayerModel>, p: Seq<usize>) -> Option<Seq<LayerModel>>
    decreases p.len(),
{
    if p.len() == 0 {
        None
    } else if p[0] >= s.len() {
        None
    } else if p.len() == 1 {
        Some(s.insert(p[0] + 1, s[p[0] as int]))
    } else {
        match s[p[0] as int].item {
            ItemModel::Comp(c) => match duplicate_at_spec(c, path_rest(p)) {
                Some(c2) => Some(
                    s.update(p[0] as int, LayerModel { item: ItemModel::Comp(c2), ..s[p[0] as int] }),
                ),
                None => None,
            },
            _ => None,
        }
    }
}

/// The layer list after moving the layer at sibling index `from` of the
/// composition addressed by `pp` to sibling index `to`.
pub open spec fn reorder_at_spec(
    s: Seq<LayerModel>,
    pp: Seq<usize>,
    from: usize,
    to: usize,
) -> Option<Seq<LayerModel>>
    decreases pp.len(),
{
    if pp.len() == 0 {
        if from < s.len() && to < s.len() {
            Some(s.remove(from as int).insert(to as int, s[from as int]))
        } else {
            None
        }
    } else if pp[0] >= s.len() {
        None
    } else {
        match s[pp[0] as int].item {
            ItemModel::Comp(c) => match reorder_at_spec(c, path_rest(pp), from, to) {
                Some(c2) => Some(
                    s.update(
                        pp[0] as int,
                        LayerModel { item: ItemModel::Comp(c2), ..s[pp[0] as int] },
                    ),
                ),
                None => None,
            },
            _ => None,
        }
    }
}

/// The layer list after replacing the item of the layer addressed by `p`,
/// paired with the item it previously carried.
pub open spec fn set_item_at_spec(s: Seq<LayerModel>, p: Seq<usize>, it: ItemModel) -> Option<
    (Seq<LayerModel>, ItemModel),
>
    decreases p.len(),
{
    if p.len() == 0 {
        None
    } else if p[0] >= s.len() {
        None
    } else if p.len() == 1 {
        Some((s.update(p[0] as int, LayerModel { item: it, ..s[p[0] as int] }), s[p[0] as int].item))
    } else {
        match s[p[0] as int].item {
            ItemModel::Comp(c) => match set_item_at_spec(c, path_rest(p), it) {
                Some((c2, old_it)) => Some(
                    (
                        s.update(
                            p[0] as int,
                            LayerModel { item: ItemModel::Comp(c2), ..s[p[0] as int] },
                        ),
                        old_it,
                    ),
                ),
                None => None,
            },
            _ => None,
        }
    }
}

/// The suffix of `p` from position `d`.
pub open spec fn path_from(p: Seq<usize>, d: int) -> Seq<usize> {
    p.subrange(d, p.len() as int)
}

proof fn lemma_path_from_step(p: Seq<usize>, d: int)
    requires
        0 <= d < p.len(),
    ensures
        path_from(p, d).len() == p.len() - d,
        path_from(p, d)[0] == p[d],
        path_rest(path_from(p, d)) =~= path_from(p, d + 1),
{
}

/// Updating one layer of a list updates the corresponding model.
proof fn lemma_models_update(s: Seq<AetLayerNode>, i: int, l: AetLayerNode)
    requires
        0 <= i < s.len(),
    ensures
        layer_models_of(s.update(i, l)) =~= layer_models_of(s).update(i, layer_model(l)),
{
    lemma_layer_models_of(s);
    lemma_layer_models_of(s.update(i, l));
}

fn resolve_rec<'a>(c: &'a AetCompNode, path: &Vec<usize>, d: usize) -> (r: Option<
    &'a AetLayerNode,
>)
    requires
        d <= path@.len(),
    ensures
        match r {
            Some(l) => resolve_spec(c@, path_from(path@, d as int)) == Some(l@),
            None => resolve_spec(c@, path_from(path@, d as int)) is None,
        },
    decreases path@.len() - d,
{
    proof {
        lemma_layer_models_of(c.layers@);
    }
    if d == path.len() {
        return None;
    }
    proof {
        lemma_path_from_step(path@, d as int);
    }
    let i: usize = path[d];
    if i >= c.layers.len() {
        return None;
    }
    if d + 1 == path.len() {
        return Some(&c.layers[i]);
    }
    match &c.layers[i].item {
        AetItemNode::Comp(sub) => resolve_rec(sub, path, d + 1),
        _ => None,
    }
}

fn insert_rec(c: &mut AetCompNode, path: &Vec<usize>, d: usize, layer: AetLayerNode) -> (ok: bool)
    requires
        d <= path@.len(),
    ensures
        ok ==> insert_at_spec(old(c)@, path_from(path@, d as int), layer@) == Some(final(c)@),
        !ok ==> final(c)@ == old(c)@ && insert_at_spec(
            old(c)@,
            path_from(path@, d as int),
            layer@,
        ) is None,
    decreases path@.len() - d,
{
    proof {
        lemma_layer_models_of(c.layers@);
    }
    if d == path.len() {
        let ghost old_models = c@;
        self_push(c, layer);
        proof {
            assert(path_from(path@, d as int).len() == 0);
            assert(c@ =~= old_models.push(layer_model(layer)));
        }
        return true;
    }
    proof {
        lemma_path_from_step(path@, d as int);
    }
    let i: usize = path[d];
    if i >= c.layers.len() {
        return false;
    }
    if !(matches!(&c.layers[i].item, AetItemNode::Comp(_))) {
        return false;
    }
    let ghost old_layers = c.layers@;
    match &mut c.layers[i].item {
        AetItemNode::Comp(sub) => {
            let ghost old_sub_m = sub@;
            let ok = insert_rec(sub, path, d + 1, layer);
            proof {
                let updated = c.layers@[i as int];
                assert(c.layers@ =~= old_layers.update(i as int, updated));
                lemma_models_update(old_layers, i as int, updated);
                let old_lm = layer_model(old_layers[i as int]);
                assert(old_lm.item == ItemModel::Comp(old_sub_m));
                if ok {
                    let new_sub_m = item_model(updated.item)->Comp_0;
                    assert(layer_model(updated) =~= (LayerModel {
                        item: ItemModel::Comp(new_sub_m),
                        ..old_lm
                    }));
                    assert(c@ =~= old(c)@.update(
                        i as int,
                        LayerModel { item: ItemModel::Comp(new_sub_m), ..old_lm },
                    ));
                } else {
                    assert(layer_model(updated) == old_lm);
                    assert(c@ =~= old(c)@);
                }
            }
            ok
        },
        _ => {
            proof {
                assert(false);
            }
            false
        },
    }
}

/// Pushes a layer onto a composition's list.
fn self_push(c: &mut AetCompNode, layer: AetLayerNode)
    ensures
        final(c)@ == old(c)@.push(layer_model(layer)),
{
    let ghost old_layers = c.layers@;
    c.layers.push(layer);
    proof {
        lemma_layer_models_of(old_layers);
        lemma_layer_models_of(c.layers@);
        assert(c@ =~= old(c)@.push(layer_model(layer)));
    }
}

impl AetSceneNode {
    /// The layer addressed by `path`, when the path is valid.
    pub fn resolve<'a>(&'a self, path: &Vec<usize>) -> (r: Option<&'a AetLayerNode>)
        ensures
            match r {
                Some(l) => resolve_spec(self@.root, path@) == Some(l@),
                None => resolve_spec(self@.root, path@) is None,
            },
    {
        proof {
            assert(path_from(path@, 0) =~= path@);
        }
        resolve_rec(&self.root, path, 0)
    }

    /// Appends `layer` to the composition addressed by `parent_path` (the
    /// root composition when the path is empty), giving it a fresh id.
    pub fn insert_layer(&mut self, parent_path: &Vec<usize>, layer: AetLayerNode) -> (r: Result<
        (),
        EditError,
    >)
        ensures
            match r {
                Ok(()) => old(self).next_id < u64::MAX && insert_at_spec(
                    old(self)@.root,
                    parent_path@,
                    LayerModel { id: old(self).next_id, ..layer@ },
                ) == Some(final(self)@.root) && final(self)@ == (SceneModel {
                    root: final(self)@.root,
                    next_id: (old(self).next_id + 1) as u64,
                    ..old(self)@
                }),
                Err(EditError::IdsExhausted) => final(self)@ == old(self)@ && old(self).next_id
                    == u64::MAX,
                Err(_) => final(self)@ == old(self)@ && old(self).next_id < u64::MAX
                    && insert_at_spec(
                    old(self)@.root,
                    parent_path@,
                    LayerModel { id: old(self).next_id, ..layer@ },
                ) is None,
            },
    {
        if self.next_id == u64::MAX {
            return Err(EditError::IdsExhausted);
        }
        let mut layer = layer;
        layer.id = self.next_id;
        proof {
            assert(path_from(parent_path@, 0) =~= parent_path@);
        }
        let ok = insert_rec(&mut self.root, parent_path, 0, layer);
        if ok {
            self.next_id = self.next_id + 1;
            Ok(())
        } else {
            Err(EditError::InvalidPath)
        }
    }

    /// Removes and returns the layer addressed by `path`.  Links elsewhere
    /// in the scene that reference the removed layer are left in place and
    /// simply stop resolving.
    pub fn remove_layer(&mut self, path: &Vec<usize>) -> (r: Result<AetLayerNode, EditError>)
        ensures
            match r {
                Ok(removed) => remove_at_spec(old(self)@.root, path@) == Some(
                    (final(self)@.root, removed@),
                ) && final(self)@ == (SceneModel { root: final(self)@.root, ..old(self)@ }),
                Err(_) => final(self)@ == old(self)@ && remove_at_spec(
                    old(self)@.root,
                    path@,
                ) is None,
            },
    {
        proof {
            assert(path_from(path@, 0) =~= path@);
        }
        match remove_rec(&mut self.root, path, 0) {
            Some(l) => Ok(l),
            None => Err(EditError::InvalidPath),
        }
    }

    /// Inserts a deep copy of the layer addressed by `path` immediately
    /// after it in its composition.  The copy keeps every field of the
    /// original, its id and its outgoing link included, so a link that
    /// pointed at a sibling still points at that original sibling.
    pub fn duplicate_layer(&mut self, path: &Vec<usize>) -> (r: Result<(), EditError>)
        ensures
            match r {
                Ok(()) => duplicate_at_spec(old(self)@.root, path@) == Some(final(self)@.root)
                    && final(self)@ == (SceneModel { root: final(self)@.root, ..old(self)@ }),
                Err(_) => final(self)@ == old(self)@ && duplicate_at_spec(
                    old(self)@.root,
                    path@,
                ) is None,
            },
    {
        proof {
            assert(path_from(path@, 0) =~= path@);
        }
        if duplicate_rec(&mut self.root, path, 0) {
            Ok(())
        } else {
            Err(EditError::InvalidPath)
        }
    }

    /// Moves the layer at sibling index `from` of the composition
    /// addressed by `parent_path` to sibling index `to`.  Identities and
    /// links are untouched; only the order of siblings changes.
    pub fn reorder(&mut self, parent_path: &Vec<usize>, from: usize, to: usize) -> (r: Result<
        (),
        EditError,
    >)
        ensures
            match r {
                Ok(()) => reorder_at_spec(old(self)@.root, parent_path@, from, to) == Some(
                    final(self)@.root,
                ) && final(self)@ == (SceneModel { root: final(self)@.root, ..old(self)@ }),
                Err(_) => final(self)@ == old(self)@ && reorder_at_spec(
                    old(self)@.root,
                    parent_path@,
                    from,
                    to,
                ) is None,
            },
    {
        proof {
            assert(path_from(parent_path@, 0) =~= parent_path@);
        }
        if reorder_rec(&mut self.root, parent_path, 0, from, to) {
            Ok(())
        } else {
            Err(EditError::InvalidPath)
        }
    }

    /// Replaces the item of the layer addressed by `path`, returning the
    /// item it previously carried.  Switching a layer away from a nested
    /// composition discards that subtree with it.
    pub fn set_content(&mut self, path: &Vec<usize>, item: AetItemNode) -> (r: Result<
        AetItemNode,
        EditError,
    >)
        ensures
            match r {
                Ok(old_item) => set_item_at_spec(old(self)@.root, path@, item@) == Some(
                    (final(self)@.root, old_item@),
                ) && final(self)@ == (SceneModel { root: final(self)@.root, ..old(self)@ }),
                Err(_) => final(self)@ == old(self)@ && set_item_at_spec(
                    old(self)@.root,
                    path@,
                    item@,
                ) is None,
            },
    {
        proof {
            assert(path_from(path@, 0) =~= path@);
        }
        match set_item_rec(&mut self.root, path, 0, item) {
            Some(old_item) => Ok(old_item),
            None => Err(EditError::InvalidPath),
        }
    }
}

fn remove_rec(c: &mut AetCompNode, path: &Vec<usize>, d: usize) -> (r: Option<AetLayerNode>)
    requires
        d <= path@.len(),
    ensures
        match r {
            Some(removed) => remove_at_spec(old(c)@, path_from(path@, d as int)) == Some(
                (final(c)@, removed@),
            ),
            None => final(c)@ == old(c)@ && remove_at_spec(
                old(c)@,
                path_from(path@, d as int),
            ) is None,
        },
    decreases path@.len() - d,
{
    proof {
        lemma_layer_models_of(c.layers@);
    }
    if d == path.len() {
        return None;
    }
    proof {
        lemma_path_from_step(path@, d as int);
    }
    let i: usize = path[d];
    if i >= c.layers.len() {
        return None;
    }
    if d + 1 == path.len() {
        let ghost old_layers = c.layers@;
        let removed = c.layers.remove(i);
        proof {
            lemma_layer_models_of(old_layers);
            lemma_layer_models_of(c.layers@);
            assert(c@ =~= layer_models_of(old_layers).remove(i as int));
        }
        return Some(removed);
    }
    if !(matches!(&c.layers[i].item, AetItemNode::Comp(_))) {
        return None;
    }
    let ghost old_layers = c.layers@;
    match &mut c.layers[i].item {
        AetItemNode::Comp(sub) => {
            let ghost old_sub_m = sub@;
            let r = remove_rec(sub, path, d + 1);
            proof {
                let updated = c.layers@[i as int];
                assert(c.layers@ =~= old_layers.update(i as int, updated));
                lemma_models_update(old_layers, i as int, updated);
                let old_lm = layer_model(old_layers[i as int]);
                assert(old_lm.item == ItemModel::Comp(old_sub_m));
                if r is Some {
                    let new_sub_m = item_model(updated.item)->Comp_0;
                    assert(layer_model(updated) =~= (LayerModel {
                        item: ItemModel::Comp(new_sub_m),
                        ..old_lm
                    }));
                    assert(c@ =~= old(c)@.update(
                        i as int,
                        LayerModel { item: ItemModel::Comp(new_sub_m), ..old_lm },
                    ));
                } else {
                    assert(layer_model(updated) == old_lm);
                    assert(c@ =~= old(c)@);
                }
            }
            r
        },
        _ => {
            proof {
                assert(false);
            }
            None
        },
    }
}

fn duplicate_rec(c: &mut AetCompNode, path: &Vec<usize>, d: usize) -> (ok: bool)
    requires
        d <= path@.len(),
    ensures
        ok ==> duplicate_at_spec(old(c)@, path_from(path@, d as int)) == Some(final(c)@),
        !ok ==> final(c)@ == old(c)@ && duplicate_at_spec(
            old(c)@,
            path_from(path@, d as int),
        ) is None,
    decreases path@.len() - d,
{
    proof {
        lemma_layer_models_of(c.layers@);
    }
    if d == path.len() {
        return false;
    }
    proof {
        lemma_path_from_step(path@, d as int);
    }
    let i: usize = path[d];
    if i >= c.layers.len() {
        return false;
    }
    if d + 1 == path.len() {
        let ghost old_layers = c.layers@;
        let copy = copy_layer(&c.layers[i]);
        c.layers.insert(i + 1, copy);
        proof {
            lemma_layer_models_of(old_layers);
            lemma_layer_models_of(c.layers@);
            assert(c@ =~= layer_models_of(old_layers).insert(
                i as int + 1,
                layer_model(old_layers[i as int]),
            ));
        }
        return true;
    }
    if !(matches!(&c.layers[i].item, AetItemNode::Comp(_))) {
        return false;
    }
    let ghost old_layers = c.layers@;
    match &mut c.layers[i].item {
        AetItemNode::Comp(sub) => {
            let ghost old_sub_m = sub@;
            let ok = duplicate_rec(sub, path, d + 1);
            proof {
                let updated = c.layers@[i as int];
                assert(c.layers@ =~= old_layers.update(i as int, updated));
                lemma_models_update(old_layers, i as int, updated);
                let old_lm = layer_model(old_layers[i as int]);
                assert(old_lm.item == ItemModel::Comp(old_sub_m));
                if ok {
                    let new_sub_m = item_model(updated.item)->Comp_0;
                    assert(layer_model(updated) =~= (LayerModel {
                        item: ItemModel::Comp(new_sub_m),
                        ..old_lm
                    }));
                    assert(c@ =~= old(c)@.update(
                        i as int,
                        LayerModel { item: ItemModel::Comp(new_sub_m), ..old_lm },
                    ));
                } else {
                    assert(layer_model(updated) == old_lm);
                    assert(c@ =~= old(c)@);
                }
            }
            ok
        },
        _ => {
            proof {
                assert(false);
            }
            false
        },
    }
}

fn reorder_rec(c: &mut AetCompNode, pp: &Vec<usize>, d: usize, from: usize, to: usize) -> (ok:
    bool)
    requires
        d <= pp@.len(),
    ensures
        ok ==> reorder_at_spec(old(c)@, path_from(pp@, d as int), from, to) == Some(final(c)@),
        !ok ==> final(c)@ == old(c)@ && reorder_at_spec(
            old(c)@,
            path_from(pp@, d as int),
            from,
            to,
        ) is None,
    decreases pp@.len() - d,
{
    proof {
        lemma_layer_models_of(c.layers@);
    }
    if d == pp.len() {
        if from < c.layers.len() && to < c.layers.len() {
            let ghost old_layers = c.layers@;
            let moved = c.layers.remove(from);
            c.layers.insert(to, moved);
            proof {
                lemma_layer_models_of(old_layers);
                lemma_layer_models_of(old_layers.remove(from as int));
                lemma_layer_models_of(c.layers@);
                assert(layer_models_of(old_layers.remove(from as int)) =~= layer_models_of(
                    old_layers,
                ).remove(from as int));
                assert(c@ =~= layer_models_of(old_layers).remove(from as int).insert(
                    to as int,
                    layer_model(old_layers[from as int]),
                ));
            }
            return true;
        } else {
            return false;
        }
    }
    proof {
        lemma_path_from_step(pp@, d as int);
    }
    let i: usize = pp[d];
    if i >= c.layers.len() {
        return false;
    }
    if !(matches!(&c.layers[i].item, AetItemNode::Comp(_))) {
        return false;
    }
    let ghost old_layers = c.layers@;
    match &mut c.layers[i].item {
        AetItemNode::Comp(sub) => {
            let ghost old_sub_m = sub@;
            let ok = reorder_rec(sub, pp, d + 1, from, to);
            proof {
                let updated = c.layers@[i as int];
                assert(c.layers@ =~= old_layers.update(i as int, updated));
                lemma_models_update(old_layers, i as int, updated);
                let old_lm = layer_model(old_layers[i as int]);
                assert(old_lm.item == ItemModel::Comp(old_sub_m));
                if ok {
                    let new_sub_m = item_model(updated.item)->Comp_0;
                    assert(layer_model(updated) =~= (LayerModel {
                        item: ItemModel::Comp(new_sub_m),
                        ..old_lm
                    }));
                    assert(c@ =~= old(c)@.update(
                        i as int,
                        LayerModel { item: ItemModel::Comp(new_sub_m), ..old_lm },
                    ));
                } else {
                    assert(layer_model(updated) == old_lm);
                    assert(c@ =~= old(c)@);
                }
            }
            ok
        },
        _ => {
            proof {
                assert(false);
            }
            false
        },
    }
}

fn set_item_rec(c: &mut AetCompNode, path: &Vec<usize>, d: usize, item: AetItemNode) -> (r: Option<
    AetItemNode,
>)
    requires
        d <= path@.len(),
    ensures
        match r {
            Some(old_item) => set_item_at_spec(old(c)@, path_from(path@, d as int), item@) == Some(
                (final(c)@, old_item@),
            ),
            None => final(c)@ == old(c)@ && set_item_at_spec(
                old(c)@,
                path_from(path@, d as int),
                item@,
            ) is None,
        },
    decreases path@.len() - d,
{
    proof {
        lemma_layer_models_of(c.layers@);
    }
    if d == path.len() {
        return None;
    }
    proof {
        lemma_path_from_step(path@, d as int);
    }
    let i: usize = path[d];
    if i >= c.layers.len() {
        return None;
    }
    if d + 1 == path.len() {
        let ghost old_layers = c.layers@;
        let old_item = copy_item(&c.layers[i].item);
        c.layers[i].item = item;
        proof {
            let updated = c.layers@[i as int];
            assert(c.layers@ =~= old_layers.update(i as int, updated));
            lemma_models_update(old_layers, i as int, updated);
            let old_lm = layer_model(old_layers[i as int]);
            assert(layer_model(updated) =~= (LayerModel { item: item@, ..old_lm }));
            assert(c@ =~= old(c)@.update(i as int, LayerModel { item: item@, ..old_lm }));
        }
        return Some(old_item);
    }
    if !(matches!(&c.layers[i].item, AetItemNode::Comp(_))) {
        return None;
    }
    let ghost old_layers = c.layers@;
    match &mut c.layers[i].item {
        AetItemNode::Comp(sub) => {
            let ghost old_sub_m = sub@;
            let r = set_item_rec(sub, path, d + 1, item);
            proof {
                let updated = c.layers@[i as int];
                assert(c.layers@ =~= old_layers.update(i as int, updated));
                lemma_models_update(old_layers, i as int, updated);
                let old_lm = layer_model(old_layers[i as int]);
                assert(old_lm.item == ItemModel::Comp(old_sub_m));
                if r is Some {
                    let new_sub_m = item_model(updated.item)->Comp_0;
                    assert(layer_model(updated) =~= (LayerModel {
                        item: ItemModel::Comp(new_sub_m),
                        ..old_lm
                    }));
                    assert(c@ =~= old(c)@.update(
                        i as int,
                        LayerModel { item: ItemModel::Comp(new_sub_m), ..old_lm },
                    ));
                } else {
                    assert(layer_model(updated) == old_lm);
                    assert(c@ =~= old(c)@);
                }
            }
            r
        },
        _ => {
            proof {
                assert(false);
            }
            None
        },
    }
}


/// The local time of the layer a path addresses: each descent into a
/// nested composition remaps the clock through the carrying layer's
/// start, time scale and offset.  `None` when the path is invalid or a
/// remapped time leaves the representable range.
pub open spec fn resolve_time_spec(s: Seq<LayerModel>, p: Seq<usize>, t: i64) -> Option<i64>
    decreases p.len(),
{
    if p.len() == 0 {
        None
    } else if p[0] >= s.len() {
        None
    } else if p.len() == 1 {
        Some(t)
    } else {
        match s[p[0] as int].item {
            ItemModel::Comp(c) => {
                let l = s[p[0] as int];
                let t2 = crate::fx::remap_spec(
                    t as int,
                    l.start_time as int,
                    l.time_scale as int,
                    l.offset_time as int,
                );
                if crate::fx::fx_in_range(t2) {
                    resolve_time_spec(c, path_rest(p), t2 as i64)
                } else {
                    None
                }
            },
            _ => None,
        }
    }
}

fn resolve_time_rec<'a>(c: &'a AetCompNode, path: &Vec<usize>, d: usize, t: i64) -> (r: Option<
    (&'a AetLayerNode, i64),
>)
    requires
        d <= path@.len(),
    ensures
        match r {
            Some(lt) => resolve_spec(c@, path_from(path@, d as int)) == Some(lt.0@)
                && resolve_time_spec(c@, path_from(path@, d as int), t) == Some(lt.1),
            None => resolve_spec(c@, path_from(path@, d as int)) is None || resolve_time_spec(
                c@,
                path_from(path@, d as int),
                t,
            ) is None,
        },
    decreases path@.len() - d,
{
    proof {
        lemma_layer_models_of(c.layers@);
    }
    if d == path.len() {
        return None;
    }
    proof {
        lemma_path_from_step(path@, d as int);
    }
    let i: usize = path[d];
    if i >= c.layers.len() {
        return None;
    }
    if d + 1 == path.len() {
        return Some((&c.layers[i], t));
    }
    match &c.layers[i].item {
        AetItemNode::Comp(sub) => {
            let l = &c.layers[i];
            match crate::fx::remap_time(t, l.start_time, l.time_scale, l.offset_time) {
                Some(t2) => resolve_time_rec(sub, path, d + 1, t2),
                None => None,
            }
        },
        _ => None,
    }
}

impl AetSceneNode {
    /// The layer a path addresses together with its local time, starting
    /// from the scene's current time at the root.
    pub fn resolve_with_time<'a>(&'a self, path: &Vec<usize>) -> (r: Option<
        (&'a AetLayerNode, i64),
    >)
        ensures
            match r {
                Some(lt) => resolve_spec(self@.root, path@) == Some(lt.0@) && resolve_time_spec(
                    self@.root,
                    path@,
                    self.current_time,
                ) == Some(lt.1),
                None => resolve_spec(self@.root, path@) is None || resolve_time_spec(
                    self@.root,
                    path@,
                    self.current_time,
                ) is None,
            },
    {
        proof {
            assert(path_from(path@, 0) =~= path@);
        }
        resolve_time_rec(&self.root, path, 0, self.current_time)
    }
}

impl crate::scene::AetSetNode {
    /// The scene a full document path addresses: the first element names
    /// the scene-set pane, the second the scene.
    pub fn resolve_scene<'a>(&'a self, path: &Vec<usize>) -> (r: Option<&'a AetSceneNode>)
        ensures
            match r {
                Some(sc) => path@.len() >= 2 && path@[0] == 0 && (path@[1] as int)
                    < self@.scenes.len() && self@.scenes[path@[1] as int] == sc@,
                None => !(path@.len() >= 2 && path@[0] == 0 && (path@[1] as int)
                    < self@.scenes.len()),
            },
    {
        if path.len() >= 2 && path[0] == 0 && path[1] < self.scenes.len() {
            Some(&self.scenes[path[1]])
        } else {
            None
        }
    }
}

} // verus!
