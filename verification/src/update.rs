//! Structure-preserving wholesale updates.
//!
//! `update_from` makes one node carry another's persisted content while
//! keeping its own transient interface state wherever the tree shapes line
//! up: matching layer lists are updated pairwise, anything else is
//! replaced by a deep copy.  Restoring an undo snapshot and reloading a
//! file both go through these, so open subtrees keep their expansion and
//! selection where they can.

use vstd::prelude::*;

use crate::eq::lemma_scrub_layers;
use crate::eq::scrub_layer;
use crate::eq::scrub_layers;
use crate::eq::scrub_scene;
use crate::model::AetItemNode;
use crate::model::AetLayerNode;
use crate::model::AetCompNode;
use crate::model::ItemModel;
use crate::model::LayerModel;
use crate::model::copy_audio;
use crate::model::copy_comp;
use crate::model::copy_item;
use crate::model::copy_markers;
use crate::model::copy_video;
use crate::model::layer_model;
use crate::model::layer_models_of;
use crate::model::lemma_layer_models_of;
use crate::scene::AetSceneNode;
use crate::scene::AetSetNode;
use crate::scene::SceneModel;
use crate::scene::SetModel;
use crate::scene::copy_camera;
use crate::scene::copy_scene;
use crate::scene::scene_models_of;

verus! {

/// The layer `a` becomes when it takes `b`'s persisted content: every
/// persisted field from `b`; transient state from `a`; a nested
/// composition of the same width updated pairwise, any other item
/// replaced.
pub open spec fn update_layer_spec(a: LayerModel, b: LayerModel) -> LayerModel
    decreases a,
{
    LayerModel {
        id: b.id,
        name: b.name,
        start_time: b.start_time,
        end_time: b.end_time,
        offset_time: b.offset_time,
        time_scale: b.time_scale,
        flags: b.flags,
        quality: b.quality,
        item: match a.item {
            ItemModel::Comp(x) => match b.item {
                ItemModel::Comp(y) => if x.len() == y.len() {
                    ItemModel::Comp(update_layers_spec(x, y))
                } else {
                    b.item
                },
                _ => b.item,
            },
            _ => b.item,
        },
        markers: b.markers,
        video: b.video,
        audio: b.audio,
        parent_ref: b.parent_ref,
        visible: a.visible,
        selected_key: a.selected_key,
        want_deletion: a.want_deletion,
        want_duplicate: a.want_duplicate,
    }
}

pub open spec fn update_layers_spec(xs: Seq<LayerModel>, ys: Seq<LayerModel>) -> Seq<LayerModel>
    decreases xs,
{
    if xs.len() == 0 || ys.len() == 0 {
        Seq::empty()
    } else {
        update_layers_spec(xs.drop_last(), ys.drop_last()).push(
            update_layer_spec(xs.last(), ys.last()),
        )
    }
}

pub proof fn lemma_update_layers_spec(xs: Seq<LayerModel>, ys: Seq<LayerModel>)
    requires
        xs.len() == ys.len(),
    ensures
        update_layers_spec(xs, ys).len() == xs.len(),
        forall|i: int| 0 <= i < xs.len() ==> update_layers_spec(xs, ys)[i] == update_layer_spec(
            xs[i],
            ys[i],
        ),
    decreases xs,
{
    if xs.len() > 0 {
        lemma_update_layers_spec(xs.drop_last(), ys.drop_last());
    }
}

/// After an update, the receiver's persisted content is the source's.
pub proof fn lemma_update_layer_persists(a: LayerModel, b: LayerModel)
    ensures
        scrub_layer(update_layer_spec(a, b)) == scrub_layer(b),
    decreases a,
{
    let u = update_layer_spec(a, b);
    match a.item {
        ItemModel::Comp(x) => match b.item {
            ItemModel::Comp(y) => {
                if x.len() == y.len() {
                    lemma_update_layers_persist(x, y);
                    assert(scrub_layer(u) =~= scrub_layer(b));
                } else {
                    assert(scrub_layer(u) =~= scrub_layer(b));
                }
            },
            _ => {
                assert(scrub_layer(u) =~= scrub_layer(b));
            },
        },
        _ => {
            assert(scrub_layer(u) =~= scrub_layer(b));
        },
    }
}

pub proof fn lemma_update_layers_persist(xs: Seq<LayerModel>, ys: Seq<LayerModel>)
    requires
        xs.len() == ys.len(),
    ensures
        scrub_layers(update_layers_spec(xs, ys)) == scrub_layers(ys),
    decreases xs,
{
    lemma_update_layers_spec(xs, ys);
    lemma_scrub_layers(update_layers_spec(xs, ys));
    lemma_scrub_layers(ys);
    assert forall|i: int| 0 <= i < xs.len() implies scrub_layers(update_layers_spec(xs, ys))[i]
        == scrub_layers(ys)[i] by {
        lemma_update_layer_persists(xs[i], ys[i]);
    }
    assert(scrub_layers(update_layers_spec(xs, ys)) =~= scrub_layers(ys));
}

/// The scene `a` becomes when it takes `b`'s persisted content.
pub open spec fn update_scene_spec(a: SceneModel, b: SceneModel) -> SceneModel {
    SceneModel {
        name: b.name,
        start_time: b.start_time,
        end_time: b.end_time,
        fps: b.fps,
        color: b.color,
        width: b.width,
        height: b.height,
        camera: b.camera,
        root: if a.root.len() == b.root.len() {
            update_layers_spec(a.root, b.root)
        } else {
            b.root
        },
        next_id: b.next_id,
        current_time: a.current_time,
        playing: a.playing,
        display_placeholders: a.display_placeholders,
        centered: a.centered,
        selected_curve: a.selected_curve,
    }
}

pub proof fn lemma_update_scene_persists(a: SceneModel, b: SceneModel)
    ensures
        scrub_scene(update_scene_spec(a, b)) == scrub_scene(b),
{
    if a.root.len() == b.root.len() {
        lemma_update_layers_persist(a.root, b.root);
    }
    assert(scrub_scene(update_scene_spec(a, b)) =~= scrub_scene(b));
}

/// Builds the updated composition: pairwise updates when the widths
/// match, a copy of the source otherwise.
pub fn update_comp_built(x: &AetCompNode, y: &AetCompNode) -> (r: AetCompNode)
    ensures
        r@ == if x@.len() == y@.len() {
            update_layers_spec(x@, y@)
        } else {
            y@
        },
    decreases *x,
{
    proof {
        lemma_layer_models_of(x.layers@);
        lemma_layer_models_of(y.layers@);
    }
    if x.layers.len() != y.layers.len() {
        return copy_comp(y);
    }
    let ghost xs0 = layer_models_of(x.layers@);
    let ghost ys = layer_models_of(y.layers@);
    proof {
        lemma_update_layers_spec(xs0, ys);
    }
    let n = y.layers.len();
    let mut out: Vec<AetLayerNode> = Vec::new();
    let mut i: usize = 0;
    while i < n
        invariant
            i <= n,
            n == x.layers@.len(),
            n == y.layers@.len(),
            xs0.len() == n,
            ys.len() == n,
            xs0 == layer_models_of(x.layers@),
            ys == layer_models_of(y.layers@),
            out@.len() == i,
            forall|j: int| 0 <= j < n ==> xs0[j] == layer_model(x.layers@[j]),
            forall|j: int| 0 <= j < n ==> ys[j] == layer_model(y.layers@[j]),
            forall|j: int| 0 <= j < i ==> layer_model(out@[j]) == update_layer_spec(
                xs0[j],
                ys[j],
            ),
        decreases n - i,
    {
        let upd = update_layer_built(&x.layers[i], &y.layers[i]);
        out.push(upd);
        i = i + 1;
    }
    proof {
        lemma_layer_models_of(out@);
        assert(layer_models_of(out@) =~= update_layers_spec(xs0, ys));
    }
    AetCompNode { layers: out }
}

/// Builds the updated layer: `cur`'s transient state, `src`'s persisted
/// content, recursing pairwise where both carry compositions of the same
/// width.
pub fn update_layer_built(cur: &AetLayerNode, src: &AetLayerNode) -> (r: AetLayerNode)
    ensures
        r@ == update_layer_spec(cur@, src@),
    decreases *cur,
{
    let item = match (&cur.item, &src.item) {
        (AetItemNode::Comp(x), AetItemNode::Comp(y)) => AetItemNode::Comp(
            update_comp_built(x, y),
        ),
        (_, other_item) => copy_item(other_item),
    };
    let r = AetLayerNode {
        id: src.id,
        name: src.name.clone(),
        start_time: src.start_time,
        end_time: src.end_time,
        offset_time: src.offset_time,
        time_scale: src.time_scale,
        flags: src.flags,
        quality: src.quality,
        item,
        markers: copy_markers(&src.markers),
        video: match &src.video {
            Some(v) => Some(copy_video(v)),
            None => None,
        },
        audio: match &src.audio {
            Some(a) => Some(copy_audio(a)),
            None => None,
        },
        parent_ref: src.parent_ref,
        visible: cur.visible,
        selected_key: cur.selected_key,
        want_deletion: cur.want_deletion,
        want_duplicate: cur.want_duplicate,
    };
    proof {
        assert(r@ =~~= update_layer_spec(cur@, src@));
    }
    r
}

impl AetLayerNode {
    /// Takes `other`'s persisted content, keeping this layer's transient
    /// interface state where the tree shapes line up.
    pub fn update_from(&mut self, other: &AetLayerNode)
        ensures
            final(self)@ == update_layer_spec(old(self)@, other@),
    {
        let updated = update_layer_built(self, other);
        *self = updated;
    }
}

impl AetSceneNode {
    /// Takes `other`'s persisted content, keeping this scene's playback
    /// and selection state, and updating layer lists of matching width
    /// pairwise.
    pub fn update_from(&mut self, other: &AetSceneNode)
        ensures
            final(self)@ == update_scene_spec(old(self)@, other@),
    {
        self.name = other.name.clone();
        self.start_time = other.start_time;
        self.end_time = other.end_time;
        self.fps = other.fps;
        self.color = other.color;
        self.width = other.width;
        self.height = other.height;
        self.camera = match &other.camera {
            Some(c) => Some(copy_camera(c)),
            None => None,
        };
        self.next_id = other.next_id;
        let ghost cam0 = self.camera;
        let ghost xs0 = layer_models_of(self.root.layers@);
        let ghost ys = layer_models_of(other.root.layers@);
        proof {
            lemma_layer_models_of(self.root.layers@);
            lemma_layer_models_of(other.root.layers@);
        }
        if self.root.layers.len() == other.root.layers.len() {
            proof {
                lemma_update_layers_spec(xs0, ys);
            }
            let n = self.root.layers.len();
            let mut i: usize = 0;
            while i < n
                invariant
                    n == self.root.layers@.len(),
                    n == other.root.layers@.len(),
                    i <= n,
                    xs0.len() == n,
                    ys.len() == n,
                    forall|j: int| 0 <= j < n ==> ys[j] == layer_model(other.root.layers@[j]),
                    forall|j: int| i <= j < n ==> layer_model(self.root.layers@[j]) == xs0[j],
                    forall|j: int| 0 <= j < i ==> layer_model(self.root.layers@[j])
                        == update_layer_spec(xs0[j], ys[j]),
                    self.name@ == other.name@,
                    self.start_time == other.start_time,
                    self.end_time == other.end_time,
                    self.fps == other.fps,
                    self.color == other.color,
                    self.width == other.width,
                    self.height == other.height,
                    self.camera == cam0,
                    self.next_id == other.next_id,
                    self.current_time == old(self).current_time,
                    self.playing == old(self).playing,
                    self.display_placeholders == old(self).display_placeholders,
                    self.centered == old(self).centered,
                    self.selected_curve == old(self).selected_curve,
                decreases n - i,
            {
                self.root.layers[i].update_from(&other.root.layers[i]);
                i = i + 1;
            }
            proof {
                lemma_layer_models_of(self.root.layers@);
                assert(layer_models_of(self.root.layers@) =~= update_layers_spec(xs0, ys));
                assert(self@ =~= update_scene_spec(old(self)@, other@));
            }
        } else {
            self.root = copy_comp(&other.root);
            proof {
                assert(self@ =~= update_scene_spec(old(self)@, other@));
            }
        }
    }
}

/// The set `a` becomes when it takes `b`'s content: scene lists of
/// matching width are updated pairwise, so playback state survives a
/// reload or an undo of the same shape.
pub open spec fn update_set_spec(a: SetModel, b: SetModel) -> SetModel {
    SetModel {
        name: b.name,
        modern: b.modern,
        big_endian: b.big_endian,
        is_x: b.is_x,
        scenes: if a.scenes.len() == b.scenes.len() {
            Seq::new(a.scenes.len(), |i: int| update_scene_spec(a.scenes[i], b.scenes[i]))
        } else {
            b.scenes
        },
    }
}

impl AetSetNode {
    /// Takes `other`'s content, updating scenes of matching count pairwise.
    pub fn update_from(&mut self, other: &AetSetNode)
        ensures
            final(self)@ == update_set_spec(old(self)@, other@),
    {
        self.name = other.name.clone();
        self.modern = other.modern;
        self.big_endian = other.big_endian;
        self.is_x = other.is_x;
        let ghost xs0 = scene_models_of(self.scenes@);
        let ghost ys = scene_models_of(other.scenes@);
        if self.scenes.len() == other.scenes.len() {
            let n = self.scenes.len();
            let mut i: usize = 0;
            while i < n
                invariant
                    n == self.scenes@.len(),
                    n == other.scenes@.len(),
                    i <= n,
                    xs0.len() == n,
                    ys.len() == n,
                    forall|j: int| 0 <= j < n ==> ys[j] == other.scenes@[j]@,
                    forall|j: int| i <= j < n ==> self.scenes@[j]@ == xs0[j],
                    forall|j: int| 0 <= j < i ==> self.scenes@[j]@ == update_scene_spec(
                        xs0[j],
                        ys[j],
                    ),
                    self.name@ == other.name@,
                    self.modern == other.modern,
                    self.big_endian == other.big_endian,
                    self.is_x == other.is_x,
                decreases n - i,
            {
                self.scenes[i].update_from(&other.scenes[i]);
                i = i + 1;
            }
            proof {
                assert(scene_models_of(self.scenes@) =~= Seq::new(
                    xs0.len(),
                    |i: int| update_scene_spec(xs0[i], ys[i]),
                ));
                assert(self@ =~= update_set_spec(old(self)@, other@));
            }
        } else {
            let mut scenes: Vec<AetSceneNode> = Vec::new();
            let mut i: usize = 0;
            while i < other.scenes.len()
                invariant
                    i <= other.scenes@.len(),
                    scene_models_of(scenes@) =~= scene_models_of(
                        other.scenes@.subrange(0, i as int),
                    ),
                decreases other.scenes@.len() - i,
            {
                let ghost before = scenes@;
                scenes.push(copy_scene(&other.scenes[i]));
                proof {
                    assert(scenes@.drop_last() =~= before);
                    assert(scene_models_of(scenes@) =~= scene_models_of(before).push(
                        scenes@.last()@,
                    ));
                    assert(other.scenes@.subrange(0, i as int + 1).drop_last()
                        =~= other.scenes@.subrange(0, i as int));
                    assert(scene_models_of(other.scenes@.subrange(0, i as int + 1))
                        =~= scene_models_of(other.scenes@.subrange(0, i as int)).push(
                        other.scenes@[i as int]@,
                    ));
                }
                i = i + 1;
            }
            self.scenes = scenes;
            proof {
                assert(other.scenes@.subrange(0, other.scenes@.len() as int) =~= other.scenes@);
                assert(self@ =~= update_set_spec(old(self)@, other@));
            }
        }
    }
}

} // verus!
