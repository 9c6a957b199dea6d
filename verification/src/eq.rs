//! Persisted content equality.
//!
//! Two layers (or scenes) count as equal when their persisted fields agree;
//! transient interface state — visibility toggles, key selection, pending
//! deletion or duplication marks, playback position — is ignored.  The
//! `scrub_*` functions erase exactly those fields from a model, so equality
//! of scrubbed models is the meaning of every comparison here.

use vstd::prelude::*;

use crate::curve::FCurve;
use crate::curve::FCurveKey;
use crate::model::AetCompNode;
use crate::model::AetItemNode;
use crate::model::AetLayerNode;
use crate::model::AetVideoNode;
use crate::model::AetVideoSourceNode;
use crate::model::ItemModel;
use crate::model::LayerAudio;
use crate::model::LayerModel;
use crate::model::LayerVideo;
use crate::model::LayerVideo3D;
use crate::model::Marker;
use crate::model::layer_model;
use crate::model::marker_models_of;
use crate::model::source_models_of;
use crate::model::layer_models_of;
use crate::model::lemma_layer_models_of;
use crate::scene::AetSceneNode;
use crate::scene::AetCamera;
use crate::scene::SceneModel;

verus! {

/// A layer model with its transient interface state erased.
pub open spec fn scrub_layer(m: LayerModel) -> LayerModel
    decreases m,
{
    LayerModel {
        visible: false,
        selected_key: 0,
        want_deletion: false,
        want_duplicate: false,
        item: scrub_item(m.item),
        ..m
    }
}

pub open spec fn scrub_item(it: ItemModel) -> ItemModel
    decreases it,
{
    match it {
        ItemModel::Comp(c) => ItemModel::Comp(scrub_layers(c)),
        _ => it,
    }
}

pub open spec fn scrub_layers(s: Seq<LayerModel>) -> Seq<LayerModel>
    decreases s,
{
    if s.len() == 0 {
        Seq::empty()
    } else {
        scrub_layers(s.drop_last()).push(scrub_layer(s.last()))
    }
}

/// A scene model with its transient playback state erased as well.
pub open spec fn scrub_scene(m: SceneModel) -> SceneModel {
    SceneModel {
        root: scrub_layers(m.root),
        current_time: 0,
        playing: false,
        display_placeholders: false,
        centered: false,
        selected_curve: None,
        ..m
    }
}

pub proof fn lemma_scrub_layers(s: Seq<LayerModel>)
    ensures
        scrub_layers(s).len() == s.len(),
        forall|i: int| 0 <= i < s.len() ==> scrub_layers(s)[i] == scrub_layer(s[i]),
    decreases s,
{
    if s.len() > 0 {
        lemma_scrub_layers(s.drop_last());
    }
}

/// Whether two key lists are equal.
pub fn keys_eq(a: &FCurve, b: &FCurve) -> (r: bool)
    ensures
        r == (a@ == b@),
{
    if a.keys.len() != b.keys.len() {
        return false;
    }
    let mut i: usize = 0;
    while i < a.keys.len()
        invariant
            i <= a@.len(),
            a@.len() == b@.len(),
            forall|j: int| 0 <= j < i ==> a@[j] == b@[j],
        decreases a@.len() - i,
    {
        let ka = a.keys[i];
        let kb = b.keys[i];
        if !(ka.frame == kb.frame && ka.value == kb.value && ka.tangent == kb.tangent) {
            return false;
        }
        i = i + 1;
    }
    proof {
        assert(a@ =~= b@);
    }
    true
}

fn video3d_eq(a: &LayerVideo3D, b: &LayerVideo3D) -> (r: bool)
    ensures
        r == (a@ == b@),
{
    let r = keys_eq(&a.anchor_z, &b.anchor_z) && keys_eq(&a.pos_z, &b.pos_z) && keys_eq(
        &a.dir_x,
        &b.dir_x,
    ) && keys_eq(&a.dir_y, &b.dir_y) && keys_eq(&a.dir_z, &b.dir_z) && keys_eq(&a.rot_x, &b.rot_x)
        && keys_eq(&a.rot_y, &b.rot_y) && keys_eq(&a.scale_z, &b.scale_z);
    proof {
        if r {
            assert(a@ =~= b@);
        }
    }
    r
}

fn video_eq(a: &LayerVideo, b: &LayerVideo) -> (r: bool)
    ensures
        r == (a@ == b@),
{
    let td = match (&a.three_d, &b.three_d) {
        (Some(x), Some(y)) => video3d_eq(x, y),
        (None, None) => true,
        _ => false,
    };
    let r = td && a.transfer_mode == b.transfer_mode && keys_eq(&a.anchor_x, &b.anchor_x)
        && keys_eq(&a.anchor_y, &b.anchor_y) && keys_eq(&a.pos_x, &b.pos_x) && keys_eq(
        &a.pos_y,
        &b.pos_y,
    ) && keys_eq(&a.rot_z, &b.rot_z) && keys_eq(&a.scale_x, &b.scale_x) && keys_eq(
        &a.scale_y,
        &b.scale_y,
    ) && keys_eq(&a.opacity, &b.opacity);
    proof {
        if r {
            assert(a@ =~= b@);
        }
    }
    r
}

fn audio_eq(a: &LayerAudio, b: &LayerAudio) -> (r: bool)
    ensures
        r == (a@ == b@),
{
    let r = keys_eq(&a.volume_l, &b.volume_l) && keys_eq(&a.volume_r, &b.volume_r) && keys_eq(
        &a.pan_l,
        &b.pan_l,
    ) && keys_eq(&a.pan_r, &b.pan_r);
    proof {
        if r {
            assert(a@ =~= b@);
        }
    }
    r
}

fn markers_eq(a: &Vec<Marker>, b: &Vec<Marker>) -> (r: bool)
    ensures
        r == (marker_models_of(a@) == marker_models_of(b@)),
{
    let ghost am = marker_models_of(a@);
    let ghost bm = marker_models_of(b@);
    if a.len() != b.len() {
        proof {
            assert(am.len() != bm.len());
        }
        return false;
    }
    let mut i: usize = 0;
    while i < a.len()
        invariant
            i <= a@.len(),
            a@.len() == b@.len(),
            am == marker_models_of(a@),
            bm == marker_models_of(b@),
            forall|j: int| 0 <= j < i ==> am[j] == bm[j],
        decreases a@.len() - i,
    {
        if !(a[i].frame == b[i].frame && a[i].name == b[i].name) {
            proof {
                assert(am[i as int] == a@[i as int]@);
                assert(bm[i as int] == b@[i as int]@);
            }
            return false;
        }
        proof {
            assert(am[i as int] =~= bm[i as int]);
        }
        i = i + 1;
    }
    proof {
        assert(am =~= bm);
    }
    true
}

fn sources_eq(a: &Vec<AetVideoSourceNode>, b: &Vec<AetVideoSourceNode>) -> (r: bool)
    ensures
        r == (source_models_of(a@) == source_models_of(b@)),
{
    let ghost am = source_models_of(a@);
    let ghost bm = source_models_of(b@);
    if a.len() != b.len() {
        proof {
            assert(am.len() != bm.len());
        }
        return false;
    }
    let mut i: usize = 0;
    while i < a.len()
        invariant
            i <= a@.len(),
            a@.len() == b@.len(),
            am == source_models_of(a@),
            bm == source_models_of(b@),
            forall|j: int| 0 <= j < i ==> am[j] == bm[j],
        decreases a@.len() - i,
    {
        if !(a[i].id == b[i].id && a[i].name == b[i].name) {
            proof {
                assert(am[i as int] == a@[i as int]@);
                assert(bm[i as int] == b@[i as int]@);
            }
            return false;
        }
        proof {
            assert(am[i as int] =~= bm[i as int]);
        }
        i = i + 1;
    }
    proof {
        assert(am =~= bm);
    }
    true
}

fn color_eq(a: &[u8; 3], b: &[u8; 3]) -> (r: bool)
    ensures
        r == (*a == *b),
{
    let r = a[0] == b[0] && a[1] == b[1] && a[2] == b[2];
    proof {
        if r {
            assert(*a =~= *b);
        } else {
            assert(!(*a =~= *b));
        }
    }
    r
}

fn video_node_eq(a: &AetVideoNode, b: &AetVideoNode) -> (r: bool)
    ensures
        r == (a@ == b@),
{
    let r = color_eq(&a.color, &b.color) && a.width == b.width && a.height == b.height && a.fpf
        == b.fpf && sources_eq(&a.sources, &b.sources);
    proof {
        if r {
            assert(a@ =~= b@);
        }
    }
    r
}

/// Whether two items hold the same persisted content.
pub fn item_content_eq(a: &AetItemNode, b: &AetItemNode) -> (r: bool)
    ensures
        r == (scrub_item(a@) == scrub_item(b@)),
    decreases *a,
{
    match (a, b) {
        (AetItemNode::Empty, AetItemNode::Empty) => true,
        (AetItemNode::Video(x), AetItemNode::Video(y)) => video_node_eq(x, y),
        (AetItemNode::Audio(x), AetItemNode::Audio(y)) => x.sound_index == y.sound_index,
        (AetItemNode::Comp(x), AetItemNode::Comp(y)) => comp_content_eq(x, y),
        _ => false,
    }
}

/// Whether two compositions hold the same persisted content.
pub fn comp_content_eq(a: &AetCompNode, b: &AetCompNode) -> (r: bool)
    ensures
        r == (scrub_layers(a@) == scrub_layers(b@)),
    decreases *a,
{
    proof {
        lemma_layer_models_of(a.layers@);
        lemma_layer_models_of(b.layers@);
        lemma_scrub_layers(a@);
        lemma_scrub_layers(b@);
    }
    if a.layers.len() != b.layers.len() {
        return false;
    }
    let mut i: usize = 0;
    while i < a.layers.len()
        invariant
            i <= a.layers@.len(),
            a.layers@.len() == b.layers@.len(),
            scrub_layers(a@).len() == a.layers@.len(),
            scrub_layers(b@).len() == b.layers@.len(),
            forall|j: int| 0 <= j < a.layers@.len() ==> scrub_layers(a@)[j] == scrub_layer(
                layer_model(a.layers@[j]),
            ),
            forall|j: int| 0 <= j < b.layers@.len() ==> scrub_layers(b@)[j] == scrub_layer(
                layer_model(b.layers@[j]),
            ),
            forall|j: int| 0 <= j < i ==> scrub_layers(a@)[j] == scrub_layers(b@)[j],
        decreases a.layers@.len() - i,
    {
        if !layer_content_eq(&a.layers[i], &b.layers[i]) {
            proof {
                assert(scrub_layers(a@)[i as int] != scrub_layers(b@)[i as int]);
            }
            return false;
        }
        i = i + 1;
    }
    proof {
        assert(scrub_layers(a@) =~= scrub_layers(b@));
    }
    true
}

/// Whether two layers hold the same persisted content: identity, naming,
/// timing, flags, animation blocks, markers, links and item, but not the
/// transient interface state.
pub fn layer_content_eq(a: &AetLayerNode, b: &AetLayerNode) -> (r: bool)
    ensures
        r == (scrub_layer(a@) == scrub_layer(b@)),
    decreases *a,
{
    let videos = match (&a.video, &b.video) {
        (Some(x), Some(y)) => video_eq(x, y),
        (None, None) => true,
        _ => false,
    };
    let audios = match (&a.audio, &b.audio) {
        (Some(x), Some(y)) => audio_eq(x, y),
        (None, None) => true,
        _ => false,
    };
    let parents = match (a.parent_ref, b.parent_ref) {
        (Some(x), Some(y)) => x == y,
        (None, None) => true,
        _ => false,
    };
    let r = a.id == b.id && a.name == b.name && a.start_time == b.start_time && a.end_time
        == b.end_time && a.offset_time == b.offset_time && a.time_scale == b.time_scale && a.flags
        == b.flags && a.quality == b.quality && videos && audios && parents && markers_eq(
        &a.markers,
        &b.markers,
    ) && item_content_eq(&a.item, &b.item);
    proof {
        if r {
            assert(scrub_layer(a@) =~= scrub_layer(b@));
        }
    }
    r
}

impl AetSceneNode {
    /// Whether two scenes hold the same persisted content; playback and
    /// display state is ignored.
    pub fn content_eq(&self, other: &Self) -> (r: bool)
        ensures
            r == (scrub_scene(self@) == scrub_scene(other@)),
    {
        let cameras = match (&self.camera, &other.camera) {
            (Some(x), Some(y)) => camera_eq(x, y),
            (None, None) => true,
            _ => false,
        };
        let r = self.name == other.name && self.start_time == other.start_time && self.end_time
            == other.end_time && self.fps == other.fps && color_eq(&self.color, &other.color)
            && self.width == other.width && self.height == other.height && self.next_id
            == other.next_id && cameras && comp_content_eq(&self.root, &other.root);
        proof {
            if r {
                assert(scrub_scene(self@) =~= scrub_scene(other@));
            }
        }
        r
    }
}

fn camera_eq(a: &AetCamera, b: &AetCamera) -> (r: bool)
    ensures
        r == (a@ == b@),
{
    let r = keys_eq(&a.eye_x, &b.eye_x) && keys_eq(&a.eye_y, &b.eye_y) && keys_eq(
        &a.eye_z,
        &b.eye_z,
    ) && keys_eq(&a.pos_x, &b.pos_x) && keys_eq(&a.pos_y, &b.pos_y) && keys_eq(&a.pos_z, &b.pos_z)
        && keys_eq(&a.dir_x, &b.dir_x) && keys_eq(&a.dir_y, &b.dir_y) && keys_eq(
        &a.dir_z,
        &b.dir_z,
    ) && keys_eq(&a.rot_x, &b.rot_x) && keys_eq(&a.rot_y, &b.rot_y) && keys_eq(&a.rot_z, &b.rot_z)
        && keys_eq(&a.zoom, &b.zoom);
    proof {
        if r {
            assert(a@ =~= b@);
        }
    }
    r
}

} // verus!
