//! The layer-graph data model.
//!
//! A scene's content is a tree: a composition is an ordered list of layers,
//! and a layer may carry a nested composition as its item.  A layer may also
//! hold a non-owning reference (`parent_ref`, by stable numeric id) to any
//! other layer of the same scene; the referenced layer's animation is
//! composed before the layer's own when evaluating transforms.
//!
//! Every type has a mathematical model (`View`): vectors become sequences,
//! strings become character sequences, and the tree becomes a tree of ghost
//! records, so contracts can speak of values rather than allocations.

use vstd::prelude::*;

use crate::curve::FCurve;
use crate::curve::FCurveKey;

verus! {

/// Raw transfer-mode bytes of a video animation block, carried through
/// unchanged for the renderer.
#[derive(Clone, Copy, PartialEq, Eq, Structural, Debug)]
pub struct TransferMode {
    pub mode: u8,
    pub flag: u8,
    pub matte: u8,
}

/// Visibility flags of a layer.
#[derive(Clone, Copy, PartialEq, Eq, Structural, Debug)]
pub struct LayerFlags {
    pub video_active: bool,
    pub audio_active: bool,
}

/// Rendering quality of a layer, carried through unchanged.
#[derive(Clone, Copy, PartialEq, Eq, Structural, Debug)]
pub enum LayerQuality {
    Wireframe,
    Draft,
    Best,
}

/// The three-dimensional extension block of a video animation.
pub struct LayerVideo3D {
    pub anchor_z: FCurve,
    pub pos_z: FCurve,
    pub dir_x: FCurve,
    pub dir_y: FCurve,
    pub dir_z: FCurve,
    pub rot_x: FCurve,
    pub rot_y: FCurve,
    pub scale_z: FCurve,
}

#[verifier::ext_equal]
pub struct LayerVideo3DModel {
    pub anchor_z: Seq<FCurveKey>,
    pub pos_z: Seq<FCurveKey>,
    pub dir_x: Seq<FCurveKey>,
    pub dir_y: Seq<FCurveKey>,
    pub dir_z: Seq<FCurveKey>,
    pub rot_x: Seq<FCurveKey>,
    pub rot_y: Seq<FCurveKey>,
    pub scale_z: Seq<FCurveKey>,
}

impl View for LayerVideo3D {
    type V = LayerVideo3DModel;

    open spec fn view(&self) -> LayerVideo3DModel {
        LayerVideo3DModel {
            anchor_z: self.anchor_z@,
            pos_z: self.pos_z@,
            dir_x: self.dir_x@,
            dir_y: self.dir_y@,
            dir_z: self.dir_z@,
            rot_x: self.rot_x@,
            rot_y: self.rot_y@,
            scale_z: self.scale_z@,
        }
    }
}

/// The video (transform) animation block of a layer.
pub struct LayerVideo {
    pub transfer_mode: TransferMode,
    pub anchor_x: FCurve,
    pub anchor_y: FCurve,
    pub pos_x: FCurve,
    pub pos_y: FCurve,
    pub rot_z: FCurve,
    pub scale_x: FCurve,
    pub scale_y: FCurve,
    pub opacity: FCurve,
    pub three_d: Option<LayerVideo3D>,
}

#[verifier::ext_equal]
pub struct LayerVideoModel {
    pub transfer_mode: TransferMode,
    pub anchor_x: Seq<FCurveKey>,
    pub anchor_y: Seq<FCurveKey>,
    pub pos_x: Seq<FCurveKey>,
    pub pos_y: Seq<FCurveKey>,
    pub rot_z: Seq<FCurveKey>,
    pub scale_x: Seq<FCurveKey>,
    pub scale_y: Seq<FCurveKey>,
    pub opacity: Seq<FCurveKey>,
    pub three_d: Option<LayerVideo3DModel>,
}

impl View for LayerVideo {
    type V = LayerVideoModel;

    open spec fn view(&self) -> LayerVideoModel {
        LayerVideoModel {
            transfer_mode: self.transfer_mode,
            anchor_x: self.anchor_x@,
            anchor_y: self.anchor_y@,
            pos_x: self.pos_x@,
            pos_y: self.pos_y@,
            rot_z: self.rot_z@,
            scale_x: self.scale_x@,
            scale_y: self.scale_y@,
            opacity: self.opacity@,
            three_d: match self.three_d {
                Some(t) => Some(t@),
                None => None,
            },
        }
    }
}

/// The audio animation block of a layer.
pub struct LayerAudio {
    pub volume_l: FCurve,
    pub volume_r: FCurve,
    pub pan_l: FCurve,
    pub pan_r: FCurve,
}

#[verifier::ext_equal]
pub struct LayerAudioModel {
    pub volume_l: Seq<FCurveKey>,
    pub volume_r: Seq<FCurveKey>,
    pub pan_l: Seq<FCurveKey>,
    pub pan_r: Seq<FCurveKey>,
}

impl View for LayerAudio {
    type V = LayerAudioModel;

    open spec fn view(&self) -> LayerAudioModel {
        LayerAudioModel {
            volume_l: self.volume_l@,
            volume_r: self.volume_r@,
            pan_l: self.pan_l@,
            pan_r: self.pan_r@,
        }
    }
}

/// A named time marker on a layer.
pub struct Marker {
    pub name: String,
    pub frame: i64,
}

#[verifier::ext_equal]
pub struct MarkerModel {
    pub name: Seq<char>,
    pub frame: i64,
}

impl View for Marker {
    type V = MarkerModel;

    open spec fn view(&self) -> MarkerModel {
        MarkerModel { name: self.name@, frame: self.frame }
    }
}

/// The models of a marker list.
pub open spec fn marker_models_of(s: Seq<Marker>) -> Seq<MarkerModel> {
    s.map(|i: int, m: Marker| m@)
}

/// A named, numbered bitmap reference of a video item.
pub struct AetVideoSourceNode {
    pub name: String,
    pub id: u32,
}

#[verifier::ext_equal]
pub struct VideoSourceModel {
    pub name: Seq<char>,
    pub id: u32,
}

impl View for AetVideoSourceNode {
    type V = VideoSourceModel;

    open spec fn view(&self) -> VideoSourceModel {
        VideoSourceModel { name: self.name@, id: self.id }
    }
}

/// The models of a source list.
pub open spec fn source_models_of(s: Seq<AetVideoSourceNode>) -> Seq<VideoSourceModel> {
    s.map(|i: int, s2: AetVideoSourceNode| s2@)
}

/// A video item: a bitmap-backed leaf of the layer tree.
pub struct AetVideoNode {
    pub color: [u8; 3],
    pub width: u16,
    pub height: u16,
    pub fpf: i64,
    pub sources: Vec<AetVideoSourceNode>,
}

#[verifier::ext_equal]
pub struct VideoNodeModel {
    pub color: [u8; 3],
    pub width: u16,
    pub height: u16,
    pub fpf: i64,
    pub sources: Seq<VideoSourceModel>,
}

impl View for AetVideoNode {
    type V = VideoNodeModel;

    open spec fn view(&self) -> VideoNodeModel {
        VideoNodeModel {
            color: self.color,
            width: self.width,
            height: self.height,
            fpf: self.fpf,
            sources: source_models_of(self.sources@),
        }
    }
}

/// An audio item: a sound-bank index.
#[derive(Clone, Copy, PartialEq, Eq, Structural, Debug)]
pub struct AetAudioNode {
    pub sound_index: u32,
}

/// The item a layer carries: nothing, a video, an audio reference, or a
/// nested composition.
pub enum AetItemNode {
    Empty,
    Video(AetVideoNode),
    Audio(AetAudioNode),
    Comp(AetCompNode),
}

#[verifier::ext_equal]
pub enum ItemModel {
    Empty,
    Video(VideoNodeModel),
    Audio(AetAudioNode),
    Comp(Seq<LayerModel>),
}

/// One node of the layer graph.
pub struct AetLayerNode {
    /// Stable identity within a scene; targets of `parent_ref` are found by
    /// this number, so reordering or editing a layer never redirects links.
    pub id: u64,
    pub name: String,
    pub start_time: i64,
    pub end_time: i64,
    pub offset_time: i64,
    pub time_scale: i64,
    pub flags: LayerFlags,
    pub quality: LayerQuality,
    pub item: AetItemNode,
    pub markers: Vec<Marker>,
    pub video: Option<LayerVideo>,
    pub audio: Option<LayerAudio>,
    /// Non-owning link to another layer of the same scene, by id.
    pub parent_ref: Option<u64>,
    /// Transient interface state, excluded from persisted comparisons.
    pub visible: bool,
    pub selected_key: usize,
    pub want_deletion: bool,
    pub want_duplicate: bool,
}

#[verifier::ext_equal]
pub struct LayerModel {
    pub id: u64,
    pub name: Seq<char>,
    pub start_time: i64,
    pub end_time: i64,
    pub offset_time: i64,
    pub time_scale: i64,
    pub flags: LayerFlags,
    pub quality: LayerQuality,
    pub item: ItemModel,
    pub markers: Seq<MarkerModel>,
    pub video: Option<LayerVideoModel>,
    pub audio: Option<LayerAudioModel>,
    pub parent_ref: Option<u64>,
    pub visible: bool,
    pub selected_key: usize,
    pub want_deletion: bool,
    pub want_duplicate: bool,
}

/// An ordered list of sibling layers.
pub struct AetCompNode {
    pub layers: Vec<AetLayerNode>,
}

pub open spec fn layer_model(l: AetLayerNode) -> LayerModel
    decreases l,
{
    LayerModel {
        id: l.id,
        name: l.name@,
        start_time: l.start_time,
        end_time: l.end_time,
        offset_time: l.offset_time,
        time_scale: l.time_scale,
        flags: l.flags,
        quality: l.quality,
        item: item_model(l.item),
        markers: marker_models_of(l.markers@),
        video: match l.video {
            Some(v) => Some(v@),
            None => None,
        },
        audio: match l.audio {
            Some(a) => Some(a@),
            None => None,
        },
        parent_ref: l.parent_ref,
        visible: l.visible,
        selected_key: l.selected_key,
        want_deletion: l.want_deletion,
        want_duplicate: l.want_duplicate,
    }
}

pub open spec fn item_model(it: AetItemNode) -> ItemModel
    decreases it,
{
    match it {
        AetItemNode::Empty => ItemModel::Empty,
        AetItemNode::Video(v) => ItemModel::Video(v@),
        AetItemNode::Audio(a) => ItemModel::Audio(a),
        AetItemNode::Comp(c) => ItemModel::Comp(layer_models_of(c.layers@)),
    }
}

pub open spec fn layer_models_of(s: Seq<AetLayerNode>) -> Seq<LayerModel>
    decreases s,
{
    if s.len() == 0 {
        Seq::empty()
    } else {
        layer_models_of(s.drop_last()).push(layer_model(s.last()))
    }
}

impl View for AetLayerNode {
    type V = LayerModel;

    open spec fn view(&self) -> LayerModel {
        layer_model(*self)
    }
}

impl View for AetItemNode {
    type V = ItemModel;

    open spec fn view(&self) -> ItemModel {
        item_model(*self)
    }
}

impl View for AetCompNode {
    type V = Seq<LayerModel>;

    open spec fn view(&self) -> Seq<LayerModel> {
        layer_models_of(self.layers@)
    }
}

/// The model of a layer list is the list of the layers' models.
pub proof fn lemma_layer_models_of(s: Seq<AetLayerNode>)
    ensures
        layer_models_of(s).len() == s.len(),
        forall|i: int| 0 <= i < s.len() ==> layer_models_of(s)[i] == layer_model(s[i]),
    decreases s,
{
    if s.len() > 0 {
        lemma_layer_models_of(s.drop_last());
    }
}

impl LayerVideo {
    /// The block a layer receives when video animation is switched on:
    /// scales and opacity seeded at one, everything else without keys.
    pub fn default_block() -> (r: LayerVideo)
        ensures
            r@ == (LayerVideoModel {
                transfer_mode: TransferMode { mode: 0, flag: 0, matte: 0 },
                anchor_x: Seq::empty(),
                anchor_y: Seq::empty(),
                pos_x: Seq::empty(),
                pos_y: Seq::empty(),
                rot_z: Seq::empty(),
                scale_x: seq![FCurveKey { frame: 0, value: 1000, tangent: 0 }],
                scale_y: seq![FCurveKey { frame: 0, value: 1000, tangent: 0 }],
                opacity: seq![FCurveKey { frame: 0, value: 1000, tangent: 0 }],
                three_d: None,
            }),
    {
        let r = LayerVideo {
            transfer_mode: TransferMode { mode: 0, flag: 0, matte: 0 },
            anchor_x: FCurve::empty(),
            anchor_y: FCurve::empty(),
            pos_x: FCurve::empty(),
            pos_y: FCurve::empty(),
            rot_z: FCurve::empty(),
            scale_x: FCurve::constant(1000),
            scale_y: FCurve::constant(1000),
            opacity: FCurve::constant(1000),
            three_d: None,
        };
        proof {
            assert(r@ =~~= (LayerVideoModel {
                transfer_mode: TransferMode { mode: 0, flag: 0, matte: 0 },
                anchor_x: Seq::empty(),
                anchor_y: Seq::empty(),
                pos_x: Seq::empty(),
                pos_y: Seq::empty(),
                rot_z: Seq::empty(),
                scale_x: seq![FCurveKey { frame: 0, value: 1000, tangent: 0 }],
                scale_y: seq![FCurveKey { frame: 0, value: 1000, tangent: 0 }],
                opacity: seq![FCurveKey { frame: 0, value: 1000, tangent: 0 }],
                three_d: None,
            }));
        }
        r
    }
}

impl LayerVideo3D {
    /// The extension block a layer receives when its video animation is
    /// switched to three dimensions: depth scale seeded at one, the rest
    /// without keys.
    pub fn default_block() -> (r: LayerVideo3D)
        ensures
            r@ == (LayerVideo3DModel {
                anchor_z: Seq::empty(),
                pos_z: Seq::empty(),
                dir_x: Seq::empty(),
                dir_y: Seq::empty(),
                dir_z: Seq::empty(),
                rot_x: Seq::empty(),
                rot_y: Seq::empty(),
                scale_z: seq![FCurveKey { frame: 0, value: 1000, tangent: 0 }],
            }),
    {
        let r = LayerVideo3D {
            anchor_z: FCurve::empty(),
            pos_z: FCurve::empty(),
            dir_x: FCurve::empty(),
            dir_y: FCurve::empty(),
            dir_z: FCurve::empty(),
            rot_x: FCurve::empty(),
            rot_y: FCurve::empty(),
            scale_z: FCurve::constant(1000),
        };
        proof {
            assert(r@ =~~= (LayerVideo3DModel {
                anchor_z: Seq::empty(),
                pos_z: Seq::empty(),
                dir_x: Seq::empty(),
                dir_y: Seq::empty(),
                dir_z: Seq::empty(),
                rot_x: Seq::empty(),
                rot_y: Seq::empty(),
                scale_z: seq![FCurveKey { frame: 0, value: 1000, tangent: 0 }],
            }));
        }
        r
    }
}

impl LayerAudio {
    /// The block a layer receives when audio animation is switched on:
    /// both volumes seeded at one, pans without keys.
    pub fn default_block() -> (r: LayerAudio)
        ensures
            r@ == (LayerAudioModel {
                volume_l: seq![FCurveKey { frame: 0, value: 1000, tangent: 0 }],
                volume_r: seq![FCurveKey { frame: 0, value: 1000, tangent: 0 }],
                pan_l: Seq::empty(),
                pan_r: Seq::empty(),
            }),
    {
        let r = LayerAudio {
            volume_l: FCurve::constant(1000),
            volume_r: FCurve::constant(1000),
            pan_l: FCurve::empty(),
            pan_r: FCurve::empty(),
        };
        proof {
            assert(r@ =~~= (LayerAudioModel {
                volume_l: seq![FCurveKey { frame: 0, value: 1000, tangent: 0 }],
                volume_r: seq![FCurveKey { frame: 0, value: 1000, tangent: 0 }],
                pan_l: Seq::empty(),
                pan_r: Seq::empty(),
            }));
        }
        r
    }
}

impl AetLayerNode {
    /// A fresh child layer for this layer's composition, as the editor
    /// creates one: a placeholder name, the parent's span as its length,
    /// the parent's flags and visibility, and no content.  The caller
    /// assigns the id on insertion.
    pub fn new_child(&self) -> (r: AetLayerNode)
        requires
            -0x8000_0000_0000_0000 <= self.end_time - self.start_time <= 0x7fff_ffff_ffff_ffff,
        ensures
            r@.name == "DUMMY"@,
            r@.start_time == 0,
            r@.end_time == self.end_time - self.start_time,
            r@.offset_time == 0,
            r@.time_scale == 1000,
            r@.flags == self@.flags,
            r@.quality == LayerQuality::Best,
            r@.item == ItemModel::Empty,
            r@.markers == Seq::<MarkerModel>::empty(),
            r@.video is None,
            r@.audio is None,
            r@.parent_ref is None,
            r@.visible == self.visible,
            r@.want_deletion == false,
            r@.want_duplicate == false,
    {
        let name: String = "DUMMY".to_owned();
        let r = AetLayerNode {
            id: 0,
            name,
            start_time: 0,
            end_time: self.end_time - self.start_time,
            offset_time: 0,
            time_scale: 1000,
            flags: self.flags,
            quality: LayerQuality::Best,
            item: AetItemNode::Empty,
            markers: Vec::new(),
            video: None,
            audio: None,
            parent_ref: None,
            visible: self.visible,
            selected_key: 0,
            want_deletion: false,
            want_duplicate: false,
        };
        proof {
            assert(r@.markers =~= Seq::<MarkerModel>::empty());
        }
        r
    }

    /// Appends a fresh placeholder marker, as the editor's add button
    /// does.
    pub fn add_marker(&mut self)
        ensures
            final(self)@ == (LayerModel {
                markers: old(self)@.markers.push(MarkerModel { name: "DUMMY"@, frame: 0 }),
                ..old(self)@
            }),
    {
        let name: String = "DUMMY".to_owned();
        self.markers.push(Marker { name, frame: 0 });
        proof {
            assert(marker_models_of(self.markers@) =~= marker_models_of(
                old(self).markers@,
            ).push(MarkerModel { name: "DUMMY"@, frame: 0 }));
            assert(self@ =~~= (LayerModel {
                markers: old(self)@.markers.push(MarkerModel { name: "DUMMY"@, frame: 0 }),
                ..old(self)@
            }));
        }
    }
}

/// Deep value copy of a video animation block.
pub fn copy_video(v: &LayerVideo) -> (r: LayerVideo)
    ensures
        r@ == v@,
{
    LayerVideo {
        transfer_mode: v.transfer_mode,
        anchor_x: v.anchor_x.clone(),
        anchor_y: v.anchor_y.clone(),
        pos_x: v.pos_x.clone(),
        pos_y: v.pos_y.clone(),
        rot_z: v.rot_z.clone(),
        scale_x: v.scale_x.clone(),
        scale_y: v.scale_y.clone(),
        opacity: v.opacity.clone(),
        three_d: match &v.three_d {
            Some(t) => Some(
                LayerVideo3D {
                    anchor_z: t.anchor_z.clone(),
                    pos_z: t.pos_z.clone(),
                    dir_x: t.dir_x.clone(),
                    dir_y: t.dir_y.clone(),
                    dir_z: t.dir_z.clone(),
                    rot_x: t.rot_x.clone(),
                    rot_y: t.rot_y.clone(),
                    scale_z: t.scale_z.clone(),
                },
            ),
            None => None,
        },
    }
}

/// Deep value copy of an audio animation block.
pub fn copy_audio(a: &LayerAudio) -> (r: LayerAudio)
    ensures
        r@ == a@,
{
    LayerAudio {
        volume_l: a.volume_l.clone(),
        volume_r: a.volume_r.clone(),
        pan_l: a.pan_l.clone(),
        pan_r: a.pan_r.clone(),
    }
}

/// Deep value copy of a video item.
pub fn copy_video_node(v: &AetVideoNode) -> (r: AetVideoNode)
    ensures
        r@ == v@,
{
    let mut sources: Vec<AetVideoSourceNode> = Vec::new();
    let mut i: usize = 0;
    while i < v.sources.len()
        invariant
            i <= v.sources.len(),
            sources@ =~= v.sources@.subrange(0, i as int),
        decreases v.sources.len() - i,
    {
        sources.push(
            AetVideoSourceNode { name: v.sources[i].name.clone(), id: v.sources[i].id },
        );
        i = i + 1;
    }
    proof {
        assert(sources@ =~= v.sources@);
    }
    AetVideoNode { color: v.color, width: v.width, height: v.height, fpf: v.fpf, sources }
}

/// Deep value copy of a marker list.
pub fn copy_markers(ms: &Vec<Marker>) -> (r: Vec<Marker>)
    ensures
        r@ == ms@,
{
    let mut markers: Vec<Marker> = Vec::new();
    let mut i: usize = 0;
    while i < ms.len()
        invariant
            i <= ms.len(),
            markers@ =~= ms@.subrange(0, i as int),
        decreases ms.len() - i,
    {
        markers.push(Marker { name: ms[i].name.clone(), frame: ms[i].frame });
        i = i + 1;
    }
    proof {
        assert(markers@ =~= ms@);
    }
    markers
}

/// Deep value copy of a layer, its item and everything below it.
pub fn copy_layer(l: &AetLayerNode) -> (r: AetLayerNode)
    ensures
        r@ == l@,
    decreases *l,
{
    let markers = copy_markers(&l.markers);
    AetLayerNode {
        id: l.id,
        name: l.name.clone(),
        start_time: l.start_time,
        end_time: l.end_time,
        offset_time: l.offset_time,
        time_scale: l.time_scale,
        flags: l.flags,
        quality: l.quality,
        item: copy_item(&l.item),
        markers,
        video: match &l.video {
            Some(v) => Some(copy_video(v)),
            None => None,
        },
        audio: match &l.audio {
            Some(a) => Some(copy_audio(a)),
            None => None,
        },
        parent_ref: l.parent_ref,
        visible: l.visible,
        selected_key: l.selected_key,
        want_deletion: l.want_deletion,
        want_duplicate: l.want_duplicate,
    }
}

/// Deep value copy of a layer item.
pub fn copy_item(it: &AetItemNode) -> (r: AetItemNode)
    ensures
        r@ == it@,
    decreases *it,
{
    match it {
        AetItemNode::Empty => AetItemNode::Empty,
        AetItemNode::Video(v) => AetItemNode::Video(copy_video_node(v)),
        AetItemNode::Audio(a) => AetItemNode::Audio(*a),
        AetItemNode::Comp(c) => AetItemNode::Comp(copy_comp(c)),
    }
}

/// Deep value copy of a composition.
pub fn copy_comp(c: &AetCompNode) -> (r: AetCompNode)
    ensures
        r@ == c@,
    decreases *c,
{
    let mut layers: Vec<AetLayerNode> = Vec::new();
    let mut i: usize = 0;
    while i < c.layers.len()
        invariant
            i <= c.layers.len(),
            layers@.len() == i,
            forall|j: int| 0 <= j < i ==> layer_model(layers@[j]) == layer_model(c.layers@[j]),
        decreases c.layers.len() - i,
    {
        layers.push(copy_layer(&c.layers[i]));
        i = i + 1;
    }
    proof {
        lemma_layer_models_of(layers@);
        lemma_layer_models_of(c.layers@);
        assert(layer_models_of(layers@) =~= layer_models_of(c.layers@));
    }
    AetCompNode { layers }
}

impl Clone for LayerVideo {
    fn clone(&self) -> (r: Self)
        ensures
            r@ == self@,
    {
        copy_video(self)
    }
}

impl Clone for LayerAudio {
    fn clone(&self) -> (r: Self)
        ensures
            r@ == self@,
    {
        copy_audio(self)
    }
}

impl Clone for AetLayerNode {
    fn clone(&self) -> (r: Self)
        ensures
            r@ == self@,
    {
        copy_layer(self)
    }
}

impl Clone for AetCompNode {
    fn clone(&self) -> (r: Self)
        ensures
            r@ == self@,
    {
        copy_comp(self)
    }
}

} // verus!
