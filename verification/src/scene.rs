//! Scenes and scene sets.
//!
//! A scene owns one root composition plus canvas and timing metadata, and
//! carries transient playback state (current time, selection) that is never
//! part of persisted comparisons.  A set bundles scenes together with the
//! format flags of the container they came from.

use vstd::prelude::*;

use crate::curve::FCurve;
use crate::curve::FCurveKey;
use crate::model::AetCompNode;
use crate::model::AetItemNode;
use crate::model::AetLayerNode;
use crate::model::ItemModel;
use crate::model::LayerModel;
use crate::model::copy_comp;
use crate::model::layer_model;
use crate::model::layer_models_of;
use crate::model::lemma_layer_models_of;

verus! {

/// Which curve of a layer is selected in the curve editor.
#[derive(Clone, Copy, PartialEq, Eq, Structural, Debug)]
pub enum CurveType {
    VolumeL,
    VolumeR,
    PanL,
    PanR,
    AnchorX,
    AnchorY,
    PosX,
    PosY,
    RotZ,
    ScaleX,
    ScaleY,
    Opacity,
    AnchorZ,
    PosZ,
    DirX,
    DirY,
    DirZ,
    RotX,
    RotY,
    ScaleZ,
}

/// Scene-level camera animation, carried through unchanged.
pub struct AetCamera {
    pub eye_x: FCurve,
    pub eye_y: FCurve,
    pub eye_z: FCurve,
    pub pos_x: FCurve,
    pub pos_y: FCurve,
    pub pos_z: FCurve,
    pub dir_x: FCurve,
    pub dir_y: FCurve,
    pub dir_z: FCurve,
    pub rot_x: FCurve,
    pub rot_y: FCurve,
    pub rot_z: FCurve,
    pub zoom: FCurve,
}

#[verifier::ext_equal]
pub struct CameraModel {
    pub eye_x: Seq<FCurveKey>,
    pub eye_y: Seq<FCurveKey>,
    pub eye_z: Seq<FCurveKey>,
    pub pos_x: Seq<FCurveKey>,
    pub pos_y: Seq<FCurveKey>,
    pub pos_z: Seq<FCurveKey>,
    pub dir_x: Seq<FCurveKey>,
    pub dir_y: Seq<FCurveKey>,
    pub dir_z: Seq<FCurveKey>,
    pub rot_x: Seq<FCurveKey>,
    pub rot_y: Seq<FCurveKey>,
    pub rot_z: Seq<FCurveKey>,
    pub zoom: Seq<FCurveKey>,
}

impl View for AetCamera {
    type V = CameraModel;

    open spec fn view(&self) -> CameraModel {
        CameraModel {
            eye_x: self.eye_x@,
            eye_y: self.eye_y@,
            eye_z: self.eye_z@,
            pos_x: self.pos_x@,
            pos_y: self.pos_y@,
            pos_z: self.pos_z@,
            dir_x: self.dir_x@,
            dir_y: self.dir_y@,
            dir_z: self.dir_z@,
            rot_x: self.rot_x@,
            rot_y: self.rot_y@,
            rot_z: self.rot_z@,
            zoom: self.zoom@,
        }
    }
}

/// Deep value copy of a camera.
pub fn copy_camera(c: &AetCamera) -> (r: AetCamera)
    ensures
        r@ == c@,
{
    AetCamera {
        eye_x: c.eye_x.clone(),
        eye_y: c.eye_y.clone(),
        eye_z: c.eye_z.clone(),
        pos_x: c.pos_x.clone(),
        pos_y: c.pos_y.clone(),
        pos_z: c.pos_z.clone(),
        dir_x: c.dir_x.clone(),
        dir_y: c.dir_y.clone(),
        dir_z: c.dir_z.clone(),
        rot_x: c.rot_x.clone(),
        rot_y: c.rot_y.clone(),
        rot_z: c.rot_z.clone(),
        zoom: c.zoom.clone(),
    }
}

/// One animation scene: a root composition plus canvas metadata.
pub struct AetSceneNode {
    pub name: String,
    pub start_time: i64,
    pub end_time: i64,
    pub fps: i64,
    pub color: [u8; 3],
    pub width: u32,
    pub height: u32,
    pub camera: Option<AetCamera>,
    pub root: AetCompNode,
    /// The next unused layer id; every layer id in the scene lies below it.
    pub next_id: u64,
    /// Transient playback and selection state.
    pub current_time: i64,
    pub playing: bool,
    pub display_placeholders: bool,
    pub centered: bool,
    pub selected_curve: Option<CurveType>,
}

#[verifier::ext_equal]
pub struct SceneModel {
    pub name: Seq<char>,
    pub start_time: i64,
    pub end_time: i64,
    pub fps: i64,
    pub color: [u8; 3],
    pub width: u32,
    pub height: u32,
    pub camera: Option<CameraModel>,
    pub root: Seq<LayerModel>,
    pub next_id: u64,
    pub current_time: i64,
    pub playing: bool,
    pub display_placeholders: bool,
    pub centered: bool,
    pub selected_curve: Option<CurveType>,
}

impl View for AetSceneNode {
    type V = SceneModel;

    open spec fn view(&self) -> SceneModel {
        SceneModel {
            name: self.name@,
            start_time: self.start_time,
            end_time: self.end_time,
            fps: self.fps,
            color: self.color,
            width: self.width,
            height: self.height,
            camera: match self.camera {
                Some(c) => Some(c@),
                None => None,
            },
            root: layer_models_of(self.root.layers@),
            next_id: self.next_id,
            current_time: self.current_time,
            playing: self.playing,
            display_placeholders: self.display_placeholders,
            centered: self.centered,
            selected_curve: self.selected_curve,
        }
    }
}

/// A set of scenes together with its container's format flags.
pub struct AetSetNode {
    pub name: String,
    pub modern: bool,
    pub big_endian: bool,
    pub is_x: bool,
    pub scenes: Vec<AetSceneNode>,
}

#[verifier::ext_equal]
pub struct SetModel {
    pub name: Seq<char>,
    pub modern: bool,
    pub big_endian: bool,
    pub is_x: bool,
    pub scenes: Seq<SceneModel>,
}

/// The models of a scene list.
pub open spec fn scene_models_of(s: Seq<AetSceneNode>) -> Seq<SceneModel> {
    s.map(|i: int, sc: AetSceneNode| sc@)
}

impl View for AetSetNode {
    type V = SetModel;

    open spec fn view(&self) -> SetModel {
        SetModel {
            name: self.name@,
            modern: self.modern,
            big_endian: self.big_endian,
            is_x: self.is_x,
            scenes: scene_models_of(self.scenes@),
        }
    }
}

/// Deep value copy of a scene.
pub fn copy_scene(s: &AetSceneNode) -> (r: AetSceneNode)
    ensures
        r@ == s@,
{
    AetSceneNode {
        name: s.name.clone(),
        start_time: s.start_time,
        end_time: s.end_time,
        fps: s.fps,
        color: s.color,
        width: s.width,
        height: s.height,
        camera: match &s.camera {
            Some(c) => Some(copy_camera(c)),
            None => None,
        },
        root: copy_comp(&s.root),
        next_id: s.next_id,
        current_time: s.current_time,
        playing: s.playing,
        display_placeholders: s.display_placeholders,
        centered: s.centered,
        selected_curve: s.selected_curve,
    }
}

/// The sprite id the set would preview: walking the layers in order, the
/// first video item decides — its first source's id, or nothing when that
/// video has no sources; nested compositions are searched in between.
pub open spec fn sprite_id_spec(s: Seq<LayerModel>) -> Option<u32>
    decreases s,
{
    if s.len() == 0 {
        None
    } else {
        match s[0].item {
            ItemModel::Video(v) => if v.sources.len() > 0 {
                Some(v.sources[0].id)
            } else {
                None
            },
            ItemModel::Comp(c) => match sprite_id_spec(c) {
                Some(id) => Some(id),
                None => sprite_id_spec(s.subrange(1, s.len() as int)),
            },
            _ => sprite_id_spec(s.subrange(1, s.len() as int)),
        }
    }
}

impl AetCompNode {
    /// First previewable sprite id of the composition, in traversal order.
    pub fn get_sprite_id(&self) -> (r: Option<u32>)
        ensures
            r == sprite_id_spec(self@),
        decreases *self,
    {
        let mut i: usize = 0;
        proof {
            lemma_layer_models_of(self.layers@);
            assert(self@.subrange(0, self@.len() as int) =~= self@);
        }
        while i < self.layers.len()
            invariant
                i <= self.layers.len(),
                self@.len() == self.layers.len(),
                forall|j: int| 0 <= j < self@.len() ==> self@[j] == layer_model(self.layers@[j]),
                sprite_id_spec(self@) == sprite_id_spec(
                    self@.subrange(i as int, self@.len() as int),
                ),
            decreases self.layers.len() - i,
        {
            proof {
                let rest = self@.subrange(i as int, self@.len() as int);
                assert(rest[0] == self@[i as int]);
                assert(rest.subrange(1, rest.len() as int) =~= self@.subrange(
                    i as int + 1,
                    self@.len() as int,
                ));
            }
            match &self.layers[i].item {
                AetItemNode::Video(v) => {
                    if v.sources.len() > 0 {
                        return Some(v.sources[0].id);
                    } else {
                        return None;
                    }
                },
                AetItemNode::Comp(c) => {
                    let found = c.get_sprite_id();
                    if found.is_some() {
                        return found;
                    }
                },
                _ => {},
            }
            i = i + 1;
        }
        None
    }
}

impl AetSceneNode {
    /// Marks every top-level layer of the scene invisible.
    pub fn hide_all_layers(&mut self)
        ensures
            final(self)@ == (SceneModel {
                root: Seq::new(
                    old(self)@.root.len(),
                    |i: int| LayerModel { visible: false, ..old(self)@.root[i] },
                ),
                ..old(self)@
            }),
    {
        let mut i: usize = 0;
        proof {
            lemma_layer_models_of(self.root.layers@);
        }
        while i < self.root.layers.len()
            invariant
                i <= self.root.layers.len(),
                self.root.layers@.len() == old(self).root.layers@.len(),
                forall|j: int| i <= j < self.root.layers@.len() ==> self.root.layers@[j]
                    == old(self).root.layers@[j],
                forall|j: int| 0 <= j < i ==> layer_model(self.root.layers@[j]) == (LayerModel {
                    visible: false,
                    ..layer_model(old(self).root.layers@[j])
                }),
                self.name@ == old(self).name@,
                self.start_time == old(self).start_time,
                self.end_time == old(self).end_time,
                self.fps == old(self).fps,
                self.color == old(self).color,
                self.width == old(self).width,
                self.height == old(self).height,
                self.camera == old(self).camera,
                self.next_id == old(self).next_id,
                self.current_time == old(self).current_time,
                self.playing == old(self).playing,
                self.display_placeholders == old(self).display_placeholders,
                self.centered == old(self).centered,
                self.selected_curve == old(self).selected_curve,
            decreases self.root.layers.len() - i,
        {
            self.root.layers[i].visible = false;
            i = i + 1;
        }
        proof {
            lemma_layer_models_of(self.root.layers@);
            lemma_layer_models_of(old(self).root.layers@);
            assert(layer_models_of(self.root.layers@) =~= Seq::new(
                old(self)@.root.len(),
                |i: int| LayerModel { visible: false, ..old(self)@.root[i] },
            ));
            assert(self@ =~= (SceneModel {
                root: Seq::new(
                    old(self)@.root.len(),
                    |i: int| LayerModel { visible: false, ..old(self)@.root[i] },
                ),
                ..old(self)@
            }));
        }
    }
}

} // verus!
