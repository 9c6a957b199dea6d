//! The transform/opacity evaluator.
//!
//! Walking a composition back to front (last sibling first), the evaluator
//! emits one render instruction per visible video layer: the ordered
//! operation list that places it, the accumulated opacity, its first
//! bitmap source (or a placeholder when it has none and placeholders are
//! on), and its transfer mode.  A layer with an outgoing link first applies
//! the linked layer's own animation, at the current local time; a link that
//! no longer resolves simply contributes nothing.  Nested compositions are
//! entered with the local clock remapped through the carrying layer's
//! start, time scale and offset; the whole evaluation reports `None` when
//! such a remapped time leaves the representable range.

use vstd::prelude::*;

use crate::curve::FCurveKey;
use crate::curve::lemma_sample_constant;
use crate::curve::sample_spec;
use crate::fx::clamp_unit_spec;
use crate::fx::fx_in_range;
use crate::fx::fx_mul;
use crate::fx::opacity_mul;
use crate::fx::remap_spec;
use crate::fx::remap_time;
use crate::mat::Mat4i;
use crate::mat::TransformOp;
use crate::mat::fold_ops_spec;
use crate::mat::lemma_fold_append;
use crate::mat::lemma_fold_identity_ops;
use crate::mat::lemma_fold_in_range;
use crate::mat::lemma_fx_mul_one;
use crate::mat::m4_in_range;
use crate::model::AetCompNode;
use crate::model::AetItemNode;
use crate::model::AetLayerNode;
use crate::model::ItemModel;
use crate::model::LayerModel;
use crate::model::LayerVideo;
use crate::model::LayerVideoModel;
use crate::model::layer_model;
use crate::model::lemma_layer_models_of;
use crate::scene::AetSceneNode;
use crate::scene::SceneModel;

verus! {

/// What a render instruction draws.
#[derive(Clone, Copy, PartialEq, Eq, Debug)]
pub enum SourceRef {
    /// A solid stand-in in the video item's color and size, emitted when
    /// the item has no bitmap source and placeholders are enabled.
    Placeholder { color: [u8; 3], width: u16, height: u16 },
    /// The video item's first bitmap source, by its numeric id; an outside
    /// sprite service turns the id into a texture and source rectangle.
    Sprite { id: u32 },
}

/// One drawing command of an evaluated frame.
pub struct RenderInstruction {
    pub ops: Vec<TransformOp>,
    pub opacity: i64,
    pub source: SourceRef,
    pub blend_mode: u8,
}

#[verifier::ext_equal]
pub struct InstrModel {
    pub ops: Seq<TransformOp>,
    pub opacity: i64,
    pub source: SourceRef,
    pub blend_mode: u8,
}

impl View for RenderInstruction {
    type V = InstrModel;

    open spec fn view(&self) -> InstrModel {
        InstrModel {
            ops: self.ops@,
            opacity: self.opacity,
            source: self.source,
            blend_mode: self.blend_mode,
        }
    }
}

pub open spec fn instrs_of(s: Seq<RenderInstruction>) -> Seq<InstrModel> {
    s.map(|i: int, x: RenderInstruction| x@)
}

/// The model of an optional video animation block.
pub open spec fn video_opt_model(v: Option<LayerVideo>) -> Option<LayerVideoModel> {
    match v {
        Some(x) => Some(x@),
        None => None,
    }
}

/// The sampled value of a named curve, or a default when the block or the
/// extension carrying it is absent.
pub open spec fn sampled(c: Seq<FCurveKey>, t: i64) -> i64 {
    sample_spec(c, t)
}

/// The operation list one video animation block contributes at time `t`:
/// translate, the strictly-positive-gated rotations (direction first, then
/// rotation, each X, Y, Z), scale, then anchor.  An absent block
/// contributes the same list with default samples, which folds to the
/// identity; an absent extension block leaves every three-dimensional
/// term at its default.
pub open spec fn anim_ops(v: Option<LayerVideoModel>, t: i64) -> Seq<TransformOp> {
    let px: i64 = match v {
        Some(vm) => sampled(vm.pos_x, t),
        None => 0,
    };
    let py: i64 = match v {
        Some(vm) => sampled(vm.pos_y, t),
        None => 0,
    };
    let rz: i64 = match v {
        Some(vm) => sampled(vm.rot_z, t),
        None => 0,
    };
    let sx: i64 = match v {
        Some(vm) => sampled(vm.scale_x, t),
        None => 1000,
    };
    let sy: i64 = match v {
        Some(vm) => sampled(vm.scale_y, t),
        None => 1000,
    };
    let ax: i64 = match v {
        Some(vm) => sampled(vm.anchor_x, t),
        None => 0,
    };
    let ay: i64 = match v {
        Some(vm) => sampled(vm.anchor_y, t),
        None => 0,
    };
    let pz: i64 = match v {
        Some(vm) => match vm.three_d {
            Some(d) => sampled(d.pos_z, t),
            None => 0,
        },
        None => 0,
    };
    let dx: i64 = match v {
        Some(vm) => match vm.three_d {
            Some(d) => sampled(d.dir_x, t),
            None => 0,
        },
        None => 0,
    };
    let dy: i64 = match v {
        Some(vm) => match vm.three_d {
            Some(d) => sampled(d.dir_y, t),
            None => 0,
        },
        None => 0,
    };
    let dz: i64 = match v {
        Some(vm) => match vm.three_d {
            Some(d) => sampled(d.dir_z, t),
            None => 0,
        },
        None => 0,
    };
    let rx: i64 = match v {
        Some(vm) => match vm.three_d {
            Some(d) => sampled(d.rot_x, t),
            None => 0,
        },
        None => 0,
    };
    let ry: i64 = match v {
        Some(vm) => match vm.three_d {
            Some(d) => sampled(d.rot_y, t),
            None => 0,
        },
        None => 0,
    };
    let sz: i64 = match v {
        Some(vm) => match vm.three_d {
            Some(d) => sampled(d.scale_z, t),
            None => 1000,
        },
        None => 1000,
    };
    let az: i64 = match v {
        Some(vm) => match vm.three_d {
            Some(d) => sampled(d.anchor_z, t),
            None => 0,
        },
        None => 0,
    };
    seq![TransformOp::Translate { x: px, y: py, z: pz }] + (if dx > 0 {
        seq![TransformOp::RotateX { deg: dx }]
    } else {
        Seq::empty()
    }) + (if dy > 0 {
        seq![TransformOp::RotateY { deg: dy }]
    } else {
        Seq::empty()
    }) + (if dz > 0 {
        seq![TransformOp::RotateZ { deg: dz }]
    } else {
        Seq::empty()
    }) + (if rx > 0 {
        seq![TransformOp::RotateX { deg: rx }]
    } else {
        Seq::empty()
    }) + (if ry > 0 {
        seq![TransformOp::RotateY { deg: ry }]
    } else {
        Seq::empty()
    }) + (if rz > 0 {
        seq![TransformOp::RotateZ { deg: rz }]
    } else {
        Seq::empty()
    }) + seq![
        TransformOp::ScaleBy { x: sx, y: sy, z: sz },
        TransformOp::Anchor { x: ax, y: ay, z: az },
    ]
}

/// The running opacity after a block's (clamped) opacity sample.
pub open spec fn anim_opacity(v: Option<LayerVideoModel>, t: i64, o: i64) -> i64 {
    match v {
        Some(vm) => fx_mul(o as int, clamp_unit_spec(sampled(vm.opacity, t) as int)) as i64,
        None => o,
    }
}

/// The transfer-mode byte an instruction carries.
pub open spec fn anim_blend(v: Option<LayerVideoModel>) -> u8 {
    match v {
        Some(vm) => vm.transfer_mode.mode,
        None => 0,
    }
}

/// The first layer with the given id, walking the tree depth first.
pub open spec fn find_layer_spec(s: Seq<LayerModel>, id: u64) -> Option<LayerModel>
    decreases s,
{
    if s.len() == 0 {
        None
    } else if s[0].id == id {
        Some(s[0])
    } else {
        match s[0].item {
            ItemModel::Comp(c) => match find_layer_spec(c, id) {
                Some(l) => Some(l),
                None => find_layer_spec(s.subrange(1, s.len() as int), id),
            },
            _ => find_layer_spec(s.subrange(1, s.len() as int), id),
        }
    }
}

/// Whether a layer takes part in evaluation at local time `t`.
pub open spec fn layer_active(l: LayerModel, t: i64) -> bool {
    t >= l.start_time && t < l.end_time && l.flags.video_active && l.visible
}

/// The operation list a layer's link contributes: the linked layer's own
/// animation, at the current local time; nothing when the link is absent
/// or no longer resolves.
pub open spec fn parent_ops(root: Seq<LayerModel>, l: LayerModel, t: i64) -> Seq<TransformOp> {
    match l.parent_ref {
        Some(id) => match find_layer_spec(root, id) {
            Some(p) => anim_ops(p.video, t),
            None => Seq::empty(),
        },
        None => Seq::empty(),
    }
}

/// The opacity after the link's contribution.
pub open spec fn parent_opacity(root: Seq<LayerModel>, l: LayerModel, t: i64, o: i64) -> i64 {
    match l.parent_ref {
        Some(id) => match find_layer_spec(root, id) {
            Some(p) => anim_opacity(p.video, t, o),
            None => o,
        },
        None => o,
    }
}

/// The instructions a sibling list emits, walked back to front.
pub open spec fn eval_layers_spec(
    root: Seq<LayerModel>,
    s: Seq<LayerModel>,
    ops_in: Seq<TransformOp>,
    t: i64,
    o: i64,
    ph: bool,
) -> Option<Seq<InstrModel>>
    decreases s,
{
    if s.len() == 0 {
        Some(Seq::empty())
    } else {
        match eval_layer_spec(root, s.last(), ops_in, t, o, ph) {
            Some(head) => match eval_layers_spec(root, s.drop_last(), ops_in, t, o, ph) {
                Some(rest) => Some(head + rest),
                None => None,
            },
            None => None,
        }
    }
}

/// The instructions one layer emits.
pub open spec fn eval_layer_spec(
    root: Seq<LayerModel>,
    l: LayerModel,
    ops_in: Seq<TransformOp>,
    t: i64,
    o: i64,
    ph: bool,
) -> Option<Seq<InstrModel>>
    decreases l,
{
    if !layer_active(l, t) {
        Some(Seq::empty())
    } else {
        let full = ops_in + parent_ops(root, l, t) + anim_ops(l.video, t);
        let o2 = anim_opacity(l.video, t, parent_opacity(root, l, t, o));
        match l.item {
            ItemModel::Video(v) => if v.sources.len() > 0 {
                Some(
                    seq![
                        InstrModel {
                            ops: full,
                            opacity: o2,
                            source: SourceRef::Sprite { id: v.sources[0].id },
                            blend_mode: anim_blend(l.video),
                        },
                    ],
                )
            } else if ph {
                Some(
                    seq![
                        InstrModel {
                            ops: full,
                            opacity: o2,
                            source: SourceRef::Placeholder {
                                color: v.color,
                                width: v.width,
                                height: v.height,
                            },
                            blend_mode: anim_blend(l.video),
                        },
                    ],
                )
            } else {
                Some(Seq::empty())
            },
            ItemModel::Comp(c) => {
                let t2 = remap_spec(
                    t as int,
                    l.start_time as int,
                    l.time_scale as int,
                    l.offset_time as int,
                );
                if fx_in_range(t2) {
                    eval_layers_spec(root, c, full, t2 as i64, o2, ph)
                } else {
                    None
                }
            },
            _ => Some(Seq::empty()),
        }
    }
}

/// The initial operation list of a scene: centering, when enabled.
pub open spec fn scene_init_ops(sc: SceneModel) -> Seq<TransformOp> {
    if sc.centered {
        seq![
            TransformOp::Translate {
                x: (sc.width as int * 500) as i64,
                y: (sc.height as int * 500) as i64,
                z: 0,
            },
        ]
    } else {
        Seq::empty()
    }
}

/// Everything a scene draws at its current time.
pub open spec fn scene_eval_spec(sc: SceneModel) -> Option<Seq<InstrModel>> {
    eval_layers_spec(
        sc.root,
        sc.root,
        scene_init_ops(sc),
        sc.current_time,
        1000,
        sc.display_placeholders,
    )
}

/// A curve that is constant at `v`: at least one key, every key holding
/// `v`.
pub open spec fn curve_const(c: Seq<FCurveKey>, v: i64) -> bool {
    c.len() > 0 && forall|i: int| 0 <= i < c.len() ==> c[i].value == v
}

/// An identity animation block: every curve constant at its default —
/// positions, anchors and the rotation at zero, scales and opacity at
/// one — and no three-dimensional extension.
pub open spec fn is_identity_anim(v: LayerVideoModel) -> bool {
    &&& curve_const(v.anchor_x, 0)
    &&& curve_const(v.anchor_y, 0)
    &&& curve_const(v.pos_x, 0)
    &&& curve_const(v.pos_y, 0)
    &&& curve_const(v.rot_z, 0)
    &&& curve_const(v.scale_x, 1000)
    &&& curve_const(v.scale_y, 1000)
    &&& curve_const(v.opacity, 1000)
    &&& v.three_d is None
}

/// An identity animation block samples to the identity operation list.
pub proof fn lemma_identity_anim_ops(v: LayerVideoModel, t: i64)
    requires
        is_identity_anim(v),
    ensures
        anim_ops(Some(v), t) =~= seq![
            TransformOp::Translate { x: 0, y: 0, z: 0 },
            TransformOp::ScaleBy { x: 1000, y: 1000, z: 1000 },
            TransformOp::Anchor { x: 0, y: 0, z: 0 },
        ],
{
    lemma_sample_constant(v.anchor_x, 0, t);
    lemma_sample_constant(v.anchor_y, 0, t);
    lemma_sample_constant(v.pos_x, 0, t);
    lemma_sample_constant(v.pos_y, 0, t);
    lemma_sample_constant(v.rot_z, 0, t);
    lemma_sample_constant(v.scale_x, 1000, t);
    lemma_sample_constant(v.scale_y, 1000, t);
}

/// A layer whose animation block is the identity leaves both the incoming
/// transform and the incoming opacity exactly as they were: its operation
/// list folds away, and its opacity factor is one.
pub proof fn lemma_identity_anim_contributes_nothing(
    v: LayerVideoModel,
    t: i64,
    ops_in: Seq<TransformOp>,
    m: Mat4i,
    o: i64,
)
    requires
        is_identity_anim(v),
        m4_in_range(m),
        0 <= o <= 1000,
    ensures
        fold_ops_spec(m, ops_in + anim_ops(Some(v), t)) == fold_ops_spec(m, ops_in),
        anim_opacity(Some(v), t, o) == o,
{
    lemma_identity_anim_ops(v, t);
    lemma_fold_append(m, ops_in, anim_ops(Some(v), t));
    match fold_ops_spec(m, ops_in) {
        Some(m2) => {
            lemma_fold_in_range(m, ops_in);
            lemma_fold_identity_ops(m2);
        },
        None => {},
    }
    lemma_sample_constant(v.opacity, 1000, t);
    lemma_fx_mul_one(o as int);
}

fn concat_ops(a: &Vec<TransformOp>, b: &Vec<TransformOp>) -> (r: Vec<TransformOp>)
    ensures
        r@ == a@ + b@,
{
    let mut out: Vec<TransformOp> = Vec::new();
    let mut i: usize = 0;
    while i < a.len()
        invariant
            i <= a@.len(),
            out@ =~= a@.subrange(0, i as int),
        decreases a@.len() - i,
    {
        out.push(a[i]);
        i = i + 1;
    }
    let mut j: usize = 0;
    while j < b.len()
        invariant
            j <= b@.len(),
            out@ =~= a@ + b@.subrange(0, j as int),
        decreases b@.len() - j,
    {
        out.push(b[j]);
        j = j + 1;
    }
    proof {
        assert(out@ =~= a@ + b@);
    }
    out
}

/// The operation list of an optional animation block at time `t`.
#[verifier::rlimit(80)]
fn eval_anim_ops(v: &Option<LayerVideo>, t: i64) -> (r: Vec<TransformOp>)
    ensures
        r@ == anim_ops(video_opt_model(*v), t),
{
    let mut out: Vec<TransformOp> = Vec::new();
    let (px, py, rz, sx, sy, ax, ay) = match v {
        Some(vm) => (
            vm.pos_x.sample(t),
            vm.pos_y.sample(t),
            vm.rot_z.sample(t),
            vm.scale_x.sample(t),
            vm.scale_y.sample(t),
            vm.anchor_x.sample(t),
            vm.anchor_y.sample(t),
        ),
        None => (0i64, 0i64, 0i64, 1000i64, 1000i64, 0i64, 0i64),
    };
    let (pz, dx, dy, dz, rx, ry, sz, az) = match v {
        Some(vm) => match &vm.three_d {
            Some(d) => (
                d.pos_z.sample(t),
                d.dir_x.sample(t),
                d.dir_y.sample(t),
                d.dir_z.sample(t),
                d.rot_x.sample(t),
                d.rot_y.sample(t),
                d.scale_z.sample(t),
                d.anchor_z.sample(t),
            ),
            None => (0i64, 0i64, 0i64, 0i64, 0i64, 0i64, 1000i64, 0i64),
        },
        None => (0i64, 0i64, 0i64, 0i64, 0i64, 0i64, 1000i64, 0i64),
    };
    out.push(TransformOp::Translate { x: px, y: py, z: pz });
    if dx > 0 {
        out.push(TransformOp::RotateX { deg: dx });
    }
    if dy > 0 {
        out.push(TransformOp::RotateY { deg: dy });
    }
    if dz > 0 {
        out.push(TransformOp::RotateZ { deg: dz });
    }
    if rx > 0 {
        out.push(TransformOp::RotateX { deg: rx });
    }
    if ry > 0 {
        out.push(TransformOp::RotateY { deg: ry });
    }
    if rz > 0 {
        out.push(TransformOp::RotateZ { deg: rz });
    }
    out.push(TransformOp::ScaleBy { x: sx, y: sy, z: sz });
    out.push(TransformOp::Anchor { x: ax, y: ay, z: az });
    proof {
        assert(out@ =~= anim_ops(video_opt_model(*v), t));
    }
    out
}

/// The running opacity after an optional block's contribution.
fn eval_anim_opacity(v: &Option<LayerVideo>, t: i64, o: i64) -> (r: i64)
    requires
        0 <= o <= 1000,
    ensures
        r == anim_opacity(video_opt_model(*v), t, o),
        0 <= r <= 1000,
{
    match v {
        Some(vm) => {
            let s = vm.opacity.sample(t);
            opacity_mul(o, s)
        },
        None => o,
    }
}

/// The first layer of a composition's tree with the given id.
fn find_in_comp<'a>(c: &'a AetCompNode, id: u64) -> (r: Option<&'a AetLayerNode>)
    ensures
        match r {
            Some(l) => find_layer_spec(c@, id) == Some(l@),
            None => find_layer_spec(c@, id) is None,
        },
    decreases *c,
{
    let mut i: usize = 0;
    proof {
        lemma_layer_models_of(c.layers@);
        assert(c@.subrange(0, c@.len() as int) =~= c@);
    }
    while i < c.layers.len()
        invariant
            i <= c.layers.len(),
            c@.len() == c.layers.len(),
            forall|j: int| 0 <= j < c@.len() ==> c@[j] == layer_model(c.layers@[j]),
            find_layer_spec(c@, id) == find_layer_spec(
                c@.subrange(i as int, c@.len() as int),
                id,
            ),
        decreases c.layers.len() - i,
    {
        proof {
            let rest = c@.subrange(i as int, c@.len() as int);
            assert(rest[0] == c@[i as int]);
            assert(rest.subrange(1, rest.len() as int) =~= c@.subrange(
                i as int + 1,
                c@.len() as int,
            ));
        }
        if c.layers[i].id == id {
            return Some(&c.layers[i]);
        }
        match &c.layers[i].item {
            AetItemNode::Comp(sub) => {
                let found = find_in_comp(sub, id);
                if found.is_some() {
                    return found;
                }
            },
            _ => {},
        }
        i = i + 1;
    }
    None
}

fn eval_layer_exec(
    root: &AetCompNode,
    l: &AetLayerNode,
    ops_in: &Vec<TransformOp>,
    t: i64,
    o: i64,
    ph: bool,
) -> (r: Option<Vec<RenderInstruction>>)
    requires
        0 <= o <= 1000,
    ensures
        match r {
            Some(v) => eval_layer_spec(root@, l@, ops_in@, t, o, ph) == Some(instrs_of(v@)),
            None => eval_layer_spec(root@, l@, ops_in@, t, o, ph) is None,
        },
    decreases *l,
{
    if !(t >= l.start_time && t < l.end_time && l.flags.video_active && l.visible) {
        let out: Vec<RenderInstruction> = Vec::new();
        proof {
            assert(instrs_of(out@) =~= Seq::<InstrModel>::empty());
        }
        return Some(out);
    }
    let (pops, o1) = match l.parent_ref {
        Some(id) => match find_in_comp(root, id) {
            Some(p) => (eval_anim_ops(&p.video, t), eval_anim_opacity(&p.video, t, o)),
            None => (Vec::new(), o),
        },
        None => (Vec::new(), o),
    };
    proof {
        assert(pops@ == parent_ops(root@, l@, t));
        assert(o1 == parent_opacity(root@, l@, t, o));
    }
    let own = eval_anim_ops(&l.video, t);
    let with_parent = concat_ops(ops_in, &pops);
    let full = concat_ops(&with_parent, &own);
    let o2 = eval_anim_opacity(&l.video, t, o1);
    proof {
        assert(full@ == ops_in@ + parent_ops(root@, l@, t) + anim_ops(l@.video, t));
    }
    let blend: u8 = match &l.video {
        Some(vm) => vm.transfer_mode.mode,
        None => 0,
    };
    match &l.item {
        AetItemNode::Video(v) => {
            proof {
                assert(l@.item == ItemModel::Video(v@));
            }
            let mut out: Vec<RenderInstruction> = Vec::new();
            if v.sources.len() > 0 {
                out.push(
                    RenderInstruction {
                        ops: full,
                        opacity: o2,
                        source: SourceRef::Sprite { id: v.sources[0].id },
                        blend_mode: blend,
                    },
                );
                proof {
                    assert(v@.sources[0] == v.sources@.map(
                        |i: int, s: crate::model::AetVideoSourceNode| s@,
                    )[0]);
                    assert(instrs_of(out@) =~= eval_layer_spec(
                        root@,
                        l@,
                        ops_in@,
                        t,
                        o,
                        ph,
                    )->Some_0);
                }
            } else if ph {
                out.push(
                    RenderInstruction {
                        ops: full,
                        opacity: o2,
                        source: SourceRef::Placeholder {
                            color: v.color,
                            width: v.width,
                            height: v.height,
                        },
                        blend_mode: blend,
                    },
                );
                proof {
                    assert(instrs_of(out@) =~= eval_layer_spec(
                        root@,
                        l@,
                        ops_in@,
                        t,
                        o,
                        ph,
                    )->Some_0);
                }
            } else {
                proof {
                    assert(instrs_of(out@) =~= Seq::<InstrModel>::empty());
                }
            }
            Some(out)
        },
        AetItemNode::Comp(sub) => {
            proof {
                lemma_layer_models_of(sub.layers@);
                assert(l@.item == ItemModel::Comp(sub@));
                assert(sub@.subrange(0, sub@.len() as int) =~= sub@);
            }
            match remap_time(t, l.start_time, l.time_scale, l.offset_time) {
                Some(t2) => eval_prefix(root, sub, sub.layers.len(), &full, t2, o2, ph),
                None => None,
            }
        },
        _ => {
            let out: Vec<RenderInstruction> = Vec::new();
            proof {
                assert(instrs_of(out@) =~= Seq::<InstrModel>::empty());
            }
            Some(out)
        },
    }
}

/// Evaluates the first `n` layers of a sibling list, back to front.
fn eval_prefix(
    root: &AetCompNode,
    c: &AetCompNode,
    n: usize,
    ops_in: &Vec<TransformOp>,
    t: i64,
    o: i64,
    ph: bool,
) -> (r: Option<Vec<RenderInstruction>>)
    requires
        n <= c.layers@.len(),
        0 <= o <= 1000,
    ensures
        match r {
            Some(v) => eval_layers_spec(root@, c@.subrange(0, n as int), ops_in@, t, o, ph)
                == Some(instrs_of(v@)),
            None => eval_layers_spec(root@, c@.subrange(0, n as int), ops_in@, t, o, ph) is None,
        },
    decreases *c, n,
{
    proof {
        lemma_layer_models_of(c.layers@);
    }
    if n == 0 {
        let out: Vec<RenderInstruction> = Vec::new();
        proof {
            assert(instrs_of(out@) =~= Seq::<InstrModel>::empty());
            assert(c@.subrange(0, 0) =~= Seq::<LayerModel>::empty());
        }
        return Some(out);
    }
    proof {
        let pre = c@.subrange(0, n as int);
        assert(pre.last() == c@[n as int - 1]);
        assert(pre.drop_last() =~= c@.subrange(0, n as int - 1));
    }
    match eval_layer_exec(root, &c.layers[n - 1], ops_in, t, o, ph) {
        Some(head) => {
            match eval_prefix(root, c, n - 1, ops_in, t, o, ph) {
                Some(rest) => {
                    let mut out = head;
                    let mut rest = rest;
                    out.append(&mut rest);
                    proof {
                        assert(instrs_of(out@) =~= eval_layers_spec(
                            root@,
                            c@.subrange(0, n as int),
                            ops_in@,
                            t,
                            o,
                            ph,
                        )->Some_0);
                    }
                    Some(out)
                },
                None => None,
            }
        },
        None => None,
    }
}

impl AetSceneNode {
    /// Evaluates the scene at its current time: every instruction the
    /// renderer draws this frame, back to front.  `None` reports a
    /// remapped time that left the representable range; nothing is drawn
    /// then.
    pub fn evaluate(&self) -> (r: Option<Vec<RenderInstruction>>)
        ensures
            match r {
                Some(v) => scene_eval_spec(self@) == Some(instrs_of(v@)),
                None => scene_eval_spec(self@) is None,
            },
    {
        let mut init: Vec<TransformOp> = Vec::new();
        if self.centered {
            let half_w: i64 = (self.width as i64) * 500;
            let half_h: i64 = (self.height as i64) * 500;
            init.push(TransformOp::Translate { x: half_w, y: half_h, z: 0 });
        }
        proof {
            lemma_layer_models_of(self.root.layers@);
            assert(init@ =~= scene_init_ops(self@));
            assert(self@.root.subrange(0, self@.root.len() as int) =~= self@.root);
        }
        eval_prefix(
            &self.root,
            &self.root,
            self.root.layers.len(),
            &init,
            self.current_time,
            1000,
            self.display_placeholders,
        )
    }
}

} // verus!
