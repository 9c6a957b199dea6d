//! The transform/opacity evaluator.

use reaet::curve::FCurve;
use reaet::eval::SourceRef;
use reaet::mat::Mat4;
use reaet::mat::TransformOp;
use reaet::mat::fold_ops;
use reaet::model::AetCompNode;
use reaet::model::AetItemNode;
use reaet::model::AetLayerNode;
use reaet::model::AetVideoNode;
use reaet::model::AetVideoSourceNode;
use reaet::model::LayerFlags;
use reaet::model::LayerQuality;
use reaet::model::LayerVideo;
use reaet::model::TransferMode;
use reaet::scene::AetSceneNode;

fn video_layer(name: &str, source_id: u32) -> AetLayerNode {
    AetLayerNode {
        id: 0,
        name: name.to_string(),
        start_time: 0,
        end_time: 100_000,
        offset_time: 0,
        time_scale: 1000,
        flags: LayerFlags { video_active: true, audio_active: false },
        quality: LayerQuality::Best,
        item: AetItemNode::Video(AetVideoNode {
            color: [255, 0, 0],
            width: 64,
            height: 32,
            fpf: 0,
            sources: vec![AetVideoSourceNode { name: "spr".to_string(), id: source_id }],
        }),
        markers: Vec::new(),
        video: None,
        audio: None,
        parent_ref: None,
        visible: true,
        selected_key: 0,
        want_deletion: false,
        want_duplicate: false,
    }
}

fn anim() -> LayerVideo {
    LayerVideo {
        transfer_mode: TransferMode { mode: 3, flag: 0, matte: 0 },
        anchor_x: FCurve::constant(0),
        anchor_y: FCurve::constant(0),
        pos_x: FCurve::constant(0),
        pos_y: FCurve::constant(0),
        rot_z: FCurve::constant(0),
        scale_x: FCurve::constant(1000),
        scale_y: FCurve::constant(1000),
        opacity: FCurve::constant(1000),
        three_d: None,
    }
}

fn scene(layers: Vec<AetLayerNode>) -> AetSceneNode {
    AetSceneNode {
        name: "scene".to_string(),
        start_time: 0,
        end_time: 100_000,
        fps: 60_000,
        color: [0, 0, 0],
        width: 1280,
        height: 720,
        camera: None,
        root: AetCompNode { layers },
        next_id: 100,
        current_time: 0,
        playing: false,
        display_placeholders: false,
        centered: false,
        selected_curve: None,
    }
}

#[test]
fn identity_animation_leaves_transform_and_opacity_unchanged() {
    let mut l = video_layer("l", 1);
    l.video = Some(anim());
    let s = scene(vec![l]);
    let instrs = s.evaluate().unwrap();
    assert_eq!(instrs.len(), 1);
    assert_eq!(instrs[0].opacity, 1000);
    let m = fold_ops(Mat4::identity(), &instrs[0].ops).unwrap();
    assert_eq!(m, Mat4::identity());
    assert_eq!(instrs[0].source, SourceRef::Sprite { id: 1 });
    assert_eq!(instrs[0].blend_mode, 3);
}

#[test]
fn scale_two_doubles_the_x_basis_without_translating() {
    let mut a = anim();
    a.scale_x = FCurve::constant(2000);
    let mut l = video_layer("l", 1);
    l.video = Some(a);
    let s = scene(vec![l]);
    let instrs = s.evaluate().unwrap();
    let m = fold_ops(Mat4::identity(), &instrs[0].ops).unwrap();
    assert_eq!(m.x.x, 2000, "the X basis is scaled by two");
    assert_eq!(m.w.x, 0, "no translation appears");
    assert_eq!(m.y.y, 1000);
}

#[test]
fn linked_parent_contributes_before_the_layer_itself() {
    let mut pa = anim();
    pa.pos_x = FCurve::constant(10_000);
    let mut b = video_layer("b", 2);
    b.id = 42;
    b.video = Some(pa);

    let mut aa = anim();
    aa.pos_x = FCurve::constant(5_000);
    let mut a = video_layer("a", 1);
    a.video = Some(aa);
    a.parent_ref = Some(42);

    let s = scene(vec![a, b]);
    let instrs = s.evaluate().unwrap();
    // Siblings are walked back to front: b first, then a.
    assert_eq!(instrs.len(), 2);
    assert_eq!(instrs[0].source, SourceRef::Sprite { id: 2 });
    assert_eq!(instrs[1].source, SourceRef::Sprite { id: 1 });
    let m = fold_ops(Mat4::identity(), &instrs[1].ops).unwrap();
    assert_eq!(m.w.x, 15_000, "the link's ten plus the layer's own five");
}

#[test]
fn removed_link_target_contributes_nothing_and_raises_no_error() {
    let mut aa = anim();
    aa.pos_x = FCurve::constant(5_000);
    let mut a = video_layer("a", 1);
    a.video = Some(aa);
    a.parent_ref = Some(42);
    let mut s = scene(vec![a]);
    let instrs = s.evaluate().unwrap();
    assert_eq!(instrs.len(), 1);
    let m = fold_ops(Mat4::identity(), &instrs[0].ops).unwrap();
    assert_eq!(m.w.x, 5_000, "only the layer's own contribution");

    // The same holds when the target existed and was then removed.
    let mut pa = anim();
    pa.pos_x = FCurve::constant(10_000);
    let mut b = video_layer("b", 2);
    b.id = 42;
    b.video = Some(pa);
    s.root.layers.push(b);
    s.remove_layer(&vec![1]).unwrap();
    let instrs = s.evaluate().unwrap();
    let m = fold_ops(Mat4::identity(), &instrs[0].ops).unwrap();
    assert_eq!(m.w.x, 5_000);
}

#[test]
fn inactive_and_out_of_range_layers_emit_nothing() {
    let mut hidden = video_layer("hidden", 1);
    hidden.visible = false;
    let mut flagged = video_layer("flagged", 2);
    flagged.flags.video_active = false;
    let mut late = video_layer("late", 3);
    late.start_time = 50_000;
    let s = scene(vec![hidden, flagged, late]);
    assert_eq!(s.evaluate().unwrap().len(), 0);
}

#[test]
fn placeholders_appear_only_when_enabled() {
    let mut l = video_layer("l", 1);
    match &mut l.item {
        AetItemNode::Video(v) => v.sources.clear(),
        _ => unreachable!(),
    }
    let mut s = scene(vec![l]);
    assert_eq!(s.evaluate().unwrap().len(), 0, "no source, placeholders off");
    s.display_placeholders = true;
    let instrs = s.evaluate().unwrap();
    assert_eq!(instrs.len(), 1);
    assert_eq!(
        instrs[0].source,
        SourceRef::Placeholder { color: [255, 0, 0], width: 64, height: 32 },
    );
}

#[test]
fn nested_composition_remaps_time_and_inherits_the_transform() {
    let mut aa = anim();
    aa.pos_x = FCurve { keys: vec![
        reaet::curve::FCurveKey { frame: 0, value: 1_000, tangent: 0 },
        reaet::curve::FCurveKey { frame: 30_000, value: 9_000, tangent: 0 },
    ] };
    let mut inner = video_layer("inner", 1);
    inner.video = Some(aa);

    let mut carrier = video_layer("carrier", 0);
    carrier.item = AetItemNode::Comp(AetCompNode { layers: vec![inner] });
    carrier.start_time = 10_000;
    carrier.offset_time = 0;
    carrier.time_scale = 2_000;
    let mut pa = anim();
    pa.pos_y = FCurve::constant(7_000);
    carrier.video = Some(pa);

    let mut s = scene(vec![carrier]);
    s.current_time = 25_000;
    // The nested clock is (25000 - 10000) * 2 = 30000, so the inner layer
    // samples its second key.
    let instrs = s.evaluate().unwrap();
    assert_eq!(instrs.len(), 1);
    let m = fold_ops(Mat4::identity(), &instrs[0].ops).unwrap();
    assert_eq!(m.w.x, 9_000);
    assert_eq!(m.w.y, 7_000, "the carrier's own translation is inherited");
}

#[test]
fn strictly_positive_rotation_gate() {
    let mut a = anim();
    a.rot_z = FCurve::constant(0);
    let mut l = video_layer("l", 1);
    l.video = Some(a);
    let s = scene(vec![l]);
    let instrs = s.evaluate().unwrap();
    assert!(
        instrs[0].ops.iter().all(|op| !matches!(op, TransformOp::RotateZ { .. })),
        "a zero angle is treated as no rotation at all",
    );

    let mut a2 = anim();
    a2.rot_z = FCurve::constant(-45_000);
    let mut l2 = video_layer("l", 1);
    l2.video = Some(a2);
    let s2 = scene(vec![l2]);
    let instrs2 = s2.evaluate().unwrap();
    assert!(
        instrs2[0].ops.iter().all(|op| !matches!(op, TransformOp::RotateZ { .. })),
        "a negative angle is likewise skipped",
    );

    let mut a3 = anim();
    a3.rot_z = FCurve::constant(45_000);
    let mut l3 = video_layer("l", 1);
    l3.video = Some(a3);
    let s3 = scene(vec![l3]);
    let instrs3 = s3.evaluate().unwrap();
    assert!(
        instrs3[0].ops.iter().any(|op| matches!(op, TransformOp::RotateZ { deg: 45_000 })),
        "a strictly positive angle emits its rotation",
    );
    assert!(
        fold_ops(Mat4::identity(), &instrs3[0].ops).is_none(),
        "a rotated placement has no exact affine fold",
    );
}

#[test]
fn anchor_translates_after_scaling() {
    let mut a = anim();
    a.scale_x = FCurve::constant(2000);
    a.anchor_x = FCurve::constant(3_000);
    let mut l = video_layer("l", 1);
    l.video = Some(a);
    let s = scene(vec![l]);
    let instrs = s.evaluate().unwrap();
    let m = fold_ops(Mat4::identity(), &instrs[0].ops).unwrap();
    assert_eq!(m.w.x, -6_000, "the anchor reads in pre-scale units");
}

#[test]
fn opacity_multiplies_and_clamps() {
    let mut a = anim();
    a.opacity = FCurve::constant(500);
    let mut inner = video_layer("inner", 1);
    inner.video = Some(a);
    let mut a2 = anim();
    a2.opacity = FCurve::constant(9_999);
    let mut carrier = video_layer("carrier", 0);
    carrier.item = AetItemNode::Comp(AetCompNode { layers: vec![inner] });
    carrier.video = Some(a2);
    let s = scene(vec![carrier]);
    let instrs = s.evaluate().unwrap();
    assert_eq!(instrs[0].opacity, 500, "the carrier's sample clamps to one");
}

#[test]
fn centered_scene_translates_by_half_the_canvas() {
    let mut l = video_layer("l", 1);
    l.video = Some(anim());
    let mut s = scene(vec![l]);
    s.centered = true;
    let instrs = s.evaluate().unwrap();
    let m = fold_ops(Mat4::identity(), &instrs[0].ops).unwrap();
    assert_eq!(m.w.x, 640_000);
    assert_eq!(m.w.y, 360_000);
}
