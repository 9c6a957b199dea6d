//! Path resolution and structural editing.

use reaet::curve::FCurve;
use reaet::edit::EditError;
use reaet::model::LayerVideo;
use reaet::scene::CurveType;
use reaet::eq::layer_content_eq;
use reaet::model::AetCompNode;
use reaet::model::AetItemNode;
use reaet::model::AetLayerNode;
use reaet::model::LayerFlags;
use reaet::model::LayerQuality;
use reaet::scene::AetSceneNode;

fn layer(name: &str) -> AetLayerNode {
    AetLayerNode {
        id: 0,
        name: name.to_string(),
        start_time: 0,
        end_time: 100_000,
        offset_time: 0,
        time_scale: 1000,
        flags: LayerFlags { video_active: true, audio_active: false },
        quality: LayerQuality::Best,
        item: AetItemNode::Empty,
        markers: Vec::new(),
        video: None,
        audio: None,
        parent_ref: None,
        visible: true,
        selected_key: 0,
        want_deletion: false,
        want_duplicate: false,
    }
}

fn comp_layer(name: &str, children: Vec<AetLayerNode>) -> AetLayerNode {
    let mut l = layer(name);
    l.item = AetItemNode::Comp(AetCompNode { layers: children });
    l
}

fn scene(layers: Vec<AetLayerNode>) -> AetSceneNode {
    AetSceneNode {
        name: "scene".to_string(),
        start_time: 0,
        end_time: 100_000,
        fps: 60_000,
        color: [0, 0, 0],
        width: 1280,
        height: 720,
        camera: None,
        root: AetCompNode { layers },
        next_id: 100,
        current_time: 0,
        playing: false,
        display_placeholders: false,
        centered: false,
        selected_curve: None,
    }
}

#[test]
fn resolve_walks_nested_compositions() {
    let s = scene(vec![layer("a"), comp_layer("b", vec![layer("b0"), layer("b1")])]);
    assert_eq!(s.resolve(&vec![0]).unwrap().name, "a");
    assert_eq!(s.resolve(&vec![1]).unwrap().name, "b");
    assert_eq!(s.resolve(&vec![1, 0]).unwrap().name, "b0");
    assert_eq!(s.resolve(&vec![1, 1]).unwrap().name, "b1");
    assert!(s.resolve(&vec![]).is_none(), "the empty path addresses nothing");
    assert!(s.resolve(&vec![2]).is_none(), "out of range");
    assert!(s.resolve(&vec![0, 0]).is_none(), "descending into a non-composition");
}

#[test]
fn insert_appends_and_assigns_fresh_ids() {
    let mut s = scene(vec![comp_layer("top", vec![])]);
    assert_eq!(s.next_id, 100);
    s.insert_layer(&vec![], layer("x")).unwrap();
    assert_eq!(s.next_id, 101);
    assert_eq!(s.root.layers.len(), 2);
    assert_eq!(s.root.layers[1].name, "x");
    assert_eq!(s.root.layers[1].id, 100);

    s.insert_layer(&vec![0], layer("y")).unwrap();
    assert_eq!(s.next_id, 102);
    assert_eq!(s.resolve(&vec![0, 0]).unwrap().id, 101);

    let err = s.insert_layer(&vec![5], layer("z")).unwrap_err();
    assert_eq!(err, EditError::InvalidPath);
    assert_eq!(s.root.layers.len(), 2, "a rejected insert changes nothing");
    assert_eq!(s.next_id, 102);
}

#[test]
fn remove_returns_the_layer_and_leaves_links_dangling() {
    let mut a = layer("a");
    a.parent_ref = Some(7);
    let mut b = layer("b");
    b.id = 7;
    let mut s = scene(vec![a, b]);
    let removed = s.remove_layer(&vec![1]).unwrap();
    assert_eq!(removed.name, "b");
    assert_eq!(s.root.layers.len(), 1);
    assert_eq!(s.root.layers[0].parent_ref, Some(7), "the dangling link stays in place");
    assert!(s.remove_layer(&vec![4]).is_err());
}

#[test]
fn duplicate_then_remove_duplicate_restores_the_scene() {
    let inner = vec![layer("c0"), layer("c1")];
    let mut s = scene(vec![layer("a"), comp_layer("b", inner)]);
    let before: Vec<String> = s.root.layers.iter().map(|l| l.name.clone()).collect();
    s.duplicate_layer(&vec![1]).unwrap();
    assert_eq!(s.root.layers.len(), 3);
    assert_eq!(s.root.layers[2].name, "b", "the copy sits immediately after the original");
    assert!(layer_content_eq(&s.root.layers[1], &s.root.layers[2]));

    let removed = s.remove_layer(&vec![2]).unwrap();
    assert_eq!(removed.name, "b");
    let after: Vec<String> = s.root.layers.iter().map(|l| l.name.clone()).collect();
    assert_eq!(before, after);
    assert_eq!(s.root.layers.len(), 2);
    match &s.root.layers[1].item {
        AetItemNode::Comp(c) => assert_eq!(c.layers.len(), 2),
        _ => panic!("expected a composition"),
    }
}

#[test]
fn reorder_moves_a_sibling_and_reorder_back_restores_exactly() {
    let mut s = scene(vec![layer("a"), layer("b"), layer("c")]);
    s.root.layers[0].id = 1;
    s.root.layers[1].id = 2;
    s.root.layers[2].id = 3;
    s.reorder(&vec![], 0, 2).unwrap();
    let order: Vec<String> = s.root.layers.iter().map(|l| l.name.clone()).collect();
    assert_eq!(order, vec!["b", "c", "a"]);

    s.reorder(&vec![], 2, 0).unwrap();
    let order: Vec<String> = s.root.layers.iter().map(|l| l.name.clone()).collect();
    assert_eq!(order, vec!["a", "b", "c"]);
    let ids: Vec<u64> = s.root.layers.iter().map(|l| l.id).collect();
    assert_eq!(ids, vec![1, 2, 3]);

    assert!(s.reorder(&vec![], 0, 3).is_err(), "an index past the end is rejected");
}

#[test]
fn resolve_is_stable_under_untouched_edits() {
    let mut s = scene(vec![layer("a"), comp_layer("b", vec![layer("b0")])]);
    s.root.layers[1].id = 55;
    let id_before = s.resolve(&vec![1]).unwrap().id;
    s.insert_layer(&vec![], layer("x")).unwrap();
    s.insert_layer(&vec![1], layer("y")).unwrap();
    s.reorder(&vec![1], 0, 1).unwrap();
    assert_eq!(s.resolve(&vec![1]).unwrap().id, id_before);
    assert_eq!(s.resolve(&vec![1]).unwrap().name, "b");
}

#[test]
fn set_content_swaps_the_item_and_returns_the_old_one() {
    let mut s = scene(vec![comp_layer("b", vec![layer("b0")])]);
    let old = s
        .set_content(&vec![0], AetItemNode::Audio(reaet::model::AetAudioNode { sound_index: 9 }))
        .unwrap();
    match old {
        AetItemNode::Comp(c) => assert_eq!(c.layers.len(), 1),
        _ => panic!("expected the discarded composition back"),
    }
    match &s.root.layers[0].item {
        AetItemNode::Audio(a) => assert_eq!(a.sound_index, 9),
        _ => panic!("expected the new item"),
    }
}

#[test]
fn commit_pending_applies_marks_deletions_first() {
    let mut keep = layer("keep");
    keep.want_duplicate = true;
    let mut gone = layer("gone");
    gone.want_deletion = true;
    let mut s = scene(vec![gone, keep, layer("tail")]);
    s.root.commit_pending();
    let order: Vec<String> = s.root.layers.iter().map(|l| l.name.clone()).collect();
    assert_eq!(order, vec!["keep", "tail", "keep"], "the copy lands at the end");
    assert!(s.root.layers.iter().all(|l| !l.want_duplicate && !l.want_deletion));
}

#[test]
fn resolve_with_time_remaps_into_nested_compositions() {
    let mut outer = comp_layer("outer", vec![layer("inner")]);
    outer.start_time = 10_000;
    outer.offset_time = 3_000;
    outer.time_scale = 2_000;
    let mut s = scene(vec![outer]);
    s.current_time = 20_000;
    let (l, t) = s.resolve_with_time(&vec![0, 0]).unwrap();
    assert_eq!(l.name, "inner");
    // (20000 - 10000) * 2000 / 1000 + 3000
    assert_eq!(t, 23_000);
    let (_, t0) = s.resolve_with_time(&vec![0]).unwrap();
    assert_eq!(t0, 20_000, "the addressed layer itself sees the scene clock");
}

#[test]
fn curve_slot_is_healed_and_edited_through_the_layer() {
    let mut l = layer("v");
    l.video = Some(LayerVideo::default_block());
    assert!(!l.ensure_curve_ready(CurveType::AnchorZ), "no extension block, no depth curve");
    assert!(l.ensure_curve_ready(CurveType::PosX));
    match &l.video {
        Some(v) => assert_eq!(v.pos_x.keys.len(), 1, "the empty curve was seeded"),
        None => panic!(),
    }
    assert!(l.add_curve_key(CurveType::PosX, 50_000));
    match &l.video {
        Some(v) => {
            assert_eq!(v.pos_x.keys.len(), 2);
            assert_eq!(v.pos_x.keys[1].frame, 50_000);
        },
        None => panic!(),
    }
    assert_eq!(l.selected_key, 1, "the new key is selected");
    assert!(l.remove_selected_key(CurveType::PosX));
    assert_eq!(l.selected_key, 0, "the selection steps back from the end");
    match &l.video {
        Some(v) => assert_eq!(v.pos_x.keys.len(), 1),
        None => panic!(),
    }
    assert!(!l.remove_selected_key(CurveType::PosX), "a curve never loses its last key");
}

#[test]
fn empty_curve_slot_takes_and_puts() {
    let mut l = layer("plain");
    assert!(l.take_curve(CurveType::PosX).is_none(), "no video block, no curve");
    let back = l.put_curve(CurveType::Opacity, FCurve::empty());
    assert!(back.is_some(), "the curve comes back when there is no slot");
}
