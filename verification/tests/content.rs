//! Persisted equality, wholesale updates and scene queries.

use reaet::eq::layer_content_eq;
use reaet::model::AetCompNode;
use reaet::model::AetItemNode;
use reaet::model::AetLayerNode;
use reaet::model::AetVideoNode;
use reaet::model::AetVideoSourceNode;
use reaet::model::LayerFlags;
use reaet::model::LayerQuality;
use reaet::model::copy_layer;
use reaet::scene::AetSceneNode;

fn layer(name: &str) -> AetLayerNode {
    AetLayerNode {
        id: 0,
        name: name.to_string(),
        start_time: 0,
        end_time: 100_000,
        offset_time: 0,
        time_scale: 1000,
        flags: LayerFlags { video_active: true, audio_active: false },
        quality: LayerQuality::Best,
        item: AetItemNode::Empty,
        markers: Vec::new(),
        video: None,
        audio: None,
        parent_ref: None,
        visible: true,
        selected_key: 0,
        want_deletion: false,
        want_duplicate: false,
    }
}

fn video_item(id: u32) -> AetItemNode {
    AetItemNode::Video(AetVideoNode {
        color: [1, 2, 3],
        width: 10,
        height: 20,
        fpf: 0,
        sources: vec![AetVideoSourceNode { name: "s".to_string(), id }],
    })
}

fn scene(layers: Vec<AetLayerNode>) -> AetSceneNode {
    AetSceneNode {
        name: "scene".to_string(),
        start_time: 0,
        end_time: 100_000,
        fps: 60_000,
        color: [0, 0, 0],
        width: 1280,
        height: 720,
        camera: None,
        root: AetCompNode { layers },
        next_id: 100,
        current_time: 0,
        playing: false,
        display_placeholders: false,
        centered: false,
        selected_curve: None,
    }
}

#[test]
fn content_equality_ignores_transient_state_only() {
    let a = layer("same");
    let mut b = copy_layer(&a);
    b.visible = false;
    b.selected_key = 9;
    b.want_deletion = true;
    b.want_duplicate = true;
    assert!(layer_content_eq(&a, &b), "interface state does not matter");

    let mut c = copy_layer(&a);
    c.start_time = 1;
    assert!(!layer_content_eq(&a, &c), "persisted timing does");
    let mut d = copy_layer(&a);
    d.name = "other".to_string();
    assert!(!layer_content_eq(&a, &d));
    let mut e = copy_layer(&a);
    e.parent_ref = Some(3);
    assert!(!layer_content_eq(&a, &e));
    let mut f = copy_layer(&a);
    f.item = video_item(1);
    assert!(!layer_content_eq(&a, &f));
}

#[test]
fn scene_content_equality_ignores_playback_state() {
    let a = scene(vec![layer("x")]);
    let mut b = reaet::scene::copy_scene(&a);
    b.current_time = 999;
    b.playing = true;
    b.centered = true;
    assert!(a.content_eq(&b));
    b.width = 1;
    assert!(!a.content_eq(&b));
}

#[test]
fn update_from_takes_content_but_keeps_interface_state() {
    let mut nested_old = layer("inner");
    nested_old.visible = false;
    nested_old.selected_key = 7;
    let mut target = layer("old");
    target.item = AetItemNode::Comp(AetCompNode { layers: vec![nested_old] });
    target.visible = false;

    let mut nested_new = layer("inner2");
    nested_new.start_time = 42;
    let mut source = layer("new");
    source.item = AetItemNode::Comp(AetCompNode { layers: vec![nested_new] });

    target.update_from(&source);
    assert_eq!(target.name, "new");
    assert!(!target.visible, "the receiver's interface state survives");
    match &target.item {
        AetItemNode::Comp(c) => {
            assert_eq!(c.layers[0].name, "inner2");
            assert_eq!(c.layers[0].start_time, 42);
            assert!(!c.layers[0].visible, "matching shapes update pairwise");
            assert_eq!(c.layers[0].selected_key, 7);
        },
        _ => panic!("expected the nested composition"),
    }
    assert!(layer_content_eq(&target, &source));
}

#[test]
fn update_from_replaces_mismatched_shapes_wholesale() {
    let mut target = layer("old");
    target.item = AetItemNode::Comp(AetCompNode { layers: vec![layer("a"), layer("b")] });
    let mut source = layer("new");
    source.item = AetItemNode::Comp(AetCompNode { layers: vec![layer("only")] });
    target.update_from(&source);
    match &target.item {
        AetItemNode::Comp(c) => {
            assert_eq!(c.layers.len(), 1);
            assert_eq!(c.layers[0].name, "only");
        },
        _ => panic!(),
    }
    assert!(layer_content_eq(&target, &source));
}

#[test]
fn scene_update_from_keeps_playback_state() {
    let mut a = scene(vec![layer("x")]);
    a.current_time = 123;
    a.playing = true;
    let mut b = scene(vec![layer("y")]);
    b.name = "fresh".to_string();
    a.update_from(&b);
    assert_eq!(a.name, "fresh");
    assert_eq!(a.root.layers[0].name, "y");
    assert_eq!(a.current_time, 123);
    assert!(a.playing);
    assert!(a.content_eq(&b));
}

#[test]
fn first_sprite_id_walks_in_order_and_into_compositions() {
    let mut v = layer("v");
    v.item = video_item(77);
    let mut inner = layer("inner");
    inner.item = video_item(88);
    let mut holder = layer("holder");
    holder.item = AetItemNode::Comp(AetCompNode { layers: vec![inner] });

    let c = AetCompNode { layers: vec![layer("plain"), holder, v] };
    assert_eq!(c.get_sprite_id(), Some(88), "the nested video comes first in order");

    let mut v2 = layer("v");
    v2.item = video_item(77);

    let mut sourceless = layer("s");
    sourceless.item = AetItemNode::Video(AetVideoNode {
        color: [0, 0, 0],
        width: 0,
        height: 0,
        fpf: 0,
        sources: Vec::new(),
    });
    let c2 = AetCompNode { layers: vec![sourceless, v2] };
    assert_eq!(c2.get_sprite_id(), None, "the first video item decides, even without sources");
}

#[test]
fn hide_all_clears_visibility_of_top_level_layers() {
    let mut s = scene(vec![layer("a"), layer("b")]);
    s.hide_all_layers();
    assert!(s.root.layers.iter().all(|l| !l.visible));
}

#[test]
fn resolve_scene_reads_the_document_path_prefix() {
    let doc = reaet::scene::AetSetNode {
        name: "set".to_string(),
        modern: false,
        big_endian: false,
        is_x: false,
        scenes: vec![scene(vec![layer("a")])],
    };
    assert!(doc.resolve_scene(&vec![0, 0]).is_some());
    assert!(doc.resolve_scene(&vec![1, 0]).is_none(), "another pane");
    assert!(doc.resolve_scene(&vec![0, 5]).is_none());
    assert!(doc.resolve_scene(&vec![0]).is_none());
}

#[test]
fn set_update_from_updates_scene_lists_pairwise() {
    let mut a = reaet::scene::AetSetNode {
        name: "a".to_string(),
        modern: false,
        big_endian: false,
        is_x: false,
        scenes: vec![{
            let mut sc = scene(vec![layer("x")]);
            sc.playing = true;
            sc
        }],
    };
    let b = reaet::scene::AetSetNode {
        name: "b".to_string(),
        modern: true,
        big_endian: false,
        is_x: false,
        scenes: vec![scene(vec![layer("y")])],
    };
    a.update_from(&b);
    assert_eq!(a.name, "b");
    assert!(a.modern);
    assert_eq!(a.scenes[0].root.layers[0].name, "y");
    assert!(a.scenes[0].playing, "scene playback state survives a matching-shape update");
}

#[test]
fn new_child_and_marker_builders() {
    let mut parent = layer("p");
    parent.start_time = 10;
    parent.end_time = 60;
    parent.visible = false;
    let child = parent.new_child();
    assert_eq!(child.name, "DUMMY");
    assert_eq!(child.start_time, 0);
    assert_eq!(child.end_time, 50);
    assert_eq!(child.time_scale, 1000);
    assert!(!child.visible);

    let mut l = layer("m");
    l.add_marker();
    assert_eq!(l.markers.len(), 1);
    assert_eq!(l.markers[0].name, "DUMMY");
    assert_eq!(l.markers[0].frame, 0);
}
