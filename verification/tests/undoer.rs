//! Burst coalescing and the undo/redo stacks.

use reaet::model::AetCompNode;
use reaet::model::AetItemNode;
use reaet::model::AetLayerNode;
use reaet::model::LayerFlags;
use reaet::model::LayerQuality;
use reaet::scene::AetSceneNode;
use reaet::undo::SubtreeUndoer;

fn layer(name: &str) -> AetLayerNode {
    AetLayerNode {
        id: 0,
        name: name.to_string(),
        start_time: 0,
        end_time: 100_000,
        offset_time: 0,
        time_scale: 1000,
        flags: LayerFlags { video_active: true, audio_active: false },
        quality: LayerQuality::Best,
        item: AetItemNode::Empty,
        markers: Vec::new(),
        video: None,
        audio: None,
        parent_ref: None,
        visible: true,
        selected_key: 0,
        want_deletion: false,
        want_duplicate: false,
    }
}

fn scene(layers: Vec<AetLayerNode>) -> AetSceneNode {
    AetSceneNode {
        name: "scene".to_string(),
        start_time: 0,
        end_time: 100_000,
        fps: 60_000,
        color: [0, 0, 0],
        width: 1280,
        height: 720,
        camera: None,
        root: AetCompNode { layers },
        next_id: 100,
        current_time: 0,
        playing: false,
        display_placeholders: false,
        centered: false,
        selected_curve: None,
    }
}

#[test]
fn a_fast_burst_commits_exactly_one_entry_after_a_quiet_second() {
    let mut s = scene(vec![layer("watched")]);
    let sel = vec![0usize];
    let mut u = SubtreeUndoer::new();
    u.tick(0, &sel, &s);
    assert!(!u.has_undo());

    // Three edits, 400 ms apart: each changes the watched layer.
    s.root.layers[0].start_time = 1;
    u.tick(1_000, &sel, &s);
    s.root.layers[0].start_time = 2;
    u.tick(1_400, &sel, &s);
    s.root.layers[0].start_time = 3;
    u.tick(1_800, &sel, &s);
    assert_eq!(u.history.len(), 0, "nothing commits while the burst is alive");
    assert!(u.pending.is_some());

    // Still quiet 600 ms later: not yet a second of stability.
    u.tick(2_400, &sel, &s);
    assert_eq!(u.history.len(), 0);

    // A full second after the last edit, the burst commits as one entry,
    // holding the pre-burst value.
    u.tick(2_900, &sel, &s);
    assert_eq!(u.history.len(), 1);
    assert_eq!(u.history[0].layer.start_time, 0);
    assert!(u.pending.is_none());

    // And the history does not grow on further idle ticks.
    u.tick(3_900, &sel, &s);
    u.tick(4_900, &sel, &s);
    assert_eq!(u.history.len(), 1);
}

#[test]
fn undo_during_a_fresh_burst_returns_the_pre_burst_value() {
    let mut s = scene(vec![layer("watched")]);
    let sel = vec![0usize];
    let mut u = SubtreeUndoer::new();
    u.tick(0, &sel, &s);
    s.root.layers[0].start_time = 77;
    u.tick(300, &sel, &s);
    assert!(u.pending.is_some());

    let snap = u.undo(&s).unwrap();
    assert_eq!(snap.layer.start_time, 0, "the value from before the burst");
    assert_eq!(snap.path, vec![0usize]);
    assert_eq!(u.history.len(), 0, "the history did not shrink");
    assert!(u.pending.is_none());
}

#[test]
fn undo_and_redo_walk_the_two_stacks() {
    let mut s = scene(vec![layer("watched")]);
    let sel = vec![0usize];
    let mut u = SubtreeUndoer::new();
    u.tick(0, &sel, &s);
    s.root.layers[0].start_time = 5;
    u.tick(100, &sel, &s);
    u.tick(1_200, &sel, &s);
    assert_eq!(u.history.len(), 1);

    let snap = u.undo(&s).unwrap();
    assert_eq!(snap.layer.start_time, 0);
    assert_eq!(u.history.len(), 0);
    assert_eq!(u.future.len(), 1, "the replaced live value moved to the forward stack");
    assert_eq!(u.future[0].layer.start_time, 5);

    // The caller installs the snapshot; then redo brings the edit back.
    s.root.layers[0].update_from(&snap.layer);
    let again = u.redo(&s).unwrap();
    assert_eq!(again.layer.start_time, 5);
    assert_eq!(u.future.len(), 0);
    assert_eq!(u.history.len(), 1);
}

#[test]
fn changing_the_selection_flushes_the_open_burst() {
    let mut s = scene(vec![layer("a"), layer("b")]);
    let mut u = SubtreeUndoer::new();
    let sel_a = vec![0usize];
    let sel_b = vec![1usize];
    u.tick(0, &sel_a, &s);
    s.root.layers[0].start_time = 9;
    u.tick(100, &sel_a, &s);
    assert!(u.pending.is_some());

    u.tick(200, &sel_b, &s);
    assert_eq!(u.history.len(), 1, "the in-flight burst became one entry");
    assert_eq!(u.history[0].path, vec![0usize], "keyed on the previous selection");
    assert_eq!(u.history[0].layer.start_time, 0);
    assert!(u.pending.is_none());
}

#[test]
fn a_burst_that_returns_to_the_baseline_cancels_itself() {
    let mut s = scene(vec![layer("watched")]);
    let sel = vec![0usize];
    let mut u = SubtreeUndoer::new();
    u.tick(0, &sel, &s);
    s.root.layers[0].start_time = 4;
    u.tick(100, &sel, &s);
    s.root.layers[0].start_time = 0;
    u.tick(200, &sel, &s);
    assert!(u.pending.is_none());
    u.tick(2_000, &sel, &s);
    assert_eq!(u.history.len(), 0, "no entry for an edit that was taken back by hand");
}

#[test]
fn transient_state_does_not_count_as_a_change() {
    let mut s = scene(vec![layer("watched")]);
    let sel = vec![0usize];
    let mut u = SubtreeUndoer::new();
    u.tick(0, &sel, &s);
    s.root.layers[0].visible = false;
    s.root.layers[0].selected_key = 3;
    u.tick(100, &sel, &s);
    assert!(u.pending.is_none(), "interface-only state is not watched");
}

#[test]
fn the_history_is_bounded_and_drops_its_oldest_entry() {
    let mut s = scene(vec![layer("watched")]);
    let sel = vec![0usize];
    let mut u = SubtreeUndoer::new();
    let mut now: i64 = 0;
    u.tick(now, &sel, &s);
    for i in 0..105i64 {
        s.root.layers[0].start_time = i + 1;
        now += 100;
        u.tick(now, &sel, &s);
        now += 1_100;
        u.tick(now, &sel, &s);
    }
    assert_eq!(u.history.len(), 100, "the stack never grows past its bound");
    // The oldest surviving entry is the pre-burst value of the sixth burst.
    assert_eq!(u.history[0].layer.start_time, 5);
    assert_eq!(u.history[99].layer.start_time, 104);
}
