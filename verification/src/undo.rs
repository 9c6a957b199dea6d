//! Coalesced subtree undo.
//!
//! The undoer watches the layer at the currently selected path, once per
//! interface tick.  Edits that follow each other quickly melt into one
//! step: while the watched value keeps changing, only a pending snapshot is
//! refreshed; once the value has been stable for a full second, the value
//! from before the burst is committed as a single history entry.  Undoing
//! during a still-fresh burst returns the pre-burst value without touching
//! the history.  A symmetric forward stack serves redo; committing a new
//! burst clears it.
//!
//! Times are fixed-point milliseconds; a burst commits after `STABLE_MS`.

use vstd::prelude::*;

use crate::edit::resolve_spec;
use crate::eq::layer_content_eq;
use crate::eq::scrub_layer;
use crate::model::AetLayerNode;
use crate::model::LayerModel;
use crate::model::copy_layer;
use crate::scene::AetSceneNode;

verus! {

/// How long a pending value must hold still before it commits.
pub const STABLE_MS: i64 = 1000;

/// How many steps each stack keeps; the oldest entry falls out first.
pub const HISTORY_CAP: usize = 100;

/// A recorded layer value together with the path it was taken at.
pub struct Snapshot {
    pub layer: AetLayerNode,
    pub path: Vec<usize>,
}

#[verifier::ext_equal]
pub struct SnapshotModel {
    pub layer: LayerModel,
    pub path: Seq<usize>,
}

impl View for Snapshot {
    type V = SnapshotModel;

    open spec fn view(&self) -> SnapshotModel {
        SnapshotModel { layer: self.layer@, path: self.path@ }
    }
}

pub open spec fn snap_models_of(s: Seq<Snapshot>) -> Seq<SnapshotModel> {
    s.map(|i: int, x: Snapshot| x@)
}

/// An in-flight, not yet committed burst value.
pub struct Pending {
    pub since: i64,
    pub layer: AetLayerNode,
}

#[verifier::ext_equal]
pub struct PendingModel {
    pub since: i64,
    pub layer: LayerModel,
}

impl View for Pending {
    type V = PendingModel;

    open spec fn view(&self) -> PendingModel {
        PendingModel { since: self.since, layer: self.layer@ }
    }
}

/// The coalescing undo state for one scene.
pub struct SubtreeUndoer {
    pub history: Vec<Snapshot>,
    pub future: Vec<Snapshot>,
    pub baseline: Option<Snapshot>,
    pub pending: Option<Pending>,
}

#[verifier::ext_equal]
pub struct UndoerModel {
    pub history: Seq<SnapshotModel>,
    pub future: Seq<SnapshotModel>,
    pub baseline: Option<SnapshotModel>,
    pub pending: Option<PendingModel>,
}

impl View for SubtreeUndoer {
    type V = UndoerModel;

    open spec fn view(&self) -> UndoerModel {
        UndoerModel {
            history: snap_models_of(self.history@),
            future: snap_models_of(self.future@),
            baseline: match self.baseline {
                Some(s) => Some(s@),
                None => None,
            },
            pending: match self.pending {
                Some(p) => Some(p@),
                None => None,
            },
        }
    }
}

/// Pushes onto a bounded stack, dropping the oldest entry when full.
pub open spec fn push_bounded(h: Seq<SnapshotModel>, s: SnapshotModel) -> Seq<SnapshotModel> {
    if h.len() >= HISTORY_CAP {
        h.subrange(1, h.len() as int).push(s)
    } else {
        h.push(s)
    }
}

/// Whether two layer models agree on their persisted content.
pub open spec fn same_content(a: LayerModel, b: LayerModel) -> bool {
    scrub_layer(a) == scrub_layer(b)
}

/// The per-tick transition: given the clock, the selected path and the
/// layer the selection currently resolves to, the next undo state.
pub open spec fn tick_spec(
    u: UndoerModel,
    now: i64,
    sel: Seq<usize>,
    live: Option<LayerModel>,
) -> UndoerModel {
    match u.baseline {
        None => UndoerModel {
            baseline: match live {
                Some(lv) => Some(SnapshotModel { layer: lv, path: sel }),
                None => None,
            },
            pending: None,
            ..u
        },
        Some(b) => if b.path != sel {
            // The selection moved: flush any in-flight burst as one entry
            // keyed on the previous selection, then watch the new one.
            UndoerModel {
                history: if u.pending is Some {
                    push_bounded(u.history, b)
                } else {
                    u.history
                },
                future: if u.pending is Some {
                    Seq::empty()
                } else {
                    u.future
                },
                baseline: match live {
                    Some(lv) => Some(SnapshotModel { layer: lv, path: sel }),
                    None => None,
                },
                pending: None,
            }
        } else {
            match live {
                None => UndoerModel { pending: None, ..u },
                Some(lv) => if !same_content(lv, b.layer) {
                    match u.pending {
                        Some(p) => if same_content(p.layer, lv) {
                            if now as int - p.since as int >= STABLE_MS as int {
                                // Stable for a full second: one entry for
                                // the whole burst, holding the pre-burst
                                // value.
                                UndoerModel {
                                    history: push_bounded(u.history, b),
                                    future: Seq::empty(),
                                    baseline: Some(SnapshotModel { layer: lv, path: sel }),
                                    pending: None,
                                }
                            } else {
                                u
                            }
                        } else {
                            UndoerModel {
                                pending: Some(PendingModel { since: now, layer: lv }),
                                ..u
                            }
                        },
                        None => UndoerModel {
                            pending: Some(PendingModel { since: now, layer: lv }),
                            ..u
                        },
                    }
                } else {
                    // Back at the baseline: the burst cancelled itself.
                    UndoerModel { pending: None, ..u }
                },
            }
        },
    }
}

fn copy_path(p: &Vec<usize>) -> (r: Vec<usize>)
    ensures
        r@ == p@,
{
    let mut out: Vec<usize> = Vec::new();
    let mut i: usize = 0;
    while i < p.len()
        invariant
            i <= p@.len(),
            out@ =~= p@.subrange(0, i as int),
        decreases p@.len() - i,
    {
        out.push(p[i]);
        i = i + 1;
    }
    proof {
        assert(out@ =~= p@);
    }
    out
}

fn copy_snapshot(s: &Snapshot) -> (r: Snapshot)
    ensures
        r@ == s@,
{
    Snapshot { layer: copy_layer(&s.layer), path: copy_path(&s.path) }
}

fn push_snap(h: &mut Vec<Snapshot>, s: Snapshot)
    ensures
        snap_models_of(final(h)@) == push_bounded(snap_models_of(old(h)@), s@),
{
    let ghost old_models = snap_models_of(h@);
    if h.len() >= HISTORY_CAP {
        h.remove(0);
        proof {
            assert(snap_models_of(h@) =~= old_models.subrange(1, old_models.len() as int));
        }
    }
    let ghost mid_models = snap_models_of(h@);
    h.push(s);
    proof {
        assert(snap_models_of(h@) =~= mid_models.push(s@));
    }
}

impl SubtreeUndoer {
    /// A fresh undoer with no history and nothing watched yet.
    pub fn new() -> (r: Self)
        ensures
            r@ == (UndoerModel {
                history: Seq::empty(),
                future: Seq::empty(),
                baseline: None,
                pending: None,
            }),
    {
        let r = SubtreeUndoer { history: Vec::new(), future: Vec::new(), baseline: None, pending: None };
        proof {
            assert(snap_models_of(r.history@) =~= Seq::<SnapshotModel>::empty());
            assert(snap_models_of(r.future@) =~= Seq::<SnapshotModel>::empty());
        }
        r
    }

    /// Whether undo would return anything.
    pub fn has_undo(&self) -> (r: bool)
        ensures
            r == (self@.pending is Some && self@.baseline is Some || self@.history.len() > 0),
    {
        (self.pending.is_some() && self.baseline.is_some()) || self.history.len() > 0
    }

    /// Whether redo would return anything.
    pub fn has_redo(&self) -> (r: bool)
        ensures
            r == (self@.future.len() > 0),
    {
        self.future.len() > 0
    }

    /// One interface tick: watches the layer at `sel` in `scene` at clock
    /// `now` and coalesces bursts of changes, as `tick_spec` states.
    pub fn tick(&mut self, now: i64, sel: &Vec<usize>, scene: &AetSceneNode)
        ensures
            final(self)@ == tick_spec(old(self)@, now, sel@, resolve_spec(scene@.root, sel@)),
    {
        let live = scene.resolve(sel);
        match &self.baseline {
            None => {
                self.baseline = match live {
                    Some(l) => Some(Snapshot { layer: copy_layer(l), path: copy_path(sel) }),
                    None => None,
                };
                self.pending = None;
            },
            Some(b) => {
                let same_sel = paths_eq(&b.path, sel);
                if !same_sel {
                    if self.pending.is_some() {
                        let flushed = copy_snapshot(b);
                        push_snap(&mut self.history, flushed);
                        self.future = Vec::new();
                        proof {
                            assert(snap_models_of(self.future@) =~= Seq::<SnapshotModel>::empty());
                        }
                    }
                    self.baseline = match live {
                        Some(l) => Some(Snapshot { layer: copy_layer(l), path: copy_path(sel) }),
                        None => None,
                    };
                    self.pending = None;
                } else {
                    match live {
                        None => {
                            self.pending = None;
                        },
                        Some(lv) => {
                            if !layer_content_eq(lv, &b.layer) {
                                let refresh: bool = match &self.pending {
                                    Some(p) => !layer_content_eq(&p.layer, lv),
                                    None => true,
                                };
                                if refresh {
                                    self.pending = Some(
                                        Pending { since: now, layer: copy_layer(lv) },
                                    );
                                } else {
                                    let since: i64 = match &self.pending {
                                        Some(p) => p.since,
                                        None => now,
                                    };
                                    if (now as i128) - (since as i128) >= STABLE_MS as i128 {
                                        let committed = copy_snapshot(b);
                                        push_snap(&mut self.history, committed);
                                        self.future = Vec::new();
                                        self.baseline = Some(
                                            Snapshot { layer: copy_layer(lv), path: copy_path(sel) },
                                        );
                                        self.pending = None;
                                        proof {
                                            assert(snap_models_of(self.future@)
                                                =~= Seq::<SnapshotModel>::empty());
                                        }
                                    }
                                }
                            } else {
                                self.pending = None;
                            }
                        },
                    }
                }
            },
        }
    }

    /// Undoes one step.  During a still-fresh burst this returns the
    /// pre-burst value and only discards the in-flight snapshot, leaving
    /// the history as it is; otherwise it pops the most recent entry,
    /// recording the value currently at its path for redo.  The caller
    /// installs the returned snapshot at its path.
    pub fn undo(&mut self, scene: &AetSceneNode) -> (r: Option<Snapshot>)
        ensures
            old(self)@.pending is Some && old(self)@.baseline is Some ==> {
                &&& r is Some
                &&& (r->Some_0)@ == old(self)@.baseline->Some_0
                &&& final(self)@ == (UndoerModel { pending: None, ..old(self)@ })
            },
            old(self)@.pending is Some && old(self)@.baseline is None ==> (r is None)
                && final(self)@ == (UndoerModel { pending: None, ..old(self)@ }),
            old(self)@.pending is None && old(self)@.history.len() == 0 ==> (r is None)
                && final(self)@ == old(self)@,
            old(self)@.pending is None && old(self)@.history.len() > 0 ==> {
                &&& r is Some
                &&& (r->Some_0)@ == old(self)@.history.last()
                &&& final(self)@.history == old(self)@.history.drop_last()
                &&& final(self)@.future == match resolve_spec(
                    scene@.root,
                    old(self)@.history.last().path,
                ) {
                    Some(lv) => push_bounded(
                        old(self)@.future,
                        SnapshotModel { layer: lv, path: old(self)@.history.last().path },
                    ),
                    None => old(self)@.future,
                }
                &&& final(self)@.baseline == old(self)@.baseline
                &&& final(self)@.pending is None
            },
    {
        if self.pending.is_some() {
            self.pending = None;
            return match &self.baseline {
                Some(b) => Some(copy_snapshot(b)),
                None => None,
            };
        }
        let popped = self.history.pop();
        match popped {
            Some(s) => {
                let here = scene.resolve(&s.path);
                match here {
                    Some(lv) => {
                        let now_snap = Snapshot { layer: copy_layer(lv), path: copy_path(&s.path) };
                        push_snap(&mut self.future, now_snap);
                    },
                    None => {},
                }
                proof {
                    assert(snap_models_of(self.history@) =~= snap_models_of(
                        old(self).history@,
                    ).drop_last());
                }
                Some(s)
            },
            None => None,
        }
    }

    /// Redoes one step: pops the most recent forward entry, recording the
    /// value currently at its path back into the history.
    pub fn redo(&mut self, scene: &AetSceneNode) -> (r: Option<Snapshot>)
        ensures
            old(self)@.future.len() == 0 ==> (r is None) && final(self)@ == old(self)@,
            old(self)@.future.len() > 0 ==> {
                &&& r is Some
                &&& (r->Some_0)@ == old(self)@.future.last()
                &&& final(self)@.future == old(self)@.future.drop_last()
                &&& final(self)@.history == match resolve_spec(
                    scene@.root,
                    old(self)@.future.last().path,
                ) {
                    Some(lv) => push_bounded(
                        old(self)@.history,
                        SnapshotModel { layer: lv, path: old(self)@.future.last().path },
                    ),
                    None => old(self)@.history,
                }
                &&& final(self)@.baseline == old(self)@.baseline
                &&& final(self)@.pending == old(self)@.pending
            },
    {
        let popped = self.future.pop();
        match popped {
            Some(s) => {
                let here = scene.resolve(&s.path);
                match here {
                    Some(lv) => {
                        let now_snap = Snapshot { layer: copy_layer(lv), path: copy_path(&s.path) };
                        push_snap(&mut self.history, now_snap);
                    },
                    None => {},
                }
                proof {
                    assert(snap_models_of(self.future@) =~= snap_models_of(
                        old(self).future@,
                    ).drop_last());
                }
                Some(s)
            },
            None => None,
        }
    }
}

/// One edit event of a burst: the clock time of a tick and the live value
/// the selection held at it.
#[verifier::ext_equal]
pub struct EditEvent {
    pub at: i64,
    pub value: LayerModel,
}

/// Runs one tick per edit event.
pub open spec fn run_ticks(u: UndoerModel, sel: Seq<usize>, evs: Seq<EditEvent>) -> UndoerModel
    decreases evs.len(),
{
    if evs.len() == 0 {
        u
    } else {
        run_ticks(
            tick_spec(u, evs[0].at, sel, Some(evs[0].value)),
            sel,
            evs.subrange(1, evs.len() as int),
        )
    }
}

/// Whether a sequence of events is one editing burst against baseline `b`:
/// every value differs from the baseline, consecutive events carry
/// genuinely different values (each is an edit), clocks never run
/// backwards, and no pause between events reaches the stability window.
pub open spec fn burst_step(evs: Seq<EditEvent>, i: int) -> bool {
    let prev = evs[i - 1];
    let cur = evs[i];
    !same_content(cur.value, prev.value) && prev.at <= cur.at && (cur.at as int - prev.at as int)
        < (STABLE_MS as int)
}

pub open spec fn is_burst(evs: Seq<EditEvent>, b: LayerModel) -> bool {
    &&& forall|i: int| 0 <= i < evs.len() ==> !same_content((#[trigger] evs[i]).value, b)
    &&& forall|i: int| 0 < i < evs.len() ==> #[trigger] burst_step(evs, i)
}

/// A burst of edits at one selection pushes nothing to the history while
/// it lasts; it only keeps refreshing the pending snapshot, which ends up
/// holding the last edit.
pub proof fn lemma_burst_pushes_nothing(
    u: UndoerModel,
    sel: Seq<usize>,
    evs: Seq<EditEvent>,
    b: SnapshotModel,
)
    requires
        u.baseline == Some(b),
        b.path == sel,
        u.pending is None,
        evs.len() > 0,
        is_burst(evs, b.layer),
    ensures
        ({
            let u2 = run_ticks(u, sel, evs);
            &&& u2.history == u.history
            &&& u2.future == u.future
            &&& u2.baseline == Some(b)
            &&& u2.pending == Some(PendingModel { since: evs.last().at, layer: evs.last().value })
        }),
    decreases evs.len(),
{
    let u1 = tick_spec(u, evs[0].at, sel, Some(evs[0].value));
    assert(u1 == (UndoerModel {
        pending: Some(PendingModel { since: evs[0].at, layer: evs[0].value }),
        ..u
    }));
    if evs.len() == 1 {
        assert(run_ticks(u, sel, evs) == run_ticks(u1, sel, evs.subrange(1, 1)));
    } else {
        let rest = evs.subrange(1, evs.len() as int);
        lemma_burst_shift(evs, b.layer);
        assert(burst_step(evs, 1));
        assert(rest[0] == evs[1]);
        lemma_burst_tail(u1, sel, rest, b);
    }
}

/// A burst stays a burst when its first event is dropped.
proof fn lemma_burst_shift(evs: Seq<EditEvent>, bl: LayerModel)
    requires
        evs.len() > 1,
        is_burst(evs, bl),
    ensures
        is_burst(evs.subrange(1, evs.len() as int), bl),
{
    let rest = evs.subrange(1, evs.len() as int);
    assert forall|i: int| 0 <= i < rest.len() implies !same_content(
        (#[trigger] rest[i]).value,
        bl,
    ) by {
        assert(rest[i] == evs[i + 1]);
        assert(!same_content(evs[i + 1].value, bl));
    }
    assert forall|i: int| 0 < i < rest.len() implies #[trigger] burst_step(rest, i) by {
        assert(rest[i] == evs[i + 1]);
        assert(rest[i - 1] == evs[i]);
        assert(burst_step(evs, i + 1));
    }
}

proof fn lemma_burst_tail(u: UndoerModel, sel: Seq<usize>, evs: Seq<EditEvent>, b: SnapshotModel)
    requires
        u.baseline == Some(b),
        b.path == sel,
        u.pending is Some,
        evs.len() > 0,
        is_burst(evs, b.layer),
        !same_content(u.pending->Some_0.layer, evs[0].value),
    ensures
        ({
            let u2 = run_ticks(u, sel, evs);
            &&& u2.history == u.history
            &&& u2.future == u.future
            &&& u2.baseline == Some(b)
            &&& u2.pending == Some(PendingModel { since: evs.last().at, layer: evs.last().value })
        }),
    decreases evs.len(),
{
    let u1 = tick_spec(u, evs[0].at, sel, Some(evs[0].value));
    assert(u1 == (UndoerModel {
        pending: Some(PendingModel { since: evs[0].at, layer: evs[0].value }),
        ..u
    }));
    if evs.len() > 1 {
        let rest = evs.subrange(1, evs.len() as int);
        lemma_burst_shift(evs, b.layer);
        assert(burst_step(evs, 1));
        assert(rest[0] == evs[1]);
        assert(!same_content(u1.pending->Some_0.layer, rest[0].value));
        lemma_burst_tail(u1, sel, rest, b);
    }
}

/// Once a burst has gone quiet for the stability window, the next tick
/// commits exactly one history entry: the pre-burst baseline value.  The
/// baseline moves to the now-stable value and the pending snapshot clears.
pub proof fn lemma_quiet_burst_commits_once(
    u: UndoerModel,
    sel: Seq<usize>,
    evs: Seq<EditEvent>,
    b: SnapshotModel,
    t_quiet: i64,
)
    requires
        u.baseline == Some(b),
        b.path == sel,
        u.pending is None,
        evs.len() > 0,
        is_burst(evs, b.layer),
        t_quiet as int - evs.last().at as int >= STABLE_MS as int,
    ensures
        ({
            let u2 = tick_spec(run_ticks(u, sel, evs), t_quiet, sel, Some(evs.last().value));
            &&& u2.history == push_bounded(u.history, b)
            &&& u.history.len() < HISTORY_CAP ==> u2.history.len() == u.history.len() + 1
            &&& u2.baseline == Some(SnapshotModel { layer: evs.last().value, path: sel })
            &&& u2.pending is None
        }),
{
    lemma_burst_pushes_nothing(u, sel, evs, b);
}

fn paths_eq(a: &Vec<usize>, b: &Vec<usize>) -> (r: bool)
    ensures
        r == (a@ == b@),
{
    if a.len() != b.len() {
        return false;
    }
    let mut i: usize = 0;
    while i < a.len()
        invariant
            i <= a@.len(),
            a@.len() == b@.len(),
            forall|j: int| 0 <= j < i ==> a@[j] == b@[j],
        decreases a@.len() - i,
    {
        if a[i] != b[i] {
            return false;
        }
        i = i + 1;
    }
    proof {
        assert(a@ =~= b@);
    }
    true
}

} // verus!
