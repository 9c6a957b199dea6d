//! Key editing on a layer's selected curve.
//!
//! The curve editor works on one curve of a layer at a time, named by
//! `CurveType`.  Editing seeds an empty curve with a default key, keeps
//! the key list sorted when keys are added, keeps the selected key index
//! in range, and never removes the last key of a curve.

use vstd::prelude::*;

use crate::curve::FCurve;
use crate::curve::FCurveKey;
use crate::curve::insert_pos_spec;
use crate::curve::sample_spec;
use crate::model::AetLayerNode;
use crate::model::LayerModel;
use crate::model::LayerVideo3DModel;
use crate::model::LayerVideoModel;
use crate::model::LayerAudioModel;
use crate::scene::CurveType;

verus! {

/// The selected curve's keys, when the layer carries that curve.
pub open spec fn curve_of(l: LayerModel, which: CurveType) -> Option<Seq<FCurveKey>> {
    match which {
        CurveType::VolumeL => match l.audio {
            Some(a) => Some(a.volume_l),
            None => None,
        },
        CurveType::VolumeR => match l.audio {
            Some(a) => Some(a.volume_r),
            None => None,
        },
        CurveType::PanL => match l.audio {
            Some(a) => Some(a.pan_l),
            None => None,
        },
        CurveType::PanR => match l.audio {
            Some(a) => Some(a.pan_r),
            None => None,
        },
        CurveType::AnchorX => match l.video {
            Some(v) => Some(v.anchor_x),
            None => None,
        },
        CurveType::AnchorY => match l.video {
            Some(v) => Some(v.anchor_y),
            None => None,
        },
        CurveType::PosX => match l.video {
            Some(v) => Some(v.pos_x),
            None => None,
        },
        CurveType::PosY => match l.video {
            Some(v) => Some(v.pos_y),
            None => None,
        },
        CurveType::RotZ => match l.video {
            Some(v) => Some(v.rot_z),
            None => None,
        },
        CurveType::ScaleX => match l.video {
            Some(v) => Some(v.scale_x),
            None => None,
        },
        CurveType::ScaleY => match l.video {
            Some(v) => Some(v.scale_y),
            None => None,
        },
        CurveType::Opacity => match l.video {
            Some(v) => Some(v.opacity),
            None => None,
        },
        CurveType::AnchorZ => match l.video {
            Some(v) => match v.three_d {
                Some(d) => Some(d.anchor_z),
                None => None,
            },
            None => None,
        },
        CurveType::PosZ => match l.video {
            Some(v) => match v.three_d {
                Some(d) => Some(d.pos_z),
                None => None,
            },
            None => None,
        },
        CurveType::DirX => match l.video {
            Some(v) => match v.three_d {
                Some(d) => Some(d.dir_x),
                None => None,
            },
            None => None,
        },
        CurveType::DirY => match l.video {
            Some(v) => match v.three_d {
                Some(d) => Some(d.dir_y),
                None => None,
            },
            None => None,
        },
        CurveType::DirZ => match l.video {
            Some(v) => match v.three_d {
                Some(d) => Some(d.dir_z),
                None => None,
            },
            None => None,
        },
        CurveType::RotX => match l.video {
            Some(v) => match v.three_d {
                Some(d) => Some(d.rot_x),
                None => None,
            },
            None => None,
        },
        CurveType::RotY => match l.video {
            Some(v) => match v.three_d {
                Some(d) => Some(d.rot_y),
                None => None,
            },
            None => None,
        },
        CurveType::ScaleZ => match l.video {
            Some(v) => match v.three_d {
                Some(d) => Some(d.scale_z),
                None => None,
            },
            None => None,
        },
    }
}

/// The layer with the named curve's keys replaced (unchanged when the
/// layer does not carry that curve).
pub open spec fn with_curve(l: LayerModel, which: CurveType, ks: Seq<FCurveKey>) -> LayerModel {
    match which {
        CurveType::VolumeL => match l.audio {
            Some(a) => LayerModel { audio: Some(LayerAudioModel { volume_l: ks, ..a }), ..l },
            None => l,
        },
        CurveType::VolumeR => match l.audio {
            Some(a) => LayerModel { audio: Some(LayerAudioModel { volume_r: ks, ..a }), ..l },
            None => l,
        },
        CurveType::PanL => match l.audio {
            Some(a) => LayerModel { audio: Some(LayerAudioModel { pan_l: ks, ..a }), ..l },
            None => l,
        },
        CurveType::PanR => match l.audio {
            Some(a) => LayerModel { audio: Some(LayerAudioModel { pan_r: ks, ..a }), ..l },
            None => l,
        },
        CurveType::AnchorX => match l.video {
            Some(v) => LayerModel { video: Some(LayerVideoModel { anchor_x: ks, ..v }), ..l },
            None => l,
        },
        CurveType::AnchorY => match l.video {
            Some(v) => LayerModel { video: Some(LayerVideoModel { anchor_y: ks, ..v }), ..l },
            None => l,
        },
        CurveType::PosX => match l.video {
            Some(v) => LayerModel { video: Some(LayerVideoModel { pos_x: ks, ..v }), ..l },
            None => l,
        },
        CurveType::PosY => match l.video {
            Some(v) => LayerModel { video: Some(LayerVideoModel { pos_y: ks, ..v }), ..l },
            None => l,
        },
        CurveType::RotZ => match l.video {
            Some(v) => LayerModel { video: Some(LayerVideoModel { rot_z: ks, ..v }), ..l },
            None => l,
        },
        CurveType::ScaleX => match l.video {
            Some(v) => LayerModel { video: Some(LayerVideoModel { scale_x: ks, ..v }), ..l },
            None => l,
        },
        CurveType::ScaleY => match l.video {
            Some(v) => LayerModel { video: Some(LayerVideoModel { scale_y: ks, ..v }), ..l },
            None => l,
        },
        CurveType::Opacity => match l.video {
            Some(v) => LayerModel { video: Some(LayerVideoModel { opacity: ks, ..v }), ..l },
            None => l,
        },
        CurveType::AnchorZ => match l.video {
            Some(v) => match v.three_d {
                Some(d) => LayerModel {
                    video: Some(
                        LayerVideoModel {
                            three_d: Some(LayerVideo3DModel { anchor_z: ks, ..d }),
                            ..v
                        },
                    ),
                    ..l
                },
                None => l,
            },
            None => l,
        },
        CurveType::PosZ => match l.video {
            Some(v) => match v.three_d {
                Some(d) => LayerModel {
                    video: Some(
                        LayerVideoModel { three_d: Some(LayerVideo3DModel { pos_z: ks, ..d }), ..v },
                    ),
                    ..l
                },
                None => l,
            },
            None => l,
        },
        CurveType::DirX => match l.video {
            Some(v) => match v.three_d {
                Some(d) => LayerModel {
                    video: Some(
                        LayerVideoModel { three_d: Some(LayerVideo3DModel { dir_x: ks, ..d }), ..v },
                    ),
                    ..l
                },
                None => l,
            },
            None => l,
        },
        CurveType::DirY => match l.video {
            Some(v) => match v.three_d {
                Some(d) => LayerModel {
                    video: Some(
                        LayerVideoModel { three_d: Some(LayerVideo3DModel { dir_y: ks, ..d }), ..v },
                    ),
                    ..l
                },
                None => l,
            },
            None => l,
        },
        CurveType::DirZ => match l.video {
            Some(v) => match v.three_d {
                Some(d) => LayerModel {
                    video: Some(
                        LayerVideoModel { three_d: Some(LayerVideo3DModel { dir_z: ks, ..d }), ..v },
                    ),
                    ..l
                },
                None => l,
            },
            None => l,
        },
        CurveType::RotX => match l.video {
            Some(v) => match v.three_d {
                Some(d) => LayerModel {
                    video: Some(
                        LayerVideoModel { three_d: Some(LayerVideo3DModel { rot_x: ks, ..d }), ..v },
                    ),
                    ..l
                },
                None => l,
            },
            None => l,
        },
        CurveType::RotY => match l.video {
            Some(v) => match v.three_d {
                Some(d) => LayerModel {
                    video: Some(
                        LayerVideoModel { three_d: Some(LayerVideo3DModel { rot_y: ks, ..d }), ..v },
                    ),
                    ..l
                },
                None => l,
            },
            None => l,
        },
        CurveType::ScaleZ => match l.video {
            Some(v) => match v.three_d {
                Some(d) => LayerModel {
                    video: Some(
                        LayerVideoModel {
                            three_d: Some(LayerVideo3DModel { scale_z: ks, ..d }),
                            ..v
                        },
                    ),
                    ..l
                },
                None => l,
            },
            None => l,
        },
    }
}

impl AetLayerNode {
    /// Swaps the named curve out of the layer, leaving an empty one in its
    /// place; `None` (and no change) when the layer does not carry it.
    pub fn take_curve(&mut self, which: CurveType) -> (r: Option<FCurve>)
        ensures
            match r {
                Some(c) => curve_of(old(self)@, which) == Some(c@) && final(self)@ == with_curve(
                    old(self)@,
                    which,
                    Seq::empty(),
                ),
                None => curve_of(old(self)@, which) is None && final(self)@ == old(self)@,
            },
    {
        let mut tmp = FCurve::empty();
        let found: bool = match which {
            CurveType::VolumeL => match &mut self.audio {
                Some(a) => {
                    core::mem::swap(&mut a.volume_l, &mut tmp);
                    true
                },
                None => false,
            },
            CurveType::VolumeR => match &mut self.audio {
                Some(a) => {
                    core::mem::swap(&mut a.volume_r, &mut tmp);
                    true
                },
                None => false,
            },
            CurveType::PanL => match &mut self.audio {
                Some(a) => {
                    core::mem::swap(&mut a.pan_l, &mut tmp);
                    true
                },
                None => false,
            },
            CurveType::PanR => match &mut self.audio {
                Some(a) => {
                    core::mem::swap(&mut a.pan_r, &mut tmp);
                    true
                },
                None => false,
            },
            CurveType::AnchorX => match &mut self.video {
                Some(v) => {
                    core::mem::swap(&mut v.anchor_x, &mut tmp);
                    true
                },
                None => false,
            },
            CurveType::AnchorY => match &mut self.video {
                Some(v) => {
                    core::mem::swap(&mut v.anchor_y, &mut tmp);
                    true
                },
                None => false,
            },
            CurveType::PosX => match &mut self.video {
                Some(v) => {
                    core::mem::swap(&mut v.pos_x, &mut tmp);
                    true
                },
                None => false,
            },
            CurveType::PosY => match &mut self.video {
                Some(v) => {
                    core::mem::swap(&mut v.pos_y, &mut tmp);
                    true
                },
                None => false,
            },
            CurveType::RotZ => match &mut self.video {
                Some(v) => {
                    core::mem::swap(&mut v.rot_z, &mut tmp);
                    true
                },
                None => false,
            },
            CurveType::ScaleX => match &mut self.video {
                Some(v) => {
                    core::mem::swap(&mut v.scale_x, &mut tmp);
                    true
                },
                None => false,
            },
            CurveType::ScaleY => match &mut self.video {
                Some(v) => {
                    core::mem::swap(&mut v.scale_y, &mut tmp);
                    true
                },
                None => false,
            },
            CurveType::Opacity => match &mut self.video {
                Some(v) => {
                    core::mem::swap(&mut v.opacity, &mut tmp);
                    true
                },
                None => false,
            },
            CurveType::AnchorZ => match &mut self.video {
                Some(v) => match &mut v.three_d {
                    Some(d) => {
                        core::mem::swap(&mut d.anchor_z, &mut tmp);
                        true
                    },
                    None => false,
                },
                None => false,
            },
            CurveType::PosZ => match &mut self.video {
                Some(v) => match &mut v.three_d {
                    Some(d) => {
                        core::mem::swap(&mut d.pos_z, &mut tmp);
                        true
                    },
                    None => false,
                },
                None => false,
            },
            CurveType::DirX => match &mut self.video {
                Some(v) => match &mut v.three_d {
                    Some(d) => {
                        core::mem::swap(&mut d.dir_x, &mut tmp);
                        true
                    },
                    None => false,
                },
                None => false,
            },
            CurveType::DirY => match &mut self.video {
                Some(v) => match &mut v.three_d {
                    Some(d) => {
                        core::mem::swap(&mut d.dir_y, &mut tmp);
                        true
                    },
                    None => false,
                },
                None => false,
            },
            CurveType::DirZ => match &mut self.video {
                Some(v) => match &mut v.three_d {
                    Some(d) => {
                        core::mem::swap(&mut d.dir_z, &mut tmp);
                        true
                    },
                    None => false,
                },
                None => false,
            },
            CurveType::RotX => match &mut self.video {
                Some(v) => match &mut v.three_d {
                    Some(d) => {
                        core::mem::swap(&mut d.rot_x, &mut tmp);
                        true
                    },
                    None => false,
                },
                None => false,
            },
            CurveType::RotY => match &mut self.video {
                Some(v) => match &mut v.three_d {
                    Some(d) => {
                        core::mem::swap(&mut d.rot_y, &mut tmp);
                        true
                    },
                    None => false,
                },
                None => false,
            },
            CurveType::ScaleZ => match &mut self.video {
                Some(v) => match &mut v.three_d {
                    Some(d) => {
                        core::mem::swap(&mut d.scale_z, &mut tmp);
                        true
                    },
                    None => false,
                },
                None => false,
            },
        };
        if found {
            proof {
                assert(final(self)@ =~~= with_curve(old(self)@, which, Seq::empty()));
            }
            Some(tmp)
        } else {
            None
        }
    }
}


impl AetLayerNode {
    /// Puts a curve back into the named slot.  When the layer does not
    /// carry that slot the layer is unchanged and the curve comes back.
    pub fn put_curve(&mut self, which: CurveType, c: FCurve) -> (r: Option<FCurve>)
        ensures
            match r {
                None => curve_of(old(self)@, which) is Some && final(self)@ == with_curve(
                    old(self)@,
                    which,
                    c@,
                ),
                Some(back) => curve_of(old(self)@, which) is None && final(self)@ == old(self)@
                    && back@ == c@,
            },
    {
        let mut tmp = c;
        let found: bool = match which {
            CurveType::VolumeL => match &mut self.audio {
                Some(a) => {
                    core::mem::swap(&mut a.volume_l, &mut tmp);
                    true
                },
                None => false,
            },
            CurveType::VolumeR => match &mut self.audio {
                Some(a) => {
                    core::mem::swap(&mut a.volume_r, &mut tmp);
                    true
                },
                None => false,
            },
            CurveType::PanL => match &mut self.audio {
                Some(a) => {
                    core::mem::swap(&mut a.pan_l, &mut tmp);
                    true
                },
                None => false,
            },
            CurveType::PanR => match &mut self.audio {
                Some(a) => {
                    core::mem::swap(&mut a.pan_r, &mut tmp);
                    true
                },
                None => false,
            },
            CurveType::AnchorX => match &mut self.video {
                Some(v) => {
                    core::mem::swap(&mut v.anchor_x, &mut tmp);
                    true
                },
                None => false,
            },
            CurveType::AnchorY => match &mut self.video {
                Some(v) => {
                    core::mem::swap(&mut v.anchor_y, &mut tmp);
                    true
                },
                None => false,
            },
            CurveType::PosX => match &mut self.video {
                Some(v) => {
                    core::mem::swap(&mut v.pos_x, &mut tmp);
                    true
                },
                None => false,
            },
            CurveType::PosY => match &mut self.video {
                Some(v) => {
                    core::mem::swap(&mut v.pos_y, &mut tmp);
                    true
                },
                None => false,
            },
            CurveType::RotZ => match &mut self.video {
                Some(v) => {
                    core::mem::swap(&mut v.rot_z, &mut tmp);
                    true
                },
                None => false,
            },
            CurveType::ScaleX => match &mut self.video {
                Some(v) => {
                    core::mem::swap(&mut v.scale_x, &mut tmp);
                    true
                },
                None => false,
            },
            CurveType::ScaleY => match &mut self.video {
                Some(v) => {
                    core::mem::swap(&mut v.scale_y, &mut tmp);
                    true
                },
                None => false,
            },
            CurveType::Opacity => match &mut self.video {
                Some(v) => {
                    core::mem::swap(&mut v.opacity, &mut tmp);
                    true
                },
                None => false,
            },
            CurveType::AnchorZ => match &mut self.video {
                Some(v) => match &mut v.three_d {
                    Some(d) => {
                        core::mem::swap(&mut d.anchor_z, &mut tmp);
                        true
                    },
                    None => false,
                },
                None => false,
            },
            CurveType::PosZ => match &mut self.video {
                Some(v) => match &mut v.three_d {
                    Some(d) => {
                        core::mem::swap(&mut d.pos_z, &mut tmp);
                        true
                    },
                    None => false,
                },
                None => false,
            },
            CurveType::DirX => match &mut self.video {
                Some(v) => match &mut v.three_d {
                    Some(d) => {
                        core::mem::swap(&mut d.dir_x, &mut tmp);
                        true
                    },
                    None => false,
                },
                None => false,
            },
            CurveType::DirY => match &mut self.video {
                Some(v) => match &mut v.three_d {
                    Some(d) => {
                        core::mem::swap(&mut d.dir_y, &mut tmp);
                        true
                    },
                    None => false,
                },
                None => false,
            },
            CurveType::DirZ => match &mut self.video {
                Some(v) => match &mut v.three_d {
                    Some(d) => {
                        core::mem::swap(&mut d.dir_z, &mut tmp);
                        true
                    },
                    None => false,
                },
                None => false,
            },
            CurveType::RotX => match &mut self.video {
                Some(v) => match &mut v.three_d {
                    Some(d) => {
                        core::mem::swap(&mut d.rot_x, &mut tmp);
                        true
                    },
                    None => false,
                },
                None => false,
            },
            CurveType::RotY => match &mut self.video {
                Some(v) => match &mut v.three_d {
                    Some(d) => {
                        core::mem::swap(&mut d.rot_y, &mut tmp);
                        true
                    },
                    None => false,
                },
                None => false,
            },
            CurveType::ScaleZ => match &mut self.video {
                Some(v) => match &mut v.three_d {
                    Some(d) => {
                        core::mem::swap(&mut d.scale_z, &mut tmp);
                        true
                    },
                    None => false,
                },
                None => false,
            },
        };
        if found {
            proof {
                assert(final(self)@ =~~= with_curve(old(self)@, which, c@));
            }
            None
        } else {
            Some(tmp)
        }
    }

    /// Opens the named curve for editing: heals it with one default key
    /// when it has none, and pulls the selected key index back into
    /// range.  Reports whether the layer carries the curve at all.
    #[verifier::rlimit(100)]
    pub fn ensure_curve_ready(&mut self, which: CurveType) -> (r: bool)
        ensures
            !r ==> curve_of(old(self)@, which) is None && final(self)@ == old(self)@,
            r ==> curve_of(old(self)@, which) is Some && ({
                let ks = curve_of(old(self)@, which)->Some_0;
                let ks2 = if ks.len() == 0 {
                    seq![FCurveKey { frame: 0, value: 0, tangent: 0 }]
                } else {
                    ks
                };
                let sel: usize = if old(self).selected_key >= ks2.len() {
                    (ks2.len() - 1) as usize
                } else {
                    old(self).selected_key
                };
                final(self)@ == (LayerModel { selected_key: sel, ..with_curve(old(self)@, which, ks2) })
            }),
    {
        match self.take_curve(which) {
            Some(mut c) => {
                c.seed_default();
                if self.selected_key >= c.keys.len() {
                    self.selected_key = c.keys.len() - 1;
                }
                let ghost ks2 = c@;
                let ghost sel = self.selected_key;
                let back = self.put_curve(which, c);
                proof {
                    assert(back is None);
                    assert(final(self)@ =~~= (LayerModel {
                        selected_key: sel,
                        ..with_curve(old(self)@, which, ks2)
                    }));
                }
                true
            },
            None => false,
        }
    }
}


/// A frame pulled into the layer's span: below the start it becomes the
/// start, past the end it becomes the end.
pub open spec fn clamp_frame_spec(f: i64, lo: i64, hi: i64) -> i64 {
    if f < lo {
        lo
    } else if f > hi {
        hi
    } else {
        f
    }
}

/// The first index whose key sits exactly at frame `f`; the length when
/// no key does.
pub open spec fn first_frame_pos(s: Seq<FCurveKey>, f: i64) -> int
    decreases s,
{
    if s.len() == 0 {
        0
    } else if s[0].frame == f {
        0
    } else {
        1 + first_frame_pos(s.subrange(1, s.len() as int), f)
    }
}

impl AetLayerNode {
    /// Adds a key to the named curve at `frame` (clamped into the layer's
    /// span), carrying the value the curve already shows there; the key
    /// lands at its sorted position and becomes the selected key.
    #[verifier::rlimit(100)]
    pub fn add_curve_key(&mut self, which: CurveType, frame: i64) -> (r: bool)
        ensures
            !r ==> curve_of(old(self)@, which) is None && final(self)@ == old(self)@,
            r ==> curve_of(old(self)@, which) is Some && ({
                let ks = curve_of(old(self)@, which)->Some_0;
                let f = clamp_frame_spec(frame, old(self).start_time, old(self).end_time);
                let ks2 = ks.insert(
                    insert_pos_spec(ks, f),
                    FCurveKey { frame: f, value: sample_spec(ks, f), tangent: 0 },
                );
                final(self)@ == (LayerModel {
                    selected_key: final(self).selected_key,
                    ..with_curve(old(self)@, which, ks2)
                }) && final(self).selected_key == first_frame_pos(ks2, f)
            }),
    {
        match self.take_curve(which) {
            Some(mut c) => {
                let f: i64 = if frame < self.start_time {
                    self.start_time
                } else if frame > self.end_time {
                    self.end_time
                } else {
                    frame
                };
                let pos = c.add_key_at(f);
                let ghost ks2 = c@;
                let n = c.keys.len();
                let mut j: usize = 0;
                proof {
                    assert(ks2.subrange(0, ks2.len() as int) =~= ks2);
                }
                while j < n && c.keys[j].frame != f
                    invariant
                        j <= n,
                        n == c@.len(),
                        c@ == ks2,
                        first_frame_pos(ks2, f) == j + first_frame_pos(
                            ks2.subrange(j as int, ks2.len() as int),
                            f,
                        ),
                        forall|k: int| 0 <= k < j ==> ks2[k].frame != f,
                    decreases n - j,
                {
                    proof {
                        let rest = ks2.subrange(j as int, ks2.len() as int);
                        assert(rest[0] == ks2[j as int]);
                        assert(rest.subrange(1, rest.len() as int) =~= ks2.subrange(
                            j as int + 1,
                            ks2.len() as int,
                        ));
                    }
                    j = j + 1;
                }
                proof {
                    crate::curve::lemma_insert_pos_bounds(
                        curve_of(old(self)@, which)->Some_0,
                        f,
                    );
                    assert(pos < ks2.len() && ks2[pos as int].frame == f);
                    if j < n {
                        let rest = ks2.subrange(j as int, ks2.len() as int);
                        assert(rest[0] == ks2[j as int]);
                        assert(first_frame_pos(rest, f) == 0);
                    }
                    assert(j < n);
                }
                self.selected_key = j;
                let ghost sel = self.selected_key;
                let back = self.put_curve(which, c);
                proof {
                    assert(back is None);
                    assert(final(self)@ =~~= (LayerModel {
                        selected_key: sel,
                        ..with_curve(old(self)@, which, ks2)
                    }));
                }
                true
            },
            None => false,
        }
    }

    /// Removes the selected key of the named curve.  A curve never loses
    /// its last key, and the selection steps back when it falls off the
    /// end.  Reports whether a key was removed.
    #[verifier::rlimit(100)]
    pub fn remove_selected_key(&mut self, which: CurveType) -> (r: bool)
        ensures
            curve_of(old(self)@, which) is None ==> !r && final(self)@ == old(self)@,
            curve_of(old(self)@, which) is Some ==> ({
                let ks = curve_of(old(self)@, which)->Some_0;
                if ks.len() > 1 && old(self).selected_key < ks.len() {
                    r && ({
                        let ks2 = ks.remove(old(self).selected_key as int);
                        let sel: usize = if old(self).selected_key as int == ks2.len() {
                            (old(self).selected_key - 1) as usize
                        } else {
                            old(self).selected_key
                        };
                        final(self)@ == (LayerModel {
                            selected_key: sel,
                            ..with_curve(old(self)@, which, ks2)
                        })
                    })
                } else {
                    !r && final(self)@ == (LayerModel {
                        selected_key: old(self).selected_key,
                        ..with_curve(old(self)@, which, ks)
                    })
                }
            }),
    {
        match self.take_curve(which) {
            Some(mut c) => {
                let removable = c.keys.len() > 1 && self.selected_key < c.keys.len();
                if removable {
                    c.remove_key(self.selected_key);
                    if self.selected_key == c.keys.len() {
                        self.selected_key = self.selected_key - 1;
                    }
                }
                let ghost ks2 = c@;
                let ghost sel = self.selected_key;
                let back = self.put_curve(which, c);
                proof {
                    assert(back is None);
                    assert(final(self)@ =~~= (LayerModel {
                        selected_key: sel,
                        ..with_curve(old(self)@, which, ks2)
                    }));
                }
                removable
            },
            None => false,
        }
    }
}

} // verus!
