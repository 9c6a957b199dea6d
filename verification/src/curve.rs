//! Keyframed scalar curves.
//!
//! A curve is an ordered list of keyframes, each carrying a frame time, a
//! value and a tangent, all fixed-point scalars.  The model samples a curve
//! by holding the value of the latest key at or before the requested time
//! (the first key's value before any key); smoother easing between keys is
//! a presentation concern and lives outside this crate.  Editing keeps the
//! key list sorted by frame.

use vstd::prelude::*;

verus! {

/// One keyframe of a curve.
#[derive(Clone, Copy, PartialEq, Eq, Structural, Debug)]
pub struct FCurveKey {
    pub frame: i64,
    pub value: i64,
    pub tangent: i64,
}

/// A keyframed scalar curve.
#[derive(Debug)]
pub struct FCurve {
    pub keys: Vec<FCurveKey>,
}

impl View for FCurve {
    type V = Seq<FCurveKey>;

    open spec fn view(&self) -> Seq<FCurveKey> {
        self.keys@
    }
}

/// Keys are sorted by non-decreasing frame time.
pub open spec fn sorted_keys(s: Seq<FCurveKey>) -> bool {
    forall|i: int, j: int| 0 <= i < j < s.len() ==> s[i].frame <= s[j].frame
}

/// The sampled value of a key list at time `t`: the value of the last key
/// whose frame is at or before `t`; the first key's value when `t` lies
/// before every key; 0 for an empty list.
pub open spec fn sample_spec(s: Seq<FCurveKey>, t: i64) -> i64
    decreases s,
{
    if s.len() == 0 {
        0
    } else if s.last().frame <= t {
        s.last().value
    } else if s.len() == 1 {
        s[0].value
    } else {
        sample_spec(s.drop_last(), t)
    }
}

/// The index at which a key with frame `f` is inserted to keep the list
/// sorted: the first index holding a frame strictly greater than `f`.
pub open spec fn insert_pos_spec(s: Seq<FCurveKey>, f: i64) -> int
    decreases s,
{
    if s.len() == 0 {
        0
    } else if s[0].frame > f {
        0
    } else {
        1 + insert_pos_spec(s.subrange(1, s.len() as int), f)
    }
}

/// The sorted insertion index always lies within the list.
pub proof fn lemma_insert_pos_bounds(s: Seq<FCurveKey>, f: i64)
    ensures
        0 <= insert_pos_spec(s, f) <= s.len(),
    decreases s,
{
    if s.len() > 0 && s[0].frame <= f {
        lemma_insert_pos_bounds(s.subrange(1, s.len() as int), f);
    }
}

/// Keys at indices before the insertion point sit at or before `f`; the
/// key at the insertion point, if any, sits strictly after it.
pub proof fn lemma_insert_pos_partition(s: Seq<FCurveKey>, f: i64)
    ensures
        forall|j: int| 0 <= j < insert_pos_spec(s, f) ==> s[j].frame <= f,
        insert_pos_spec(s, f) < s.len() ==> s[insert_pos_spec(s, f)].frame > f,
    decreases s,
{
    lemma_insert_pos_bounds(s, f);
    if s.len() > 0 && s[0].frame <= f {
        let rest = s.subrange(1, s.len() as int);
        lemma_insert_pos_partition(rest, f);
        assert forall|j: int| 0 <= j < insert_pos_spec(s, f) implies s[j].frame <= f by {
            if j > 0 {
                assert(rest[j - 1] == s[j]);
            }
        }
        assert(insert_pos_spec(s, f) == 1 + insert_pos_spec(rest, f));
        if insert_pos_spec(s, f) < s.len() {
            let k = insert_pos_spec(rest, f);
            lemma_insert_pos_bounds(rest, f);
            assert(0 <= k < rest.len());
            assert(rest[k] == s[k + 1]);
        }
    }
}

/// Inserting a key at its sorted position keeps the list sorted.
pub proof fn lemma_add_key_keeps_sorted(s: Seq<FCurveKey>, f: i64, k: FCurveKey)
    requires
        sorted_keys(s),
        k.frame == f,
    ensures
        sorted_keys(s.insert(insert_pos_spec(s, f), k)),
{
    lemma_insert_pos_bounds(s, f);
    lemma_insert_pos_partition(s, f);
    let p = insert_pos_spec(s, f);
    let s2 = s.insert(p, k);
    assert forall|i: int, j: int| 0 <= i < j < s2.len() implies s2[i].frame <= s2[j].frame by {
        if i < p && j < p {
        } else if i < p && j == p {
        } else if i < p && j > p {
            assert(s2[j] == s[j - 1]);
            assert(s[p] == s2[p + 1]);
        } else if i == p {
            assert(s2[j] == s[j - 1]);
            assert(s[j - 1].frame >= s[p].frame);
        } else {
            assert(s2[i] == s[i - 1]);
            assert(s2[j] == s[j - 1]);
        }
    }
}

/// Removing a key keeps the list sorted.
pub proof fn lemma_remove_keeps_sorted(s: Seq<FCurveKey>, i: int)
    requires
        sorted_keys(s),
        0 <= i < s.len(),
    ensures
        sorted_keys(s.remove(i)),
{
    let s2 = s.remove(i);
    assert forall|a: int, b: int| 0 <= a < b < s2.len() implies s2[a].frame <= s2[b].frame by {
        let a0 = if a < i {
            a
        } else {
            a + 1
        };
        let b0 = if b < i {
            b
        } else {
            b + 1
        };
        assert(s2[a] == s[a0]);
        assert(s2[b] == s[b0]);
    }
}

impl Clone for FCurve {
    fn clone(&self) -> (r: Self)
        ensures
            r@ == self@,
    {
        let mut keys: Vec<FCurveKey> = Vec::new();
        let mut i: usize = 0;
        while i < self.keys.len()
            invariant
                i <= self.keys.len(),
                keys@ == self.keys@.subrange(0, i as int),
            decreases self.keys.len() - i,
        {
            keys.push(self.keys[i]);
            i = i + 1;
        }
        proof {
            assert(keys@ =~= self.keys@);
        }
        FCurve { keys }
    }
}

impl FCurve {
    /// An empty curve, with no keys at all.
    pub fn empty() -> (r: Self)
        ensures
            r@ == Seq::<FCurveKey>::empty(),
    {
        FCurve { keys: Vec::new() }
    }

    /// A curve with a single key holding `value` at frame 0.
    pub fn constant(value: i64) -> (r: Self)
        ensures
            r@ == seq![FCurveKey { frame: 0, value: value, tangent: 0 }],
            sorted_keys(r@),
            forall|t: i64| sample_spec(r@, t) == value,
    {
        let mut keys: Vec<FCurveKey> = Vec::new();
        keys.push(FCurveKey { frame: 0, value: value, tangent: 0 });
        proof {
            assert(keys@ =~= seq![FCurveKey { frame: 0, value: value, tangent: 0 }]);
        }
        FCurve { keys }
    }

    pub fn is_empty(&self) -> (r: bool)
        ensures
            r == (self@.len() == 0),
    {
        self.keys.len() == 0
    }

    /// Samples the curve at time `t` under the hold interpretation.
    pub fn sample(&self, t: i64) -> (r: i64)
        ensures
            r == sample_spec(self@, t),
    {
        let n: usize = self.keys.len();
        if n == 0 {
            return 0;
        }
        let mut i: usize = n;
        proof {
            assert(self@.subrange(0, n as int) =~= self@);
        }
        while i > 1
            invariant
                1 <= i <= n,
                n == self@.len(),
                sample_spec(self@, t) == sample_spec(self@.subrange(0, i as int), t),
            decreases i,
        {
            if self.keys[i - 1].frame <= t {
                proof {
                    assert(self@.subrange(0, i as int).last() == self@[i - 1]);
                }
                return self.keys[i - 1].value;
            }
            proof {
                let pre = self@.subrange(0, i as int);
                assert(pre.last() == self@[i - 1]);
                assert(pre.drop_last() =~= self@.subrange(0, i as int - 1));
            }
            i = i - 1;
        }
        proof {
            assert(self@.subrange(0, 1).last() == self@[0]);
        }
        self.keys[0].value
    }

    /// Heals a curve that has lost all keys by seeding one default key at
    /// frame 0, so that the curve is never empty when read.
    pub fn seed_default(&mut self)
        ensures
            old(self)@.len() > 0 ==> final(self)@ == old(self)@,
            old(self)@.len() == 0 ==> final(self)@ == seq![
                FCurveKey { frame: 0, value: 0, tangent: 0 },
            ],
            final(self)@.len() > 0,
    {
        if self.keys.len() == 0 {
            self.keys.push(FCurveKey { frame: 0, value: 0, tangent: 0 });
            proof {
                assert(self@ =~= seq![FCurveKey { frame: 0, value: 0, tangent: 0 }]);
            }
        }
    }

    /// Inserts a key at frame `f` carrying the currently sampled value, at
    /// the sorted position, and returns that position.
    pub fn add_key_at(&mut self, f: i64) -> (pos: usize)
        ensures
            pos == insert_pos_spec(old(self)@, f),
            final(self)@ == old(self)@.insert(
                insert_pos_spec(old(self)@, f),
                FCurveKey { frame: f, value: sample_spec(old(self)@, f), tangent: 0 },
            ),
    {
        let value: i64 = self.sample(f);
        let mut i: usize = 0;
        proof {
            assert(self@.subrange(0, self@.len() as int) =~= self@);
        }
        while i < self.keys.len() && self.keys[i].frame <= f
            invariant
                i <= self@.len(),
                forall|j: int| 0 <= j < i ==> self@[j].frame <= f,
                insert_pos_spec(self@, f) == i + insert_pos_spec(
                    self@.subrange(i as int, self@.len() as int),
                    f,
                ),
                self@ == old(self)@,
            decreases self@.len() - i,
        {
            proof {
                let rest = self@.subrange(i as int, self@.len() as int);
                assert(rest[0] == self@[i as int]);
                assert(rest.subrange(1, rest.len() as int) =~= self@.subrange(
                    i as int + 1,
                    self@.len() as int,
                ));
            }
            i = i + 1;
        }
        proof {
            let rest = self@.subrange(i as int, self@.len() as int);
            if i < self@.len() {
                assert(rest[0] == self@[i as int]);
            }
            assert(insert_pos_spec(rest, f) == 0);
        }
        self.keys.insert(i, FCurveKey { frame: f, value: value, tangent: 0 });
        i
    }

    /// Removes the key at index `i`.
    pub fn remove_key(&mut self, i: usize)
        requires
            i < old(self)@.len(),
        ensures
            final(self)@ == old(self)@.remove(i as int),
    {
        self.keys.remove(i);
    }
}

/// Sampling a sorted curve whose every key carries the same value yields
/// that value at every time.
pub proof fn lemma_sample_constant(s: Seq<FCurveKey>, v: i64, t: i64)
    requires
        s.len() > 0,
        forall|i: int| 0 <= i < s.len() ==> s[i].value == v,
    ensures
        sample_spec(s, t) == v,
    decreases s,
{
    if s.len() > 1 && s.last().frame > t {
        lemma_sample_constant(s.drop_last(), v, t);
    }
}

} // verus!
