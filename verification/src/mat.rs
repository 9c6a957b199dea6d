//! Transforms as operation sequences, and their affine realization.
//!
//! The evaluator describes each rendered layer's placement as the ordered
//! list of primitive operations the runtime applies to the incoming basis:
//! translate, gated rotations about the current axes, scale, then anchor.
//! Translations and scales are exact over fixed-point scalars, so a list
//! without rotations folds here into a 4x4 matrix, entry for entry; lists
//! that do rotate are left to a numeric renderer, which is outside this
//! crate's exact model.

use vstd::prelude::*;

use crate::fx::fx_in_range;
use crate::fx::fx_mul;

verus! {

/// A column of a 4x4 matrix, in fixed-point scalars.
#[derive(Clone, Copy, PartialEq, Eq, Structural, Debug)]
pub struct Vec4 {
    pub x: i64,
    pub y: i64,
    pub z: i64,
    pub w: i64,
}

/// A 4x4 matrix as four basis columns, in fixed-point scalars.
#[derive(Clone, Copy, PartialEq, Eq, Structural, Debug)]
pub struct Mat4 {
    pub x: Vec4,
    pub y: Vec4,
    pub z: Vec4,
    pub w: Vec4,
}

/// A column over unbounded integers, for exact specification arithmetic.
#[verifier::ext_equal]
pub struct Vec4i {
    pub x: int,
    pub y: int,
    pub z: int,
    pub w: int,
}

/// A matrix over unbounded integers.
#[verifier::ext_equal]
pub struct Mat4i {
    pub x: Vec4i,
    pub y: Vec4i,
    pub z: Vec4i,
    pub w: Vec4i,
}

pub open spec fn v4i(v: Vec4) -> Vec4i {
    Vec4i { x: v.x as int, y: v.y as int, z: v.z as int, w: v.w as int }
}

pub open spec fn m4i(m: Mat4) -> Mat4i {
    Mat4i { x: v4i(m.x), y: v4i(m.y), z: v4i(m.z), w: v4i(m.w) }
}

pub open spec fn v4_in_range(v: Vec4i) -> bool {
    fx_in_range(v.x) && fx_in_range(v.y) && fx_in_range(v.z) && fx_in_range(v.w)
}

pub open spec fn m4_in_range(m: Mat4i) -> bool {
    v4_in_range(m.x) && v4_in_range(m.y) && v4_in_range(m.z) && v4_in_range(m.w)
}

impl Mat4 {
    /// The identity transform.
    pub fn identity() -> (r: Mat4)
        ensures
            m4i(r) == identity_spec(),
    {
        Mat4 {
            x: Vec4 { x: 1000, y: 0, z: 0, w: 0 },
            y: Vec4 { x: 0, y: 1000, z: 0, w: 0 },
            z: Vec4 { x: 0, y: 0, z: 1000, w: 0 },
            w: Vec4 { x: 0, y: 0, z: 0, w: 1000 },
        }
    }
}

pub open spec fn identity_spec() -> Mat4i {
    Mat4i {
        x: Vec4i { x: 1000, y: 0, z: 0, w: 0 },
        y: Vec4i { x: 0, y: 1000, z: 0, w: 0 },
        z: Vec4i { x: 0, y: 0, z: 1000, w: 0 },
        w: Vec4i { x: 0, y: 0, z: 0, w: 1000 },
    }
}

/// One primitive transform step, with fixed-point arguments sampled from a
/// layer's animation curves.  Angles are degrees; a rotation step appears
/// in an operation list only when its sampled angle was strictly positive.
#[derive(Clone, Copy, PartialEq, Eq, Structural, Debug)]
pub enum TransformOp {
    /// Moves the origin by `x`, `y` and negated `z` along the current basis.
    Translate { x: i64, y: i64, z: i64 },
    /// Rotates the current basis about its X axis.
    RotateX { deg: i64 },
    /// Rotates the current basis about its Y axis.
    RotateY { deg: i64 },
    /// Rotates the current basis about its Z axis.
    RotateZ { deg: i64 },
    /// Scales the basis columns componentwise.
    ScaleBy { x: i64, y: i64, z: i64 },
    /// Moves the origin by the negated anchor along the current basis,
    /// after scaling, so the anchor reads in pre-scale local units.
    Anchor { x: i64, y: i64, z: i64 },
}

/// A column scaled by a fixed-point factor.
pub open spec fn v_scale(v: Vec4i, s: int) -> Vec4i {
    Vec4i { x: fx_mul(v.x, s), y: fx_mul(v.y, s), z: fx_mul(v.z, s), w: fx_mul(v.w, s) }
}

/// The linear combination `xc*a + yc*b + zc*c + w`, componentwise.
pub open spec fn v_lin(xc: Vec4i, a: int, yc: Vec4i, b: int, zc: Vec4i, c: int, w: Vec4i) -> Vec4i {
    Vec4i {
        x: fx_mul(xc.x, a) + fx_mul(yc.x, b) + fx_mul(zc.x, c) + w.x,
        y: fx_mul(xc.y, a) + fx_mul(yc.y, b) + fx_mul(zc.y, c) + w.y,
        z: fx_mul(xc.z, a) + fx_mul(yc.z, b) + fx_mul(zc.z, c) + w.z,
        w: fx_mul(xc.w, a) + fx_mul(yc.w, b) + fx_mul(zc.w, c) + w.w,
    }
}

/// Whether an operation is one of the affine steps this model realizes
/// exactly (everything but a rotation).
pub open spec fn op_is_affine(op: TransformOp) -> bool {
    match op {
        TransformOp::RotateX { .. } => false,
        TransformOp::RotateY { .. } => false,
        TransformOp::RotateZ { .. } => false,
        _ => true,
    }
}

/// The exact effect of one affine operation on a matrix.
pub open spec fn apply_affine_spec(m: Mat4i, op: TransformOp) -> Mat4i {
    match op {
        TransformOp::Translate { x, y, z } => Mat4i {
            w: v_lin(m.x, x as int, m.y, y as int, m.z, -(z as int), m.w),
            ..m
        },
        TransformOp::ScaleBy { x, y, z } => Mat4i {
            x: v_scale(m.x, x as int),
            y: v_scale(m.y, y as int),
            z: v_scale(m.z, z as int),
            ..m
        },
        TransformOp::Anchor { x, y, z } => Mat4i {
            w: v_lin(m.x, -(x as int), m.y, -(y as int), m.z, -(z as int), m.w),
            ..m
        },
        _ => m,
    }
}

/// Folds an operation list over a matrix.  The result is defined exactly
/// when no rotation occurs and every folded entry stays representable.
pub open spec fn fold_ops_spec(m: Mat4i, ops: Seq<TransformOp>) -> Option<Mat4i>
    decreases ops.len(),
{
    if ops.len() == 0 {
        Some(m)
    } else if !op_is_affine(ops[0]) {
        None
    } else {
        let m2 = apply_affine_spec(m, ops[0]);
        if m4_in_range(m2) {
            fold_ops_spec(m2, ops.subrange(1, ops.len() as int))
        } else {
            None
        }
    }
}

/// Multiplying by zero yields zero.
pub proof fn lemma_fx_mul_zero(a: int)
    ensures
        fx_mul(a, 0) == 0,
{
    assert(a * 0 == 0) by (nonlinear_arith);
}

/// Multiplying by the fixed-point one yields the scalar itself.
pub proof fn lemma_fx_mul_one(a: int)
    ensures
        fx_mul(a, 1000) == a,
{
    if a >= 0 {
        assert(a * 1000 == 1000 * a) by (nonlinear_arith);
        vstd::arithmetic::div_mod::lemma_div_multiples_vanish(a, 1000);
    } else {
        assert(-(a * 1000) == 1000 * (-a)) by (nonlinear_arith);
        vstd::arithmetic::div_mod::lemma_div_multiples_vanish(-a, 1000);
    }
}

/// The identity contribution: translating by zero, scaling by one and
/// anchoring at zero folds any representable matrix to itself.
pub proof fn lemma_fold_identity_ops(m: Mat4i)
    requires
        m4_in_range(m),
    ensures
        fold_ops_spec(
            m,
            seq![
                TransformOp::Translate { x: 0, y: 0, z: 0 },
                TransformOp::ScaleBy { x: 1000, y: 1000, z: 1000 },
                TransformOp::Anchor { x: 0, y: 0, z: 0 },
            ],
        ) == Some(m),
{
    let ops = seq![
        TransformOp::Translate { x: 0, y: 0, z: 0 },
        TransformOp::ScaleBy { x: 1000, y: 1000, z: 1000 },
        TransformOp::Anchor { x: 0, y: 0, z: 0 },
    ];
    assert forall|a: int| true implies fx_mul(a, 0) == 0 && fx_mul(a, -0) == 0 && fx_mul(a, 1000)
        == a by {
        lemma_fx_mul_zero(a);
        lemma_fx_mul_one(a);
    }
    let m1 = apply_affine_spec(m, ops[0]);
    assert(m1 =~= m);
    let r1 = ops.subrange(1, 3);
    assert(fold_ops_spec(m, ops) == fold_ops_spec(m, r1));
    assert(r1[0] == ops[1]);
    let m2 = apply_affine_spec(m, ops[1]);
    assert(m2 =~= m);
    let r2 = r1.subrange(1, 2);
    assert(fold_ops_spec(m, r1) == fold_ops_spec(m, r2));
    assert(r2[0] == ops[2]);
    let m3 = apply_affine_spec(m, ops[2]);
    assert(m3 =~= m);
    let r3 = r2.subrange(1, 1);
    assert(fold_ops_spec(m, r2) == fold_ops_spec(m, r3));
    assert(r3.len() == 0);
    assert(fold_ops_spec(m, r3) == Some(m));
}

/// A successful fold of a representable matrix stays representable.
pub proof fn lemma_fold_in_range(m: Mat4i, ops: Seq<TransformOp>)
    requires
        m4_in_range(m),
        fold_ops_spec(m, ops) is Some,
    ensures
        m4_in_range(fold_ops_spec(m, ops)->Some_0),
    decreases ops.len(),
{
    if ops.len() > 0 {
        let m2 = apply_affine_spec(m, ops[0]);
        lemma_fold_in_range(m2, ops.subrange(1, ops.len() as int));
    }
}

/// Folding distributes over concatenation of operation lists.
pub proof fn lemma_fold_append(m: Mat4i, a: Seq<TransformOp>, b: Seq<TransformOp>)
    ensures
        fold_ops_spec(m, a + b) == match fold_ops_spec(m, a) {
            Some(m2) => fold_ops_spec(m2, b),
            None => None,
        },
    decreases a.len(),
{
    if a.len() == 0 {
        assert(a + b =~= b);
    } else {
        assert((a + b)[0] == a[0]);
        if op_is_affine(a[0]) {
            let m2 = apply_affine_spec(m, a[0]);
            if m4_in_range(m2) {
                assert((a + b).subrange(1, (a + b).len() as int) =~= a.subrange(
                    1,
                    a.len() as int,
                ) + b);
                lemma_fold_append(m2, a.subrange(1, a.len() as int), b);
            }
        }
    }
}

/// Multiplies a fixed-point scalar by a wide factor exactly.
fn fx_mul_wide(a: i64, b: i128) -> (r: i128)
    requires
        -0x8000_0000_0000_0000 <= b <= 0x8000_0000_0000_0000,
    ensures
        r == fx_mul(a as int, b as int),
        -0x20_0000_0000_0000_0000_0000_0000_0000 <= r <= 0x20_0000_0000_0000_0000_0000_0000_0000,
{
    proof {
        assert(-0x4000_0000_0000_0000_0000_0000_0000_0000 <= (a as int) * (b as int)
            <= 0x4000_0000_0000_0000_0000_0000_0000_0000)
            by (nonlinear_arith)
            requires
                -0x8000_0000_0000_0000 <= a as int <= 0x7fff_ffff_ffff_ffff,
                -0x8000_0000_0000_0000 <= b as int <= 0x8000_0000_0000_0000,
        ;
    }
    let p: i128 = (a as i128) * b;
    let q: i128 = if p >= 0 {
        p / 1000
    } else {
        -((-p) / 1000)
    };
    proof {
        if p >= 0 {
            assert((p as int) / 1000 * 1000 <= p as int);
            assert(q <= 0x20_0000_0000_0000_0000_0000_0000_0000);
        } else {
            assert((-p as int) / 1000 * 1000 <= -p as int);
            assert(-q <= 0x20_0000_0000_0000_0000_0000_0000_0000);
        }
    }
    q
}

/// `xc*a + yc*b + zc*c + w` for one row position, checked into range.
fn lin_entry(xc: i64, a: i128, yc: i64, b: i128, zc: i64, c: i128, w: i64) -> (r: Option<i64>)
    requires
        -0x8000_0000_0000_0000 <= a <= 0x8000_0000_0000_0000,
        -0x8000_0000_0000_0000 <= b <= 0x8000_0000_0000_0000,
        -0x8000_0000_0000_0000 <= c <= 0x8000_0000_0000_0000,
    ensures
        ({
            let exact = fx_mul(xc as int, a as int) + fx_mul(yc as int, b as int) + fx_mul(
                zc as int,
                c as int,
            ) + w;
            match r {
                Some(v) => v == exact && fx_in_range(exact),
                None => !fx_in_range(exact),
            }
        }),
{
    let s: i128 = fx_mul_wide(xc, a) + fx_mul_wide(yc, b) + fx_mul_wide(zc, c) + (w as i128);
    if s >= -0x8000_0000_0000_0000i128 && s <= 0x7fff_ffff_ffff_ffffi128 {
        Some(s as i64)
    } else {
        None
    }
}

/// A whole column of the linear combination, checked into range.
fn lin_col(xc: Vec4, a: i128, yc: Vec4, b: i128, zc: Vec4, c: i128, w: Vec4) -> (r: Option<Vec4>)
    requires
        -0x8000_0000_0000_0000 <= a <= 0x8000_0000_0000_0000,
        -0x8000_0000_0000_0000 <= b <= 0x8000_0000_0000_0000,
        -0x8000_0000_0000_0000 <= c <= 0x8000_0000_0000_0000,
    ensures
        ({
            let exact = v_lin(v4i(xc), a as int, v4i(yc), b as int, v4i(zc), c as int, v4i(w));
            match r {
                Some(v) => v4i(v) == exact && v4_in_range(exact),
                None => !v4_in_range(exact),
            }
        }),
{
    let rx = lin_entry(xc.x, a, yc.x, b, zc.x, c, w.x);
    let ry = lin_entry(xc.y, a, yc.y, b, zc.y, c, w.y);
    let rz = lin_entry(xc.z, a, yc.z, b, zc.z, c, w.z);
    let rw = lin_entry(xc.w, a, yc.w, b, zc.w, c, w.w);
    match (rx, ry, rz, rw) {
        (Some(x), Some(y), Some(z), Some(w)) => Some(Vec4 { x, y, z, w }),
        _ => None,
    }
}

/// A column scaled by a fixed-point factor, checked into range.
fn scale_col(v: Vec4, s: i64) -> (r: Option<Vec4>)
    ensures
        match r {
            Some(v2) => v4i(v2) == v_scale(v4i(v), s as int) && v4_in_range(v_scale(v4i(v), s as int)),
            None => !v4_in_range(v_scale(v4i(v), s as int)),
        },
{
    let rx = lin_entry(v.x, s as i128, v.y, 0, v.z, 0, 0);
    let ry = lin_entry(v.y, s as i128, v.y, 0, v.z, 0, 0);
    let rz = lin_entry(v.z, s as i128, v.y, 0, v.z, 0, 0);
    let rw = lin_entry(v.w, s as i128, v.y, 0, v.z, 0, 0);
    match (rx, ry, rz, rw) {
        (Some(x), Some(y), Some(z), Some(w)) => Some(Vec4 { x, y, z, w }),
        _ => None,
    }
}

/// Applies one operation to a matrix; `None` when the operation is a
/// rotation (not realizable exactly) or an entry leaves the representable
/// range.
pub fn apply_op(m: Mat4, op: TransformOp) -> (r: Option<Mat4>)
    ensures
        match r {
            Some(m2) => op_is_affine(op) && m4_in_range(apply_affine_spec(m4i(m), op)) && m4i(m2)
                == apply_affine_spec(m4i(m), op),
            None => !op_is_affine(op) || !m4_in_range(apply_affine_spec(m4i(m), op)),
        },
{
    match op {
        TransformOp::Translate { x, y, z } => {
            match lin_col(m.x, x as i128, m.y, y as i128, m.z, -(z as i128), m.w) {
                Some(w) => Some(Mat4 { w, ..m }),
                None => None,
            }
        },
        TransformOp::ScaleBy { x, y, z } => {
            let cx = scale_col(m.x, x);
            let cy = scale_col(m.y, y);
            let cz = scale_col(m.z, z);
            match (cx, cy, cz) {
                (Some(x2), Some(y2), Some(z2)) => Some(Mat4 { x: x2, y: y2, z: z2, ..m }),
                _ => None,
            }
        },
        TransformOp::Anchor { x, y, z } => {
            match lin_col(m.x, -(x as i128), m.y, -(y as i128), m.z, -(z as i128), m.w) {
                Some(w) => Some(Mat4 { w, ..m }),
                None => None,
            }
        },
        _ => None,
    }
}

/// Folds a whole operation list over a matrix.
pub fn fold_ops(m: Mat4, ops: &Vec<TransformOp>) -> (r: Option<Mat4>)
    ensures
        match r {
            Some(m2) => fold_ops_spec(m4i(m), ops@) == Some(m4i(m2)),
            None => fold_ops_spec(m4i(m), ops@) is None,
        },
{
    let mut cur = m;
    let mut i: usize = 0;
    proof {
        assert(ops@.subrange(0, ops@.len() as int) =~= ops@);
    }
    while i < ops.len()
        invariant
            i <= ops@.len(),
            fold_ops_spec(m4i(m), ops@) == fold_ops_spec(
                m4i(cur),
                ops@.subrange(i as int, ops@.len() as int),
            ),
        decreases ops@.len() - i,
    {
        proof {
            let rest = ops@.subrange(i as int, ops@.len() as int);
            assert(rest[0] == ops@[i as int]);
            assert(rest.subrange(1, rest.len() as int) =~= ops@.subrange(
                i as int + 1,
                ops@.len() as int,
            ));
        }
        match apply_op(cur, ops[i]) {
            Some(m2) => {
                cur = m2;
            },
            None => {
                return None;
            },
        }
        i = i + 1;
    }
    Some(cur)
}

} // verus!
