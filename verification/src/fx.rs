//! Fixed-point scalars.
//!
//! Every animated quantity in the model (positions, scale factors, angles,
//! opacities, times) is a signed 64-bit integer counting thousandths of a
//! unit, so `FX_ONE` stands for 1.0.  All arithmetic on these scalars is
//! exact; multiplication truncates toward zero, as the `tdiv_1000` spec
//! function states.

use vstd::prelude::*;

verus! {

/// The fixed-point representation of 1.0.
pub const FX_ONE: i64 = 1000;

/// Truncating division by 1000 (rounds toward zero).
pub open spec fn tdiv_1000(n: int) -> int {
    if n >= 0 {
        n / 1000
    } else {
        -((-n) / 1000)
    }
}

/// The exact product of two fixed-point scalars.
pub open spec fn fx_mul(a: int, b: int) -> int {
    tdiv_1000(a * b)
}

/// Whether a mathematical integer is representable as a fixed-point scalar.
pub open spec fn fx_in_range(n: int) -> bool {
    i64::MIN <= n <= i64::MAX
}

/// Clamps a scalar into the unit interval `[0, FX_ONE]`.
pub open spec fn clamp_unit_spec(v: int) -> int {
    if v < 0 {
        0
    } else if v > 1000 {
        1000
    } else {
        v
    }
}

pub fn clamp_unit(v: i64) -> (r: i64)
    ensures
        r == clamp_unit_spec(v as int),
{
    if v < 0 {
        0
    } else if v > 1000 {
        1000
    } else {
        v
    }
}

/// Multiplies two fixed-point scalars, reporting `None` when the exact
/// result does not fit the representation.
pub fn fx_mul_exec(a: i64, b: i64) -> (r: Option<i64>)
    ensures
        match r {
            Some(v) => v == fx_mul(a as int, b as int) && fx_in_range(fx_mul(a as int, b as int)),
            None => !fx_in_range(fx_mul(a as int, b as int)),
        },
{
    proof {
        assert(-0x4000_0000_0000_0000_0000_0000_0000_0000 <= (a as int) * (b as int) <= 0x4000_0000_0000_0000_0000_0000_0000_0000)
            by (nonlinear_arith)
            requires
                -0x8000_0000_0000_0000 <= a as int <= 0x7fff_ffff_ffff_ffff,
                -0x8000_0000_0000_0000 <= b as int <= 0x7fff_ffff_ffff_ffff,
        ;
    }
    let p: i128 = (a as i128) * (b as i128);
    let q: i128 = if p >= 0 {
        p / 1000
    } else {
        -((-p) / 1000)
    };
    if q >= -0x8000_0000_0000_0000i128 && q <= 0x7fff_ffff_ffff_ffffi128 {
        Some(q as i64)
    } else {
        None
    }
}

/// The local time a layer hands to a nested composition: the parent-local
/// time, shifted by the layer's start, stretched by its time scale, then
/// offset.
pub open spec fn remap_spec(t: int, start: int, scale: int, offset: int) -> int {
    tdiv_1000((t - start) * scale) + offset
}

/// Remaps a time into a nested composition's local clock, reporting `None`
/// when the exact result does not fit the representation.
pub fn remap_time(t: i64, start: i64, scale: i64, offset: i64) -> (r: Option<i64>)
    ensures
        match r {
            Some(v) => v == remap_spec(t as int, start as int, scale as int, offset as int)
                && fx_in_range(remap_spec(t as int, start as int, scale as int, offset as int)),
            None => !fx_in_range(remap_spec(t as int, start as int, scale as int, offset as int)),
        },
{
    let d: i128 = (t as i128) - (start as i128);
    proof {
        assert(-0x8000_0000_0000_0000_0000_0000_0000_0000 < d * (scale as int)
            < 0x8000_0000_0000_0000_0000_0000_0000_0000)
            by (nonlinear_arith)
            requires
                -0x1_0000_0000_0000_0000 < d < 0x1_0000_0000_0000_0000,
                -0x8000_0000_0000_0000 <= scale as int <= 0x7fff_ffff_ffff_ffff,
        ;
    }
    let p: i128 = d * (scale as i128);
    let q: i128 = if p >= 0 {
        p / 1000
    } else {
        -((-p) / 1000)
    };
    let v: i128 = q + (offset as i128);
    if v >= -0x8000_0000_0000_0000i128 && v <= 0x7fff_ffff_ffff_ffffi128 {
        Some(v as i64)
    } else {
        None
    }
}

/// Multiplies a running opacity by a (clamped) sampled opacity value.
/// Both factors lie in the unit interval, so the product always fits.
pub fn opacity_mul(o: i64, v: i64) -> (r: i64)
    requires
        0 <= o <= 1000,
    ensures
        r == fx_mul(o as int, clamp_unit_spec(v as int)),
        0 <= r <= 1000,
{
    let c: i64 = clamp_unit(v);
    proof {
        assert(0 <= (o as int) * (c as int) <= 1000000 && tdiv_1000((o as int) * (c as int)) <= 1000)
            by (nonlinear_arith)
            requires
                0 <= o <= 1000,
                0 <= c <= 1000,
        ;
    }
    let p: i64 = o * c;
    p / 1000
}

} // verus!
