//! Fixed-point arithmetic for filter weights.
//!
//! Kernel values and convolution weights are integers scaled by
//! [`FIXED_ONE`]: the value `1.0` is represented as `FIXED_ONE`. This keeps
//! the whole coefficient engine in integer arithmetic, where every operation
//! has an exact specification. Intermediate kernel values are clamped to
//! [`FX_LIMIT`] in magnitude; the clamp never binds for the filter shapes in
//! use, and it gives every operation a closed range.

use vstd::prelude::*;

verus! {

/// Scale of the fixed-point representation: the value 1.0.
pub const FIXED_ONE: i64 = 0x100_0000;

/// The value 0.5 in the fixed-point representation.
pub const FIXED_HALF: i64 = 0x80_0000;

/// Magnitude limit of every intermediate fixed-point kernel value (16.0).
pub const FX_LIMIT: i64 = 0x1000_0000;

/// The constant pi in the fixed-point representation.
pub const PI_FIXED: i64 = 52707179;

/// Magnitude limit of the operands accepted by [`floor_div`].
pub const DIV_OPERAND_LIMIT: i64 = 0x1000_0000_0000_0000;

/// Clamp a value into `[-FX_LIMIT, FX_LIMIT]`.
pub open spec fn fx_clamp_spec(v: int) -> int {
    if v < -FX_LIMIT {
        -FX_LIMIT as int
    } else if v > FX_LIMIT {
        FX_LIMIT as int
    } else {
        v
    }
}

/// Fixed-point product `a * b / FIXED_ONE`, rounded toward minus infinity
/// and clamped into `[-FX_LIMIT, FX_LIMIT]`.
pub open spec fn fx_mul_spec(a: int, b: int) -> int {
    fx_clamp_spec((a * b) / (FIXED_ONE as int))
}

/// Fixed-point quotient `a * FIXED_ONE / b`, rounded toward minus infinity
/// and clamped into `[-FX_LIMIT, FX_LIMIT]`.
pub open spec fn fx_div_spec(a: int, b: int) -> int {
    fx_clamp_spec((a * FIXED_ONE) / b)
}

/// Floor division by a positive divisor. In the mathematical integers,
/// `a / b` with `b > 0` is exactly the floor of the rational quotient.
pub fn floor_div(a: i64, b: i64) -> (r: i64)
    requires
        1 <= b <= DIV_OPERAND_LIMIT,
        -DIV_OPERAND_LIMIT <= a <= DIV_OPERAND_LIMIT,
    ensures
        r == a as int / b as int,
        -DIV_OPERAND_LIMIT <= r <= DIV_OPERAND_LIMIT,
{
    if a >= 0 {
        let q = (a as u64) / (b as u64);
        proof {
            let ai = a as int;
            let bi = b as int;
            vstd::arithmetic::div_mod::lemma_fundamental_div_mod(ai, bi);
            vstd::arithmetic::div_mod::lemma_mod_bound(ai, bi);
            assert(ai / bi <= ai) by (nonlinear_arith)
                requires
                    ai == bi * (ai / bi) + ai % bi,
                    0 <= ai % bi,
                    bi >= 1,
                    ai / bi >= 0,
            ;
        }
        q as i64
    } else {
        let n = (-a) as u64;
        let q = (n + (b as u64) - 1) / (b as u64);
        proof {
            let ni = n as int;
            let bi = b as int;
            let qi = (ni + bi - 1) / bi;
            let ri = (ni + bi - 1) % bi;
            vstd::arithmetic::div_mod::lemma_fundamental_div_mod(ni + bi - 1, bi);
            vstd::arithmetic::div_mod::lemma_mod_bound(ni + bi - 1, bi);
            assert(-ni == (-qi) * bi + (bi - 1 - ri) && qi <= ni) by (nonlinear_arith)
                requires
                    ni + bi - 1 == bi * qi + ri,
                    0 <= ri < bi,
                    bi >= 1,
                    ni >= 1,
                    qi >= 0,
            ;
            vstd::arithmetic::div_mod::lemma_fundamental_div_mod_converse(
                -ni,
                bi,
                -qi,
                bi - 1 - ri,
            );
        }
        -(q as i64)
    }
}

/// Clamp into `[-FX_LIMIT, FX_LIMIT]`, matching [`fx_clamp_spec`].
pub fn fx_clamp(v: i64) -> (r: i64)
    ensures
        r == fx_clamp_spec(v as int),
        -FX_LIMIT <= r <= FX_LIMIT,
{
    if v < -FX_LIMIT {
        -FX_LIMIT
    } else if v > FX_LIMIT {
        FX_LIMIT
    } else {
        v
    }
}

/// Clamp a value into `[-limit, limit]`.
pub open spec fn clamp_to_spec(v: int, limit: int) -> int {
    if v < -limit {
        -limit
    } else if v > limit {
        limit
    } else {
        v
    }
}

/// Clamp into `[-limit, limit]`, matching [`clamp_to_spec`].
pub fn clamp_to(v: i64, limit: i64) -> (r: i64)
    requires
        0 <= limit,
    ensures
        r == clamp_to_spec(v as int, limit as int),
        -limit <= r <= limit,
{
    if v < -limit {
        -limit
    } else if v > limit {
        limit
    } else {
        v
    }
}

/// Fixed-point multiplication, matching [`fx_mul_spec`].
pub fn fx_mul(a: i64, b: i64) -> (r: i64)
    requires
        -FX_LIMIT <= a <= FX_LIMIT,
        -FX_LIMIT <= b <= FX_LIMIT,
    ensures
        r == fx_mul_spec(a as int, b as int),
        -FX_LIMIT <= r <= FX_LIMIT,
{
    proof {
        assert((-DIV_OPERAND_LIMIT) <= a as int * b as int <= DIV_OPERAND_LIMIT)
            by (nonlinear_arith)
            requires
                -FX_LIMIT <= a <= FX_LIMIT,
                -FX_LIMIT <= b <= FX_LIMIT,
        ;
    }
    let p = a * b;
    let q = floor_div(p, FIXED_ONE);
    fx_clamp(q)
}

/// Fixed-point division by a positive value, matching [`fx_div_spec`].
pub fn fx_div(a: i64, b: i64) -> (r: i64)
    requires
        -FX_LIMIT <= a <= FX_LIMIT,
        1 <= b <= FX_LIMIT,
    ensures
        r == fx_div_spec(a as int, b as int),
        -FX_LIMIT <= r <= FX_LIMIT,
{
    let p = a * FIXED_ONE;
    let q = floor_div(p, b);
    fx_clamp(q)
}

} // verus!
