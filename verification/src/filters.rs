//! The filter kernel library.
//!
//! Each [`FilterType`] names one even kernel function together with a
//! support radius: beyond the radius the kernel's weight is zero. Kernels
//! are evaluated in the fixed-point representation of [`crate::fixed`], and
//! every kernel has an exact specification ([`filter_weight_spec`]) that the
//! executable evaluation provably matches. The trigonometric kernels use a
//! polynomial approximation of the sine, exact as a fixed-point program.
//!
//! Radii are carried as `double_support`, twice the radius, so that the box
//! filter's half-pixel radius stays in integers.

use vstd::prelude::*;

use crate::fixed::{
    clamp_to,
    clamp_to_spec,
    floor_div,
    fx_clamp,
    fx_clamp_spec,
    fx_div,
    fx_div_spec,
    fx_mul,
    fx_mul_spec,
    FIXED_HALF,
    FIXED_ONE,
    FX_LIMIT,
    PI_FIXED,
};

verus! {

/// Magnitude bound kept for the sine approximation's output.
pub const SIN_BOUND: i64 = 0x600_0000;

/// The closed set of convolution filters.
#[derive(Clone, Copy, Debug, PartialEq, Eq, Structural)]
pub enum FilterType {
    /// Averaging box kernel, radius one half.
    BoxFilter,
    /// Triangle kernel (linear interpolation), radius one.
    Bilinear,
    /// Hamming-windowed sinc kernel, radius one.
    Hamming,
    /// Catmull-Rom cubic kernel, radius two.
    CatmullRom,
    /// Mitchell-Netravali cubic kernel, radius two.
    Mitchell,
    /// Lanczos windowed-sinc kernel, radius three.
    Lanczos3,
}

impl FilterType {
    /// Twice the support radius, in source-pixel units.
    pub open spec fn double_support_spec(self) -> i64 {
        match self {
            FilterType::BoxFilter => 1,
            FilterType::Bilinear => 2,
            FilterType::Hamming => 2,
            FilterType::CatmullRom => 4,
            FilterType::Mitchell => 4,
            FilterType::Lanczos3 => 6,
        }
    }

    /// Twice the support radius, in source-pixel units.
    #[verifier::when_used_as_spec(double_support_spec)]
    pub fn double_support(self) -> (r: i64)
        ensures
            r == self.double_support_spec(),
            1 <= r <= 6,
    {
        match self {
            FilterType::BoxFilter => 1,
            FilterType::Bilinear => 2,
            FilterType::Hamming => 2,
            FilterType::CatmullRom => 4,
            FilterType::Mitchell => 4,
            FilterType::Lanczos3 => 6,
        }
    }
}

/// Odd polynomial approximation of `sin(s)` for `s` in `[0, pi/2]`,
/// in fixed point, clamped to [`SIN_BOUND`].
pub open spec fn sin_poly_spec(s: int) -> int {
    let t = fx_mul_spec(s, s);
    let a4 = FIXED_ONE - t / 72;
    let a3 = FIXED_ONE - fx_mul_spec(t, a4) / 42;
    let a2 = FIXED_ONE - fx_mul_spec(t, a3) / 20;
    let a1 = FIXED_ONE - fx_mul_spec(t, a2) / 6;
    clamp_to_spec(fx_mul_spec(s, a1), SIN_BOUND as int)
}

/// `sin(pi * y)` for a non-negative fixed-point `y`, by range reduction to
/// a quarter period and the polynomial [`sin_poly_spec`].
pub open spec fn sinpi_spec(y: int) -> int {
    let k = y / (FIXED_ONE as int);
    let f = y % (FIXED_ONE as int);
    let u = if f > FIXED_HALF {
        FIXED_ONE - f
    } else {
        f
    };
    let m = sin_poly_spec(fx_mul_spec(PI_FIXED as int, u));
    if k % 2 == 1 {
        -m
    } else {
        m
    }
}

/// `sin(pi * y) / (pi * y)` for a positive fixed-point `y`.
pub open spec fn sinc_spec(y: int) -> int {
    let p = fx_mul_spec(PI_FIXED as int, y);
    if p <= 0 {
        FIXED_ONE as int
    } else {
        fx_div_spec(sinpi_spec(y), p)
    }
}

/// The kernel weight of `filter` at fixed-point offset `x`. Every kernel is
/// an even function of `x` and zero outside its support radius.
pub open spec fn filter_weight_spec(filter: FilterType, x: int) -> int {
    let y = if x < 0 {
        -x
    } else {
        x
    };
    match filter {
        FilterType::BoxFilter => if y <= FIXED_HALF {
            FIXED_ONE as int
        } else {
            0
        },
        FilterType::Bilinear => if y < FIXED_ONE {
            FIXED_ONE - y
        } else {
            0
        },
        FilterType::Hamming => if y == 0 {
            FIXED_ONE as int
        } else if y >= FIXED_ONE {
            0
        } else {
            let window = clamp_to_spec(
                9059696 + fx_mul_spec(7717519, sinpi_spec(y + FIXED_HALF)),
                FX_LIMIT as int,
            );
            fx_mul_spec(window, sinc_spec(y))
        },
        FilterType::CatmullRom => {
            let y2 = fx_mul_spec(y, y);
            let y3 = fx_mul_spec(y2, y);
            if y < FIXED_ONE {
                fx_clamp_spec((3 * y3 - 5 * y2 + 2 * FIXED_ONE) / 2)
            } else if y < 2 * FIXED_ONE {
                fx_clamp_spec((-y3 + 5 * y2 - 8 * y + 4 * FIXED_ONE) / 2)
            } else {
                0
            }
        },
        FilterType::Mitchell => {
            let y2 = fx_mul_spec(y, y);
            let y3 = fx_mul_spec(y2, y);
            if y < FIXED_ONE {
                fx_clamp_spec((21 * y3 - 36 * y2 + 16 * FIXED_ONE) / 18)
            } else if y < 2 * FIXED_ONE {
                fx_clamp_spec((-7 * y3 + 36 * y2 - 60 * y + 32 * FIXED_ONE) / 18)
            } else {
                0
            }
        },
        FilterType::Lanczos3 => if y == 0 {
            FIXED_ONE as int
        } else if y >= 3 * FIXED_ONE {
            0
        } else {
            fx_mul_spec(sinc_spec(y), sinc_spec(y / 3))
        },
    }
}

/// Law: every kernel is an even function of the offset.
pub proof fn lemma_kernel_even(filter: FilterType, x: int)
    ensures
        filter_weight_spec(filter, x) == filter_weight_spec(filter, -x),
{
}

/// Law: every kernel is zero beyond its support radius.
pub proof fn lemma_kernel_zero_outside_support(filter: FilterType, x: int)
    requires
        2 * (if x < 0 {
            -x
        } else {
            x
        }) > filter.double_support_spec() * FIXED_ONE,
    ensures
        filter_weight_spec(filter, x) == 0,
{
}

/// Law: every interpolating kernel has weight one at its center. The
/// Mitchell-Netravali kernel is a smoothing kernel, not an interpolating
/// one: its center weight is below one by design.
pub proof fn lemma_kernel_unit_at_center(filter: FilterType)
    requires
        filter != FilterType::Mitchell,
    ensures
        filter_weight_spec(filter, 0) == FIXED_ONE,
{
}

/// Evaluate the sine polynomial, matching [`sin_poly_spec`].
fn sin_poly(s: i64) -> (r: i64)
    requires
        -FX_LIMIT <= s <= FX_LIMIT,
    ensures
        r == sin_poly_spec(s as int),
        -SIN_BOUND <= r <= SIN_BOUND,
{
    let t = fx_mul(s, s);
    let a4 = FIXED_ONE - floor_div(t, 72);
    let a3 = FIXED_ONE - floor_div(fx_mul(t, a4), 42);
    let a2 = FIXED_ONE - floor_div(fx_mul(t, a3), 20);
    let a1 = FIXED_ONE - floor_div(fx_mul(t, a2), 6);
    clamp_to(fx_mul(s, a1), SIN_BOUND)
}

/// Evaluate `sin(pi * y)`, matching [`sinpi_spec`].
fn sinpi(y: i64) -> (r: i64)
    requires
        0 <= y <= 8 * FIXED_ONE,
    ensures
        r == sinpi_spec(y as int),
        -SIN_BOUND <= r <= SIN_BOUND,
{
    let k = (y as u64) / (FIXED_ONE as u64);
    let f = ((y as u64) % (FIXED_ONE as u64)) as i64;
    let u = if f > FIXED_HALF {
        FIXED_ONE - f
    } else {
        f
    };
    let s = fx_mul(PI_FIXED, u);
    let m = sin_poly(s);
    if (k % 2) == 1 {
        -m
    } else {
        m
    }
}

/// Evaluate `sin(pi * y) / (pi * y)`, matching [`sinc_spec`].
fn sinc(y: i64) -> (r: i64)
    requires
        0 <= y <= 8 * FIXED_ONE,
    ensures
        r == sinc_spec(y as int),
        -FX_LIMIT <= r <= FX_LIMIT,
{
    let p = fx_mul(PI_FIXED, y);
    if p <= 0 {
        FIXED_ONE
    } else {
        fx_div(sinpi(y), p)
    }
}

/// Evaluate the kernel weight of `filter` at fixed-point offset `x`,
/// matching [`filter_weight_spec`] exactly.
pub fn filter_weight(filter: FilterType, x: i64) -> (r: i64)
    requires
        -4 * FIXED_ONE <= x <= 4 * FIXED_ONE,
    ensures
        r == filter_weight_spec(filter, x as int),
        -FX_LIMIT <= r <= FX_LIMIT,
{
    let y = if x < 0 {
        -x
    } else {
        x
    };
    match filter {
        FilterType::BoxFilter => if y <= FIXED_HALF {
            FIXED_ONE
        } else {
            0
        },
        FilterType::Bilinear => if y < FIXED_ONE {
            FIXED_ONE - y
        } else {
            0
        },
        FilterType::Hamming => if y == 0 {
            FIXED_ONE
        } else if y >= FIXED_ONE {
            0
        } else {
            let window = clamp_to(9059696 + fx_mul(7717519, sinpi(y + FIXED_HALF)), FX_LIMIT);
            fx_mul(window, sinc(y))
        },
        FilterType::CatmullRom => {
            let y2 = fx_mul(y, y);
            let y3 = fx_mul(y2, y);
            if y < FIXED_ONE {
                fx_clamp(floor_div(3 * y3 - 5 * y2 + 2 * FIXED_ONE, 2))
            } else if y < 2 * FIXED_ONE {
                fx_clamp(floor_div(-y3 + 5 * y2 - 8 * y + 4 * FIXED_ONE, 2))
            } else {
                0
            }
        },
        FilterType::Mitchell => {
            let y2 = fx_mul(y, y);
            let y3 = fx_mul(y2, y);
            if y < FIXED_ONE {
                fx_clamp(floor_div(21 * y3 - 36 * y2 + 16 * FIXED_ONE, 18))
            } else if y < 2 * FIXED_ONE {
                fx_clamp(floor_div(-7 * y3 + 36 * y2 - 60 * y + 32 * FIXED_ONE, 18))
            } else {
                0
            }
        },
        FilterType::Lanczos3 => if y == 0 {
            FIXED_ONE
        } else if y >= 3 * FIXED_ONE {
            0
        } else {
            let a = sinc(y);
            let b = sinc(floor_div(y, 3));
            fx_mul(a, b)
        },
    }
}

} // verus!
