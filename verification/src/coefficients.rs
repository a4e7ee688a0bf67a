//! The coefficient engine.
//!
//! For one axis of a resize — a source length, a destination length and a
//! filter — the engine computes, per destination coordinate, the window of
//! contributing source indices (a [`Bound`], the filter's support clipped to
//! the buffer edge) and a vector of normalized fixed-point weights over that
//! window. The window placement is pinned exactly by [`window_start_spec`]
//! and [`window_count_spec`]; the weights are kernel evaluations normalized
//! so that they sum to exactly [`FIXED_ONE`] ([`weights_wf`]). When a window
//! degenerates or its kernel weights sum to a non-positive value, the
//! coordinate falls back to a single unit weight at the nearest source
//! index, which keeps the normalization law unconditional.

use vstd::prelude::*;

use crate::filters::{filter_weight, filter_weight_spec, FilterType};
use crate::fixed::{clamp_to, clamp_to_spec, floor_div, FIXED_ONE, FX_LIMIT};
use crate::images::MAX_DIMENSION;

verus! {

/// Magnitude limit of one normalized weight (8.0 in fixed point).
pub const WEIGHT_LIMIT: i64 = 0x800_0000;

/// Limit of the sum of magnitudes of one window's weights (16.0).
pub const WEIGHT_ABS_SUM_LIMIT: i64 = 0x1000_0000;

/// The magnitude of a weight.
pub open spec fn abs_of(v: i64) -> int {
    if v < 0 {
        -(v as int)
    } else {
        v as int
    }
}

/// The sum of a weight sequence.
pub open spec fn seq_sum(s: Seq<i64>) -> int
    decreases s.len(),
{
    if s.len() == 0 {
        0
    } else {
        seq_sum(s.drop_last()) + s.last()
    }
}

/// The sum of the magnitudes of a weight sequence.
pub open spec fn seq_abs_sum(s: Seq<i64>) -> int
    decreases s.len(),
{
    if s.len() == 0 {
        0
    } else {
        seq_abs_sum(s.drop_last()) + abs_of(s.last())
    }
}

/// Appending a weight adds it to both sums.
pub proof fn lemma_sum_push(s: Seq<i64>, x: i64)
    ensures
        seq_sum(s.push(x)) == seq_sum(s) + x,
        seq_abs_sum(s.push(x)) == seq_abs_sum(s) + abs_of(x),
{
    assert(s.push(x).drop_last() =~= s);
}

/// One step of a prefix sum.
pub proof fn lemma_sum_take_step(s: Seq<i64>, i: int)
    requires
        0 <= i < s.len(),
    ensures
        seq_sum(s.take(i + 1)) == seq_sum(s.take(i)) + s[i],
        seq_abs_sum(s.take(i + 1)) == seq_abs_sum(s.take(i)) + abs_of(s[i]),
{
    assert(s.take(i + 1).drop_last() =~= s.take(i));
}

/// The sum of magnitudes is never negative.
pub proof fn lemma_abs_sum_nonneg(s: Seq<i64>)
    ensures
        seq_abs_sum(s) >= 0,
    decreases s.len(),
{
    if s.len() > 0 {
        lemma_abs_sum_nonneg(s.drop_last());
    }
}

/// A prefix never exceeds the whole sum of magnitudes.
pub proof fn lemma_abs_sum_take_le(s: Seq<i64>, i: int)
    requires
        0 <= i <= s.len(),
    ensures
        seq_abs_sum(s.take(i)) <= seq_abs_sum(s),
    decreases s.len() - i,
{
    if i == s.len() {
        assert(s.take(i) =~= s);
    } else {
        lemma_sum_take_step(s, i);
        lemma_abs_sum_take_le(s, i + 1);
    }
}

/// The clipped window of source indices contributing to one destination
/// coordinate.
#[derive(Clone, Copy, Debug, PartialEq, Eq, Structural)]
pub struct Bound {
    /// First contributing source index.
    pub start: usize,
    /// Number of contributing source indices.
    pub count: usize,
}

/// Bounds and normalized weights for every coordinate of one axis.
pub struct AxisCoefficients {
    /// One clipped window per destination coordinate.
    pub bounds: Vec<Bound>,
    /// One weight vector per destination coordinate, aligned to its window.
    pub weights: Vec<Vec<i64>>,
}

/// A normalized weight vector: the weights sum to exactly one, and both the
/// individual magnitudes and their total are bounded.
pub open spec fn weights_wf(ws: Seq<i64>) -> bool {
    &&& seq_sum(ws) == FIXED_ONE
    &&& seq_abs_sum(ws) <= WEIGHT_ABS_SUM_LIMIT
    &&& forall|i: int| 0 <= i < ws.len() ==> -WEIGHT_LIMIT <= #[trigger] ws[i] <= WEIGHT_LIMIT
}

/// One coordinate's window and weights: a non-empty window inside
/// `[0, src_len)` and a normalized weight vector of the window's length.
pub open spec fn coefficient_line_wf(b: Bound, ws: Seq<i64>, src_len: int) -> bool {
    &&& 1 <= b.count
    &&& b.start + b.count <= src_len
    &&& ws.len() == b.count
    &&& weights_wf(ws)
}

/// Well-formed coefficients for an axis of `dst_len` coordinates over
/// `src_len` source samples.
pub open spec fn coefficients_wf(c: AxisCoefficients, src_len: int, dst_len: int) -> bool {
    &&& c.bounds.len() == dst_len
    &&& c.weights.len() == dst_len
    &&& forall|d: int|
        0 <= d < dst_len ==> coefficient_line_wf(
            #[trigger] c.bounds@[d],
            #[trigger] c.weights@[d]@,
            src_len,
        )
}

/// The larger of the two axis lengths: the factor by which the filter's
/// support is widened when downscaling.
pub open spec fn scale_max(src_len: int, dst_len: int) -> int {
    if src_len > dst_len {
        src_len
    } else {
        dst_len
    }
}

/// Floor of the unclipped window's lower edge,
/// `(d + 1/2) * src/dst - 1/2 - radius * max(1, src/dst)`.
pub open spec fn window_left_raw(src_len: int, dst_len: int, filter: FilterType, d: int) -> int {
    ((2 * d + 1) * src_len - dst_len - filter.double_support_spec() * scale_max(src_len, dst_len))
        / (2 * dst_len)
}

/// Ceiling of the unclipped window's upper edge.
pub open spec fn window_right_raw(src_len: int, dst_len: int, filter: FilterType, d: int) -> int {
    -((-((2 * d + 1) * src_len - dst_len + filter.double_support_spec() * scale_max(
        src_len,
        dst_len,
    ))) / (2 * dst_len))
}

/// The source index nearest to destination coordinate `d`:
/// `floor((d + 1/2) * src/dst)`, clamped into `[0, src_len)`.
pub open spec fn nearest_index_spec(src_len: int, dst_len: int, d: int) -> int {
    let q = ((2 * d + 1) * src_len) / (2 * dst_len);
    if q >= src_len {
        src_len - 1
    } else {
        q
    }
}

/// First index of the clipped window for destination coordinate `d`.
pub open spec fn window_start_spec(src_len: int, dst_len: int, filter: FilterType, d: int) -> int {
    let l0 = window_left_raw(src_len, dst_len, filter, d);
    let r0 = window_right_raw(src_len, dst_len, filter, d);
    let l = if l0 < 0 {
        0
    } else {
        l0
    };
    let r = if r0 > src_len - 1 {
        src_len - 1
    } else {
        r0
    };
    if l <= r {
        l
    } else {
        nearest_index_spec(src_len, dst_len, d)
    }
}

/// Length of the clipped window for destination coordinate `d`.
pub open spec fn window_count_spec(src_len: int, dst_len: int, filter: FilterType, d: int) -> int {
    let l0 = window_left_raw(src_len, dst_len, filter, d);
    let r0 = window_right_raw(src_len, dst_len, filter, d);
    let l = if l0 < 0 {
        0
    } else {
        l0
    };
    let r = if r0 > src_len - 1 {
        src_len - 1
    } else {
        r0
    };
    if l <= r {
        r - l + 1
    } else {
        1
    }
}

/// The raw kernel weight of source index `s` for destination coordinate
/// `d`: the kernel evaluated at the fixed-point distance from the window's
/// center, divided by the support scale, and zero outside the support.
pub open spec fn raw_weight_spec(
    src_len: int,
    dst_len: int,
    filter: FilterType,
    d: int,
    s: int,
) -> int {
    let m = scale_max(src_len, dst_len);
    let t = (2 * s + 1) * dst_len - (2 * d + 1) * src_len;
    let tabs = if t < 0 {
        -t
    } else {
        t
    };
    if tabs >= filter.double_support_spec() * m {
        0
    } else {
        filter_weight_spec(
            filter,
            clamp_to_spec((t * FIXED_ONE) / (2 * m), 4 * FIXED_ONE as int),
        )
    }
}

/// Sum of the first `n` raw kernel weights of coordinate `d`'s window.
pub open spec fn raw_sum_spec(src_len: int, dst_len: int, filter: FilterType, d: int, n: int) -> int
    decreases n,
{
    if n <= 0 {
        0
    } else {
        raw_sum_spec(src_len, dst_len, filter, d, n - 1) + raw_weight_spec(
            src_len,
            dst_len,
            filter,
            d,
            window_start_spec(src_len, dst_len, filter, d) + n - 1,
        )
    }
}

/// Weight `i` of coordinate `d`'s window after dividing by the raw sum.
pub open spec fn norm_weight_spec(
    src_len: int,
    dst_len: int,
    filter: FilterType,
    d: int,
    i: int,
) -> int {
    let count = window_count_spec(src_len, dst_len, filter, d);
    let rsum = raw_sum_spec(src_len, dst_len, filter, d, count);
    clamp_to_spec(
        (raw_weight_spec(
            src_len,
            dst_len,
            filter,
            d,
            window_start_spec(src_len, dst_len, filter, d) + i,
        ) * FIXED_ONE) / rsum,
        WEIGHT_LIMIT as int,
    )
}

/// Sum of the first `n` divided weights of coordinate `d`'s window.
pub open spec fn norm_sum_spec(src_len: int, dst_len: int, filter: FilterType, d: int, n: int) -> int
    decreases n,
{
    if n <= 0 {
        0
    } else {
        norm_sum_spec(src_len, dst_len, filter, d, n - 1) + norm_weight_spec(
            src_len,
            dst_len,
            filter,
            d,
            n - 1,
        )
    }
}

/// Whether the clipped window of coordinate `d` came up empty, so that the
/// coordinate falls back to the nearest source index alone.
pub open spec fn window_degenerate(src_len: int, dst_len: int, filter: FilterType, d: int) -> bool {
    let l0 = window_left_raw(src_len, dst_len, filter, d);
    let r0 = window_right_raw(src_len, dst_len, filter, d);
    let l = if l0 < 0 {
        0
    } else {
        l0
    };
    let r = if r0 > src_len - 1 {
        src_len - 1
    } else {
        r0
    };
    l > r
}

/// Position of the nearest source index within coordinate `d`'s window:
/// where the truncation residue is repaired and where a degenerate window's
/// unit weight stands.
pub open spec fn window_center_spec(src_len: int, dst_len: int, filter: FilterType, d: int) -> int {
    let start = window_start_spec(src_len, dst_len, filter, d);
    let count = window_count_spec(src_len, dst_len, filter, d);
    let near = nearest_index_spec(src_len, dst_len, d);
    if near < start {
        0
    } else if near > start + count - 1 {
        count - 1
    } else {
        near - start
    }
}

/// A unit weight at position `j` of a window of `count` samples.
pub open spec fn delta_seq(count: int, j: int) -> Seq<i64> {
    Seq::new(
        count as nat,
        |i: int|
            if i == j {
                FIXED_ONE
            } else {
                0i64
            },
    )
}

/// The weight vector of coordinate `d`: the kernel weights over the window,
/// divided by their sum, with the truncation residue repaired at the
/// window's center — and a unit weight at the nearest index whenever that
/// pipeline degenerates (non-positive raw sum, or a result that fails the
/// normalization check).
pub open spec fn line_weights_spec(
    src_len: int,
    dst_len: int,
    filter: FilterType,
    d: int,
) -> Seq<i64> {
    let count = window_count_spec(src_len, dst_len, filter, d);
    let center = window_center_spec(src_len, dst_len, filter, d);
    let rsum = raw_sum_spec(src_len, dst_len, filter, d, count);
    if window_degenerate(src_len, dst_len, filter, d) {
        delta_seq(1, 0)
    } else if rsum <= 0 {
        delta_seq(count, center)
    } else {
        let base = Seq::new(
            count as nat,
            |i: int| norm_weight_spec(src_len, dst_len, filter, d, i) as i64,
        );
        let diff = FIXED_ONE - norm_sum_spec(src_len, dst_len, filter, d, count);
        let adjusted = norm_weight_spec(src_len, dst_len, filter, d, center) + diff;
        let cand = if -WEIGHT_LIMIT <= adjusted && adjusted <= WEIGHT_LIMIT {
            base.update(center, adjusted as i64)
        } else {
            base
        };
        if weights_wf(cand) {
            cand
        } else {
            delta_seq(count, center)
        }
    }
}

/// Every weight vector is exactly what the engine's normalization pipeline
/// produces for its window.
pub open spec fn coefficients_weights_exact(
    c: AxisCoefficients,
    src_len: int,
    dst_len: int,
    filter: FilterType,
) -> bool {
    forall|d: int|
        0 <= d < dst_len ==> (#[trigger] c.weights@[d])@ == line_weights_spec(
            src_len,
            dst_len,
            filter,
            d,
        )
}

/// Every window stands exactly where the engine's placement formula puts it.
pub open spec fn coefficients_windows_exact(
    c: AxisCoefficients,
    src_len: int,
    dst_len: int,
    filter: FilterType,
) -> bool {
    forall|d: int|
        0 <= d < dst_len ==> (#[trigger] c.bounds@[d]).start == window_start_spec(
            src_len,
            dst_len,
            filter,
            d,
        ) && c.bounds@[d].count == window_count_spec(src_len, dst_len, filter, d)
}

/// Law: every destination coordinate's normalized weight vector sums to
/// exactly one in the fixed-point representation.
pub proof fn lemma_coefficient_normalization(
    c: AxisCoefficients,
    src_len: int,
    dst_len: int,
    d: int,
)
    requires
        coefficients_wf(c, src_len, dst_len),
        0 <= d < dst_len,
    ensures
        seq_sum(c.weights@[d]@) == FIXED_ONE,
{
    assert(coefficient_line_wf(c.bounds@[d], c.weights@[d]@, src_len));
}

/// Law: every Bound's index range lies fully within `[0, src_len)`.
pub proof fn lemma_bound_clipping(c: AxisCoefficients, src_len: int, dst_len: int, d: int)
    requires
        coefficients_wf(c, src_len, dst_len),
        0 <= d < dst_len,
    ensures
        0 <= c.bounds@[d].start,
        c.bounds@[d].count >= 1,
        c.bounds@[d].start + c.bounds@[d].count <= src_len,
{
    assert(coefficient_line_wf(c.bounds@[d], c.weights@[d]@, src_len));
}

/// The source index nearest to destination coordinate `d`, matching
/// [`nearest_index_spec`].
pub fn nearest_index(src_len: usize, dst_len: usize, d: usize) -> (r: usize)
    requires
        1 <= src_len <= MAX_DIMENSION,
        1 <= dst_len <= MAX_DIMENSION,
        d < dst_len,
    ensures
        r == nearest_index_spec(src_len as int, dst_len as int, d as int),
        r < src_len,
{
    let sl = src_len as i64;
    let dl = dst_len as i64;
    let di = d as i64;
    proof {
        assert((2 * di + 1) * sl <= 0x2_0000_0000_0000 && 0 <= (2 * di + 1) * sl)
            by (nonlinear_arith)
            requires
                0 <= di < 0x100_0000,
                1 <= sl <= 0x100_0000,
        ;
        vstd::arithmetic::div_mod::lemma_div_pos_is_pos((2 * di + 1) * sl, 2 * dl);
    }
    let q = floor_div((2 * di + 1) * sl, 2 * dl);
    let r = if q >= sl {
        sl - 1
    } else {
        q
    };
    r as usize
}

/// Check that a weight vector is normalized, matching [`weights_wf`].
fn weights_ok(w: &Vec<i64>) -> (b: bool)
    requires
        w.len() <= MAX_DIMENSION,
    ensures
        b == weights_wf(w@),
{
    let n = w.len();
    for i in 0..n
        invariant
            n == w.len() <= MAX_DIMENSION,
            forall|j: int| 0 <= j < i ==> -WEIGHT_LIMIT <= #[trigger] w@[j] <= WEIGHT_LIMIT,
    {
        let wi = w[i];
        if wi < -WEIGHT_LIMIT || wi > WEIGHT_LIMIT {
            return false;
        }
    }
    let mut ssum: i64 = 0;
    let mut asum: i64 = 0;
    for i in 0..n
        invariant
            n == w.len() <= MAX_DIMENSION,
            forall|j: int| 0 <= j < n ==> -WEIGHT_LIMIT <= #[trigger] w@[j] <= WEIGHT_LIMIT,
            ssum == seq_sum(w@.take(i as int)),
            asum == seq_abs_sum(w@.take(i as int)),
            -(i as int) * WEIGHT_LIMIT <= ssum <= (i as int) * WEIGHT_LIMIT,
            0 <= asum <= (i as int) * WEIGHT_LIMIT,
    {
        let wi = w[i];
        proof {
            lemma_sum_take_step(w@, i as int);
        }
        ssum = ssum + wi;
        asum = asum + (if wi < 0 {
            -wi
        } else {
            wi
        });
    }
    proof {
        assert(w@.take(n as int) =~= w@);
    }
    ssum == FIXED_ONE && asum <= WEIGHT_ABS_SUM_LIMIT
}

/// A unit weight at position `j` of a window of `count` samples.
fn delta_weights(count: usize, j: usize) -> (r: Vec<i64>)
    requires
        j < count,
        count <= MAX_DIMENSION,
    ensures
        r.len() == count,
        weights_wf(r@),
        r@ == delta_seq(count as int, j as int),
{
    let mut r: Vec<i64> = Vec::new();
    let mut i: usize = 0;
    while i < count
        invariant
            i <= count,
            r.len() == i,
            j < count,
            seq_sum(r@) == if i > j {
                FIXED_ONE as int
            } else {
                0
            },
            seq_abs_sum(r@) == if i > j {
                FIXED_ONE as int
            } else {
                0
            },
            forall|t: int|
                0 <= t < i ==> #[trigger] r@[t] == (if t == j {
                    FIXED_ONE
                } else {
                    0i64
                }),
            forall|t: int| 0 <= t < i ==> -WEIGHT_LIMIT <= #[trigger] r@[t] <= WEIGHT_LIMIT,
        decreases count - i,
    {
        let v: i64 = if i == j {
            FIXED_ONE
        } else {
            0
        };
        proof {
            lemma_sum_push(r@, v);
        }
        r.push(v);
        i = i + 1;
    }
    proof {
        assert(r@ =~= delta_seq(count as int, j as int));
    }
    r
}

/// Compute the window and normalized weights of one destination coordinate.
#[verifier::loop_isolation(false)]
#[verifier::rlimit(100)]
fn compute_line(src_len: usize, dst_len: usize, filter: FilterType, d: usize) -> (r: (
    Bound,
    Vec<i64>,
))
    requires
        1 <= src_len <= MAX_DIMENSION,
        1 <= dst_len <= MAX_DIMENSION,
        d < dst_len,
    ensures
        coefficient_line_wf(r.0, r.1@, src_len as int),
        r.0.start == window_start_spec(src_len as int, dst_len as int, filter, d as int),
        r.0.count == window_count_spec(src_len as int, dst_len as int, filter, d as int),
        r.1@ == line_weights_spec(src_len as int, dst_len as int, filter, d as int),
{
    let sl = src_len as i64;
    let dl = dst_len as i64;
    let m = if sl > dl {
        sl
    } else {
        dl
    };
    let rn = filter.double_support();
    let d2 = 2 * dl;
    {
        let di = d as i64;
        proof {
            assert((2 * di + 1) * sl <= 0x2_0000_0000_0000 && 0 <= (2 * di + 1) * sl && rn * m
                <= 0x600_0000_0)
                by (nonlinear_arith)
                requires
                    0 <= di < 0x100_0000,
                    1 <= sl <= 0x100_0000,
                    1 <= m <= 0x100_0000,
                    1 <= rn <= 6,
            ;
        }
        let center_num = (2 * di + 1) * sl - dl;
        let spread = rn * m;
        let l0 = floor_div(center_num - spread, d2);
        let r0 = -floor_div(-(center_num + spread), d2);
        let l = if l0 < 0 {
            0
        } else {
            l0
        };
        let r = if r0 > sl - 1 {
            sl - 1
        } else {
            r0
        };
        proof {
            assert(l0 == window_left_raw(src_len as int, dst_len as int, filter, d as int));
            assert(r0 == window_right_raw(src_len as int, dst_len as int, filter, d as int));
        }
        if l > r {
            let n = nearest_index(src_len, dst_len, d);
            let ws = delta_weights(1, 0);
            proof {
                assert(window_degenerate(src_len as int, dst_len as int, filter, d as int));
                assert(ws@ == line_weights_spec(src_len as int, dst_len as int, filter, d as int));
            }
            return (Bound { start: n, count: 1 }, ws);
        } else {
            let start = l as usize;
            let count = (r - l + 1) as usize;
            let near = nearest_index(src_len, dst_len, d);
            let center = if near < start {
                0
            } else if near > start + (count - 1) {
                count - 1
            } else {
                near - start
            };
            proof {
                assert(!window_degenerate(src_len as int, dst_len as int, filter, d as int));
                assert(start == window_start_spec(src_len as int, dst_len as int, filter, d as int));
                assert(count == window_count_spec(src_len as int, dst_len as int, filter, d as int));
                assert(center == window_center_spec(
                    src_len as int,
                    dst_len as int,
                    filter,
                    d as int,
                ));
            }
            // Raw kernel weights over the window.
            let mut raw: Vec<i64> = Vec::new();
            let mut rsum: i64 = 0;
            let mut i: usize = 0;
            while i < count
                invariant
                    i <= count,
                    raw.len() == i,
                    count <= MAX_DIMENSION,
                    l == start as i64,
                    l + count as i64 <= sl <= 0x100_0000,
                    0 <= spread <= 0x6000_0000,
                    1 <= dl <= 0x100_0000,
                    0 <= di < 0x100_0000,
                    1 <= m <= 0x100_0000,
                    1 <= rn <= 6,
                    0 <= l,
                    rsum == seq_sum(raw@),
                    rsum == raw_sum_spec(src_len as int, dst_len as int, filter, d as int, i as int),
                    -(i as int) * FX_LIMIT <= rsum <= (i as int) * FX_LIMIT,
                    forall|t: int| 0 <= t < i ==> -FX_LIMIT <= #[trigger] raw@[t] <= FX_LIMIT,
                    forall|t: int|
                        0 <= t < i ==> #[trigger] raw@[t] == raw_weight_spec(
                            src_len as int,
                            dst_len as int,
                            filter,
                            d as int,
                            l + t,
                        ),
                decreases count - i,
            {
                let s_idx = l + i as i64;
                proof {
                    assert((2 * s_idx + 1) * dl <= 0x2_0000_0000_0000 && -0x2_0000_0000_0000 <= (2
                        * di + 1) * sl <= 0x2_0000_0000_0000 && 0 <= (2 * s_idx + 1) * dl)
                        by (nonlinear_arith)
                        requires
                            0 <= s_idx < 0x100_0000,
                            0 <= di < 0x100_0000,
                            1 <= sl <= 0x100_0000,
                            1 <= dl <= 0x100_0000,
                    ;
                }
                let t = (2 * s_idx + 1) * dl - (2 * di + 1) * sl;
                let tabs = if t < 0 {
                    -t
                } else {
                    t
                };
                let w: i64 = if tabs >= spread {
                    0
                } else {
                    let x = clamp_to(floor_div(t * FIXED_ONE, 2 * m), 4 * FIXED_ONE);
                    filter_weight(filter, x)
                };
                proof {
                    lemma_sum_push(raw@, w);
                    assert(w == raw_weight_spec(
                        src_len as int,
                        dst_len as int,
                        filter,
                        d as int,
                        l + i as int,
                    ));
                }
                raw.push(w);
                rsum = rsum + w;
                i = i + 1;
            }
            if rsum <= 0 {
                let ws = delta_weights(count, center);
                proof {
                    assert(ws@ == line_weights_spec(
                        src_len as int,
                        dst_len as int,
                        filter,
                        d as int,
                    ));
                }
                return (Bound { start, count }, ws);
            } else {
                // Normalize: divide by the raw sum, then repair the
                // truncation residue at the nearest index.
                let mut norm: Vec<i64> = Vec::new();
                let mut tsum: i64 = 0;
                let mut i2: usize = 0;
                while i2 < count
                    invariant
                        i2 <= count,
                        norm.len() == i2,
                        count <= MAX_DIMENSION,
                        raw.len() == count,
                        1 <= rsum <= (count as int) * FX_LIMIT,
                        forall|t: int| 0 <= t < count ==> -FX_LIMIT <= #[trigger] raw@[t] <= FX_LIMIT,
                        tsum == seq_sum(norm@),
                        tsum == norm_sum_spec(
                            src_len as int,
                            dst_len as int,
                            filter,
                            d as int,
                            i2 as int,
                        ),
                        -(i2 as int) * WEIGHT_LIMIT <= tsum <= (i2 as int) * WEIGHT_LIMIT,
                        forall|t: int|
                            0 <= t < i2 ==> -WEIGHT_LIMIT <= #[trigger] norm@[t] <= WEIGHT_LIMIT,
                        forall|t: int|
                            0 <= t < i2 ==> #[trigger] norm@[t] == norm_weight_spec(
                                src_len as int,
                                dst_len as int,
                                filter,
                                d as int,
                                t,
                            ),
                    decreases count - i2,
                {
                    let q = floor_div(raw[i2] * FIXED_ONE, rsum);
                    let n = clamp_to(q, WEIGHT_LIMIT);
                    proof {
                        lemma_sum_push(norm@, n);
                        assert(n == norm_weight_spec(
                            src_len as int,
                            dst_len as int,
                            filter,
                            d as int,
                            i2 as int,
                        ));
                    }
                    norm.push(n);
                    tsum = tsum + n;
                    i2 = i2 + 1;
                }
                let ghost base = Seq::new(
                    count as nat,
                    |t: int|
                        norm_weight_spec(
                            src_len as int,
                            dst_len as int,
                            filter,
                            d as int,
                            t,
                        ) as i64,
                );
                proof {
                    assert(norm@ =~= base);
                }
                let diff = FIXED_ONE - tsum;
                let adjusted = norm[center] + diff;
                if -WEIGHT_LIMIT <= adjusted && adjusted <= WEIGHT_LIMIT {
                    norm.set(center, adjusted);
                    proof {
                        assert(norm@ =~= base.update(center as int, adjusted));
                    }
                }
                let ws = if weights_ok(&norm) {
                    norm
                } else {
                    delta_weights(count, center)
                };
                proof {
                    assert(ws@ == line_weights_spec(
                        src_len as int,
                        dst_len as int,
                        filter,
                        d as int,
                    ));
                }
                return (Bound { start, count }, ws);
            }
        }
    }
}

/// Compute the bounds and normalized weights for one axis: `dst_len`
/// windows over `src_len` source samples, using `filter`'s kernel. The
/// windows stand exactly where [`window_start_spec`] and
/// [`window_count_spec`] put them, and every weight vector is exactly what
/// the normalization pipeline ([`line_weights_spec`]) produces.
pub fn compute_coefficients(src_len: usize, dst_len: usize, filter: FilterType) -> (c:
    AxisCoefficients)
    requires
        1 <= src_len <= MAX_DIMENSION,
        1 <= dst_len <= MAX_DIMENSION,
    ensures
        coefficients_wf(c, src_len as int, dst_len as int),
        coefficients_windows_exact(c, src_len as int, dst_len as int, filter),
        coefficients_weights_exact(c, src_len as int, dst_len as int, filter),
{
    let mut bounds: Vec<Bound> = Vec::new();
    let mut weights: Vec<Vec<i64>> = Vec::new();
    for d in 0..dst_len
        invariant
            1 <= src_len <= MAX_DIMENSION,
            1 <= dst_len <= MAX_DIMENSION,
            bounds.len() == d,
            weights.len() == d,
            forall|j: int|
                0 <= j < d ==> coefficient_line_wf(
                    #[trigger] bounds@[j],
                    #[trigger] weights@[j]@,
                    src_len as int,
                ),
            forall|j: int|
                0 <= j < d ==> (#[trigger] bounds@[j]).start == window_start_spec(
                    src_len as int,
                    dst_len as int,
                    filter,
                    j,
                ) && bounds@[j].count == window_count_spec(src_len as int, dst_len as int, filter, j),
            forall|j: int|
                0 <= j < d ==> (#[trigger] weights@[j])@ == line_weights_spec(
                    src_len as int,
                    dst_len as int,
                    filter,
                    j,
                ),
    {
        let (b, ws) = compute_line(src_len, dst_len, filter, d);
        bounds.push(b);
        weights.push(ws);
    }
    AxisCoefficients { bounds, weights }
}

} // verus!
