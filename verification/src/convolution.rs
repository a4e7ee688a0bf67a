//! The convolution executor.
//!
//! A resize applies one axis' coefficients to every row (horizontal pass)
//! and the other axis' coefficients to every column (vertical pass). Each
//! output channel is the weighted sum of the window's source channels,
//! rounded from fixed point and clamped into the channel's representable
//! range — [`row_pass_post`] and [`col_pass_post`] pin every output channel
//! to exactly that value.
//!
//! The executor is implemented once per execution backend: a scalar loop,
//! and a batched loop that processes two destination pixels per iteration
//! the way the vector backends pack their registers. Both satisfy the same
//! exact contract, so every [`CpuExtensions`] value yields the same bytes
//! ([`lemma_row_backend_equivalence`], [`lemma_col_backend_equivalence`]).

use vstd::prelude::*;

use crate::coefficients::{
    abs_of,
    coefficient_line_wf,
    coefficients_wf,
    seq_abs_sum,
    lemma_abs_sum_take_le,
    lemma_abs_sum_nonneg,
    lemma_sum_take_step,
    AxisCoefficients,
    Bound,
    WEIGHT_ABS_SUM_LIMIT,
    WEIGHT_LIMIT,
};
use crate::cpu::CpuExtensions;
use crate::fixed::{floor_div, FIXED_HALF, FIXED_ONE};
use crate::images::MAX_DIMENSION;
use crate::pixels::{
    channel_at,
    lemma_channel_offset_in_bounds,
    lemma_write_preserves_channels,
    read_channel,
    write_channel,
    PixelType,
};

verus! {

/// Magnitude bound of any channel value.
pub const CHANNEL_MAGNITUDE: i64 = 0x8000_0000;

/// Weighted sum of the window's channels along a row: weights `ws` applied
/// to channels `start..start + ws.len()` of row `y`, channel `c`.
pub open spec fn weighted_row_sum(
    src: Seq<u8>,
    pt: PixelType,
    src_w: int,
    y: int,
    c: int,
    start: int,
    ws: Seq<i64>,
) -> int
    decreases ws.len(),
{
    if ws.len() == 0 {
        0
    } else {
        weighted_row_sum(src, pt, src_w, y, c, start, ws.drop_last()) + ws.last() * channel_at(
            pt,
            src,
            src_w,
            start + ws.len() - 1,
            y,
            c,
        )
    }
}

/// Weighted sum of the window's channels along a column: weights `ws`
/// applied to channels of rows `start..start + ws.len()` at column `x`.
pub open spec fn weighted_col_sum(
    src: Seq<u8>,
    pt: PixelType,
    width: int,
    x: int,
    c: int,
    start: int,
    ws: Seq<i64>,
) -> int
    decreases ws.len(),
{
    if ws.len() == 0 {
        0
    } else {
        weighted_col_sum(src, pt, width, x, c, start, ws.drop_last()) + ws.last() * channel_at(
            pt,
            src,
            width,
            x,
            start + ws.len() - 1,
            c,
        )
    }
}

/// Round a fixed-point accumulator to the nearest integer (half up).
pub open spec fn round_fixed(acc: int) -> int {
    (acc + FIXED_HALF) / (FIXED_ONE as int)
}

/// Clamp a value into the channel's representable range.
pub open spec fn clamp_channel(pt: PixelType, v: int) -> int {
    if v < pt.channel_min_spec() {
        pt.channel_min_spec() as int
    } else if v > pt.channel_max_spec() {
        pt.channel_max_spec() as int
    } else {
        v
    }
}

/// The horizontal pass' contract: `out` is `dst_w x rows` and every output
/// channel is the clamped, rounded weighted sum of its window's source
/// channels in the same row.
pub open spec fn row_pass_post(
    src: Seq<u8>,
    out: Seq<u8>,
    pt: PixelType,
    src_w: int,
    rows: int,
    dst_w: int,
    c: AxisCoefficients,
) -> bool {
    &&& out.len() == dst_w * rows * pt.pixel_size_spec()
    &&& forall|x: int, y: int, ch: int|
        0 <= x < dst_w && 0 <= y < rows && 0 <= ch < pt.channel_count_spec() ==> channel_at(
            pt,
            out,
            dst_w,
            x,
            y,
            ch,
        ) == clamp_channel(
            pt,
            round_fixed(
                weighted_row_sum(src, pt, src_w, y, ch, c.bounds@[x].start as int, c.weights@[x]@),
            ),
        )
}

/// The vertical pass' contract: `out` is `width x dst_h` and every output
/// channel is the clamped, rounded weighted sum of its window's source
/// channels in the same column.
pub open spec fn col_pass_post(
    src: Seq<u8>,
    out: Seq<u8>,
    pt: PixelType,
    width: int,
    src_h: int,
    dst_h: int,
    c: AxisCoefficients,
) -> bool {
    &&& out.len() == width * dst_h * pt.pixel_size_spec()
    &&& forall|x: int, y: int, ch: int|
        0 <= x < width && 0 <= y < dst_h && 0 <= ch < pt.channel_count_spec() ==> channel_at(
            pt,
            out,
            width,
            x,
            y,
            ch,
        ) == clamp_channel(
            pt,
            round_fixed(
                weighted_col_sum(src, pt, width, x, ch, c.bounds@[y].start as int, c.weights@[y]@),
            ),
        )
}

/// Law (backend equivalence, horizontal): two outputs that satisfy the
/// horizontal pass' contract for the same source and coefficients agree on
/// every channel of every pixel. The contract does not mention the CPU
/// capability, so any two backends' outputs are interchangeable.
pub proof fn lemma_row_backend_equivalence(
    src: Seq<u8>,
    out1: Seq<u8>,
    out2: Seq<u8>,
    pt: PixelType,
    src_w: int,
    rows: int,
    dst_w: int,
    c: AxisCoefficients,
)
    requires
        row_pass_post(src, out1, pt, src_w, rows, dst_w, c),
        row_pass_post(src, out2, pt, src_w, rows, dst_w, c),
    ensures
        out1.len() == out2.len(),
        forall|x: int, y: int, ch: int|
            0 <= x < dst_w && 0 <= y < rows && 0 <= ch < pt.channel_count_spec() ==> channel_at(
                pt,
                out1,
                dst_w,
                x,
                y,
                ch,
            ) == channel_at(pt, out2, dst_w, x, y, ch),
{
}

/// Law (backend equivalence, vertical): the vertical counterpart of
/// [`lemma_row_backend_equivalence`].
pub proof fn lemma_col_backend_equivalence(
    src: Seq<u8>,
    out1: Seq<u8>,
    out2: Seq<u8>,
    pt: PixelType,
    width: int,
    src_h: int,
    dst_h: int,
    c: AxisCoefficients,
)
    requires
        col_pass_post(src, out1, pt, width, src_h, dst_h, c),
        col_pass_post(src, out2, pt, width, src_h, dst_h, c),
    ensures
        out1.len() == out2.len(),
        forall|x: int, y: int, ch: int|
            0 <= x < width && 0 <= y < dst_h && 0 <= ch < pt.channel_count_spec() ==> channel_at(
                pt,
                out1,
                width,
                x,
                y,
                ch,
            ) == channel_at(pt, out2, width, x, y, ch),
{
}

/// A weighted column sum depends on its source only through the channel
/// values it reads.
pub proof fn lemma_col_sum_agrees(
    m1: Seq<u8>,
    m2: Seq<u8>,
    pt: PixelType,
    width: int,
    x: int,
    c: int,
    start: int,
    ws: Seq<i64>,
)
    requires
        forall|yy: int|
            start <= yy < start + ws.len() ==> channel_at(pt, m1, width, x, yy, c) == channel_at(
                pt,
                m2,
                width,
                x,
                yy,
                c,
            ),
    ensures
        weighted_col_sum(m1, pt, width, x, c, start, ws) == weighted_col_sum(
            m2,
            pt,
            width,
            x,
            c,
            start,
            ws,
        ),
    decreases ws.len(),
{
    if ws.len() > 0 {
        lemma_col_sum_agrees(m1, m2, pt, width, x, c, start, ws.drop_last());
    }
}

/// One step of a weighted row sum over a prefix of the weights.
proof fn lemma_row_sum_take_step(
    src: Seq<u8>,
    pt: PixelType,
    src_w: int,
    y: int,
    c: int,
    start: int,
    ws: Seq<i64>,
    i: int,
)
    requires
        0 <= i < ws.len(),
    ensures
        weighted_row_sum(src, pt, src_w, y, c, start, ws.take(i + 1)) == weighted_row_sum(
            src,
            pt,
            src_w,
            y,
            c,
            start,
            ws.take(i),
        ) + ws[i] * channel_at(pt, src, src_w, start + i, y, c),
{
    assert(ws.take(i + 1).drop_last() =~= ws.take(i));
}

/// One step of a weighted column sum over a prefix of the weights.
proof fn lemma_col_sum_take_step(
    src: Seq<u8>,
    pt: PixelType,
    width: int,
    x: int,
    c: int,
    start: int,
    ws: Seq<i64>,
    i: int,
)
    requires
        0 <= i < ws.len(),
    ensures
        weighted_col_sum(src, pt, width, x, c, start, ws.take(i + 1)) == weighted_col_sum(
            src,
            pt,
            width,
            x,
            c,
            start,
            ws.take(i),
        ) + ws[i] * channel_at(pt, src, width, x, start + i, c),
{
    assert(ws.take(i + 1).drop_last() =~= ws.take(i));
}

/// Round and clamp an accumulator, matching
/// `clamp_channel(pt, round_fixed(acc))`.
fn clamp_round(pt: PixelType, acc: i64) -> (r: i64)
    requires
        -0x800_0000_0000_0000 <= acc <= 0x800_0000_0000_0000,
    ensures
        r == clamp_channel(pt, round_fixed(acc as int)),
        pt.channel_min_spec() <= r <= pt.channel_max_spec(),
{
    let q = floor_div(acc + FIXED_HALF, FIXED_ONE);
    let mn = pt.channel_min();
    let mx = pt.channel_max();
    if q < mn {
        mn
    } else if q > mx {
        mx
    } else {
        q
    }
}

/// Accumulate one channel's weighted sum along a row.
fn accumulate_row(
    src: &Vec<u8>,
    pt: PixelType,
    src_w: usize,
    rows: usize,
    y: usize,
    c: usize,
    start: usize,
    ws: &Vec<i64>,
) -> (acc: i64)
    requires
        src.len() == src_w * rows * pt.pixel_size_spec(),
        y < rows,
        c < pt.channel_count_spec(),
        start + ws.len() <= src_w,
        1 <= ws.len(),
        seq_abs_sum(ws@) <= WEIGHT_ABS_SUM_LIMIT,
        forall|i: int| 0 <= i < ws.len() ==> -WEIGHT_LIMIT <= #[trigger] ws@[i] <= WEIGHT_LIMIT,
    ensures
        acc == weighted_row_sum(
            src@,
            pt,
            src_w as int,
            y as int,
            c as int,
            start as int,
            ws@,
        ),
        -(WEIGHT_ABS_SUM_LIMIT as int) * CHANNEL_MAGNITUDE <= acc <= (WEIGHT_ABS_SUM_LIMIT as int)
            * CHANNEL_MAGNITUDE,
{
    let n = ws.len();
    let mut acc: i64 = 0;
    proof {
        assert(ws@.take(0) =~= Seq::<i64>::empty());
    }
    for i in 0..n
        invariant
            n == ws.len(),
            src.len() == src_w * rows * pt.pixel_size_spec(),
            y < rows,
            c < pt.channel_count_spec(),
            start + n <= src_w,
            seq_abs_sum(ws@) <= WEIGHT_ABS_SUM_LIMIT,
            forall|t: int| 0 <= t < n ==> -WEIGHT_LIMIT <= #[trigger] ws@[t] <= WEIGHT_LIMIT,
            acc == weighted_row_sum(
                src@,
                pt,
                src_w as int,
                y as int,
                c as int,
                start as int,
                ws@.take(i as int),
            ),
            -seq_abs_sum(ws@.take(i as int)) * CHANNEL_MAGNITUDE <= acc <= seq_abs_sum(
                ws@.take(i as int),
            ) * CHANNEL_MAGNITUDE,
    {
        proof {
            lemma_channel_offset_in_bounds(
                pt,
                src_w as int,
                rows as int,
                (start + i) as int,
                y as int,
                c as int,
            );
        }
        let v = read_channel(src, pt, src_w, start + i, y, c);
        let w = ws[i];
        proof {
            lemma_row_sum_take_step(
                src@,
                pt,
                src_w as int,
                y as int,
                c as int,
                start as int,
                ws@,
                i as int,
            );
            lemma_sum_take_step(ws@, i as int);
            lemma_abs_sum_take_le(ws@, i as int + 1);
            lemma_abs_sum_nonneg(ws@.take(i as int));
            assert(-abs_of(w) * CHANNEL_MAGNITUDE <= w as int * v as int <= abs_of(w)
                * CHANNEL_MAGNITUDE)
                by (nonlinear_arith)
                requires
                    -CHANNEL_MAGNITUDE <= v <= CHANNEL_MAGNITUDE,
                    abs_of(w) == if w < 0 {
                        -(w as int)
                    } else {
                        w as int
                    },
            ;
            assert((seq_abs_sum(ws@.take(i as int)) + abs_of(w)) * CHANNEL_MAGNITUDE == seq_abs_sum(
                ws@.take(i as int),
            ) * CHANNEL_MAGNITUDE + abs_of(w) * CHANNEL_MAGNITUDE) by (nonlinear_arith);
            assert(seq_abs_sum(ws@.take(i as int)) * CHANNEL_MAGNITUDE <= WEIGHT_ABS_SUM_LIMIT as int
                * CHANNEL_MAGNITUDE && -(WEIGHT_ABS_SUM_LIMIT as int) * CHANNEL_MAGNITUDE
                <= -seq_abs_sum(ws@.take(i as int)) * CHANNEL_MAGNITUDE) by (nonlinear_arith)
                requires
                    0 <= seq_abs_sum(ws@.take(i as int)) + abs_of(w) <= WEIGHT_ABS_SUM_LIMIT as int,
                    0 <= abs_of(w),
            ;
        }
        acc = acc + w * v;
    }
    proof {
        assert(ws@.take(n as int) =~= ws@);
        lemma_abs_sum_nonneg(ws@);
        assert(seq_abs_sum(ws@) * CHANNEL_MAGNITUDE <= WEIGHT_ABS_SUM_LIMIT as int
            * CHANNEL_MAGNITUDE && -(WEIGHT_ABS_SUM_LIMIT as int) * CHANNEL_MAGNITUDE
            <= -seq_abs_sum(ws@) * CHANNEL_MAGNITUDE) by (nonlinear_arith)
            requires
                0 <= seq_abs_sum(ws@) <= WEIGHT_ABS_SUM_LIMIT as int,
        ;
    }
    acc
}

/// Accumulate one channel's weighted sum along a column.
fn accumulate_col(
    src: &Vec<u8>,
    pt: PixelType,
    width: usize,
    src_h: usize,
    x: usize,
    c: usize,
    start: usize,
    ws: &Vec<i64>,
) -> (acc: i64)
    requires
        src.len() == width * src_h * pt.pixel_size_spec(),
        x < width,
        c < pt.channel_count_spec(),
        start + ws.len() <= src_h,
        1 <= ws.len(),
        seq_abs_sum(ws@) <= WEIGHT_ABS_SUM_LIMIT,
        forall|i: int| 0 <= i < ws.len() ==> -WEIGHT_LIMIT <= #[trigger] ws@[i] <= WEIGHT_LIMIT,
    ensures
        acc == weighted_col_sum(
            src@,
            pt,
            width as int,
            x as int,
            c as int,
            start as int,
            ws@,
        ),
        -(WEIGHT_ABS_SUM_LIMIT as int) * CHANNEL_MAGNITUDE <= acc <= (WEIGHT_ABS_SUM_LIMIT as int)
            * CHANNEL_MAGNITUDE,
{
    let n = ws.len();
    let mut acc: i64 = 0;
    proof {
        assert(ws@.take(0) =~= Seq::<i64>::empty());
    }
    for i in 0..n
        invariant
            n == ws.len(),
            src.len() == width * src_h * pt.pixel_size_spec(),
            x < width,
            c < pt.channel_count_spec(),
            start + n <= src_h,
            seq_abs_sum(ws@) <= WEIGHT_ABS_SUM_LIMIT,
            forall|t: int| 0 <= t < n ==> -WEIGHT_LIMIT <= #[trigger] ws@[t] <= WEIGHT_LIMIT,
            acc == weighted_col_sum(
                src@,
                pt,
                width as int,
                x as int,
                c as int,
                start as int,
                ws@.take(i as int),
            ),
            -seq_abs_sum(ws@.take(i as int)) * CHANNEL_MAGNITUDE <= acc <= seq_abs_sum(
                ws@.take(i as int),
            ) * CHANNEL_MAGNITUDE,
    {
        proof {
            lemma_channel_offset_in_bounds(
                pt,
                width as int,
                src_h as int,
                x as int,
                (start + i) as int,
                c as int,
            );
        }
        let v = read_channel(src, pt, width, x, start + i, c);
        let w = ws[i];
        proof {
            lemma_col_sum_take_step(
                src@,
                pt,
                width as int,
                x as int,
                c as int,
                start as int,
                ws@,
                i as int,
            );
            lemma_sum_take_step(ws@, i as int);
            lemma_abs_sum_take_le(ws@, i as int + 1);
            lemma_abs_sum_nonneg(ws@.take(i as int));
            assert(-abs_of(w) * CHANNEL_MAGNITUDE <= w as int * v as int <= abs_of(w)
                * CHANNEL_MAGNITUDE)
                by (nonlinear_arith)
                requires
                    -CHANNEL_MAGNITUDE <= v <= CHANNEL_MAGNITUDE,
                    abs_of(w) == if w < 0 {
                        -(w as int)
                    } else {
                        w as int
                    },
            ;
            assert((seq_abs_sum(ws@.take(i as int)) + abs_of(w)) * CHANNEL_MAGNITUDE == seq_abs_sum(
                ws@.take(i as int),
            ) * CHANNEL_MAGNITUDE + abs_of(w) * CHANNEL_MAGNITUDE) by (nonlinear_arith);
            assert(seq_abs_sum(ws@.take(i as int)) * CHANNEL_MAGNITUDE <= WEIGHT_ABS_SUM_LIMIT as int
                * CHANNEL_MAGNITUDE && -(WEIGHT_ABS_SUM_LIMIT as int) * CHANNEL_MAGNITUDE
                <= -seq_abs_sum(ws@.take(i as int)) * CHANNEL_MAGNITUDE) by (nonlinear_arith)
                requires
                    0 <= seq_abs_sum(ws@.take(i as int)) + abs_of(w) <= WEIGHT_ABS_SUM_LIMIT as int,
                    0 <= abs_of(w),
            ;
        }
        acc = acc + w * v;
    }
    proof {
        assert(ws@.take(n as int) =~= ws@);
        lemma_abs_sum_nonneg(ws@);
        assert(seq_abs_sum(ws@) * CHANNEL_MAGNITUDE <= WEIGHT_ABS_SUM_LIMIT as int
            * CHANNEL_MAGNITUDE && -(WEIGHT_ABS_SUM_LIMIT as int) * CHANNEL_MAGNITUDE
            <= -seq_abs_sum(ws@) * CHANNEL_MAGNITUDE) by (nonlinear_arith)
            requires
                0 <= seq_abs_sum(ws@) <= WEIGHT_ABS_SUM_LIMIT as int,
        ;
    }
    acc
}

/// A zero-filled byte vector.
fn zero_bytes(len: usize) -> (r: Vec<u8>)
    ensures
        r.len() == len,
{
    let mut v: Vec<u8> = Vec::new();
    while v.len() < len
        invariant
            v.len() <= len,
        decreases len - v.len(),
    {
        v.push(0u8);
    }
    v
}

/// Convolve every channel of destination pixel (`x`, `y`) of the horizontal
/// pass. Other pixels' channels are untouched.
#[verifier::rlimit(60)]
fn convolve_pixel_row(
    out: &mut Vec<u8>,
    src: &Vec<u8>,
    pt: PixelType,
    src_w: usize,
    rows: usize,
    dst_w: usize,
    x: usize,
    y: usize,
    bound: Bound,
    ws: &Vec<i64>,
)
    requires
        x < dst_w,
        y < rows,
        old(out).len() == dst_w * rows * pt.pixel_size_spec(),
        src.len() == src_w * rows * pt.pixel_size_spec(),
        coefficient_line_wf(bound, ws@, src_w as int),
    ensures
        final(out).len() == old(out).len(),
        forall|ch: int|
            0 <= ch < pt.channel_count_spec() ==> channel_at(
                pt,
                final(out)@,
                dst_w as int,
                x as int,
                y as int,
                ch,
            ) == clamp_channel(
                pt,
                round_fixed(
                    weighted_row_sum(
                        src@,
                        pt,
                        src_w as int,
                        y as int,
                        ch,
                        bound.start as int,
                        ws@,
                    ),
                ),
            ),
        forall|x2: int, y2: int, c2: int|
            0 <= x2 < dst_w && 0 <= y2 < rows && 0 <= c2 < pt.channel_count_spec() && !(x2
                == x as int && y2 == y as int) ==> channel_at(
                pt,
                final(out)@,
                dst_w as int,
                x2,
                y2,
                c2,
            ) == channel_at(pt, old(out)@, dst_w as int, x2, y2, c2),
{
    let cc = pt.channel_count();
    let ghost out0 = out@;
    for c in 0..cc
        invariant
            cc == pt.channel_count_spec(),
            x < dst_w,
            y < rows,
            out.len() == dst_w * rows * pt.pixel_size_spec(),
            out.len() == out0.len(),
            src.len() == src_w * rows * pt.pixel_size_spec(),
            coefficient_line_wf(bound, ws@, src_w as int),
            forall|ch: int|
                0 <= ch < c ==> channel_at(pt, out@, dst_w as int, x as int, y as int, ch)
                    == clamp_channel(
                    pt,
                    round_fixed(
                        weighted_row_sum(
                            src@,
                            pt,
                            src_w as int,
                            y as int,
                            ch,
                            bound.start as int,
                            ws@,
                        ),
                    ),
                ),
            forall|x2: int, y2: int, c2: int|
                0 <= x2 < dst_w && 0 <= y2 < rows && 0 <= c2 < pt.channel_count_spec() && !(x2
                    == x as int && y2 == y as int) ==> channel_at(pt, out@, dst_w as int, x2, y2, c2)
                    == channel_at(pt, out0, dst_w as int, x2, y2, c2),
    {
        let acc = accumulate_row(src, pt, src_w, rows, y, c, bound.start, ws);
        let v = clamp_round(pt, acc);
        proof {
            lemma_channel_offset_in_bounds(
                pt,
                dst_w as int,
                rows as int,
                x as int,
                y as int,
                c as int,
            );
        }
        let ghost before = out@;
        write_channel(out, pt, dst_w, x, y, c, v);
        proof {
            lemma_write_preserves_channels(
                pt,
                dst_w as int,
                rows as int,
                before,
                out@,
                x as int,
                y as int,
                c as int,
            );
            assert(channel_at(pt, out@, dst_w as int, x as int, y as int, c as int) == v as int);
            assert(v as int == clamp_channel(pt, round_fixed(acc as int)));
            assert(acc as int == weighted_row_sum(
                src@,
                pt,
                src_w as int,
                y as int,
                c as int,
                bound.start as int,
                ws@,
            ));
        }
    }
}

/// Convolve every channel of destination pixel (`x`, `y`) of the vertical
/// pass. Other pixels' channels are untouched.
#[verifier::rlimit(60)]
fn convolve_pixel_col(
    out: &mut Vec<u8>,
    src: &Vec<u8>,
    pt: PixelType,
    width: usize,
    src_h: usize,
    dst_h: usize,
    x: usize,
    y: usize,
    bound: Bound,
    ws: &Vec<i64>,
)
    requires
        x < width,
        y < dst_h,
        old(out).len() == width * dst_h * pt.pixel_size_spec(),
        src.len() == width * src_h * pt.pixel_size_spec(),
        coefficient_line_wf(bound, ws@, src_h as int),
    ensures
        final(out).len() == old(out).len(),
        forall|ch: int|
            0 <= ch < pt.channel_count_spec() ==> channel_at(
                pt,
                final(out)@,
                width as int,
                x as int,
                y as int,
                ch,
            ) == clamp_channel(
                pt,
                round_fixed(
                    weighted_col_sum(
                        src@,
                        pt,
                        width as int,
                        x as int,
                        ch,
                        bound.start as int,
                        ws@,
                    ),
                ),
            ),
        forall|x2: int, y2: int, c2: int|
            0 <= x2 < width && 0 <= y2 < dst_h && 0 <= c2 < pt.channel_count_spec() && !(x2
                == x as int && y2 == y as int) ==> channel_at(
                pt,
                final(out)@,
                width as int,
                x2,
                y2,
                c2,
            ) == channel_at(pt, old(out)@, width as int, x2, y2, c2),
{
    let cc = pt.channel_count();
    let ghost out0 = out@;
    for c in 0..cc
        invariant
            cc == pt.channel_count_spec(),
            x < width,
            y < dst_h,
            out.len() == width * dst_h * pt.pixel_size_spec(),
            out.len() == out0.len(),
            src.len() == width * src_h * pt.pixel_size_spec(),
            coefficient_line_wf(bound, ws@, src_h as int),
            forall|ch: int|
                0 <= ch < c ==> channel_at(pt, out@, width as int, x as int, y as int, ch)
                    == clamp_channel(
                    pt,
                    round_fixed(
                        weighted_col_sum(
                            src@,
                            pt,
                            width as int,
                            x as int,
                            ch,
                            bound.start as int,
                            ws@,
                        ),
                    ),
                ),
            forall|x2: int, y2: int, c2: int|
                0 <= x2 < width && 0 <= y2 < dst_h && 0 <= c2 < pt.channel_count_spec() && !(x2
                    == x as int && y2 == y as int) ==> channel_at(pt, out@, width as int, x2, y2, c2)
                    == channel_at(pt, out0, width as int, x2, y2, c2),
    {
        let acc = accumulate_col(src, pt, width, src_h, x, c, bound.start, ws);
        let v = clamp_round(pt, acc);
        proof {
            lemma_channel_offset_in_bounds(
                pt,
                width as int,
                dst_h as int,
                x as int,
                y as int,
                c as int,
            );
        }
        let ghost before = out@;
        write_channel(out, pt, width, x, y, c, v);
        proof {
            lemma_write_preserves_channels(
                pt,
                width as int,
                dst_h as int,
                before,
                out@,
                x as int,
                y as int,
                c as int,
            );
            assert(channel_at(pt, out@, width as int, x as int, y as int, c as int) == v as int);
            assert(v as int == clamp_channel(pt, round_fixed(acc as int)));
            assert(acc as int == weighted_col_sum(
                src@,
                pt,
                width as int,
                x as int,
                c as int,
                bound.start as int,
                ws@,
            ));
        }
    }
}

/// The scalar backend of the horizontal pass: one destination pixel per
/// iteration.
pub fn convolve_rows_scalar(
    src: &Vec<u8>,
    pt: PixelType,
    src_w: usize,
    rows: usize,
    dst_w: usize,
    coeffs: &AxisCoefficients,
) -> (out: Vec<u8>)
    requires
        coefficients_wf(*coeffs, src_w as int, dst_w as int),
        src.len() == src_w * rows * pt.pixel_size_spec(),
        1 <= src_w <= MAX_DIMENSION,
        1 <= rows <= MAX_DIMENSION,
        1 <= dst_w <= MAX_DIMENSION,
        dst_w * rows * pt.pixel_size_spec() <= usize::MAX,
    ensures
        row_pass_post(src@, out@, pt, src_w as int, rows as int, dst_w as int, *coeffs),
{
    proof {
        assert(dst_w * rows <= dst_w * rows * pt.pixel_size_spec() && 0 <= dst_w * rows)
            by (nonlinear_arith)
            requires
                1 <= dst_w,
                1 <= rows,
                1 <= pt.pixel_size_spec(),
        ;
    }
    let total = dst_w * rows * pt.pixel_size();
    let mut out = zero_bytes(total);
    for y in 0..rows
        invariant
            coefficients_wf(*coeffs, src_w as int, dst_w as int),
            src.len() == src_w * rows * pt.pixel_size_spec(),
            1 <= src_w <= MAX_DIMENSION,
            1 <= rows <= MAX_DIMENSION,
            1 <= dst_w <= MAX_DIMENSION,
            out.len() == dst_w * rows * pt.pixel_size_spec(),
            forall|x2: int, y2: int, ch: int|
                0 <= x2 < dst_w && 0 <= y2 < y && 0 <= ch < pt.channel_count_spec() ==> channel_at(
                    pt,
                    out@,
                    dst_w as int,
                    x2,
                    y2,
                    ch,
                ) == clamp_channel(
                    pt,
                    round_fixed(
                        weighted_row_sum(
                            src@,
                            pt,
                            src_w as int,
                            y2,
                            ch,
                            coeffs.bounds@[x2].start as int,
                            coeffs.weights@[x2]@,
                        ),
                    ),
                ),
    {
        for x in 0..dst_w
            invariant
                coefficients_wf(*coeffs, src_w as int, dst_w as int),
                src.len() == src_w * rows * pt.pixel_size_spec(),
                1 <= src_w <= MAX_DIMENSION,
                1 <= rows <= MAX_DIMENSION,
                1 <= dst_w <= MAX_DIMENSION,
                y < rows,
                out.len() == dst_w * rows * pt.pixel_size_spec(),
                forall|x2: int, y2: int, ch: int|
                    0 <= x2 < dst_w && 0 <= y2 < rows && 0 <= ch < pt.channel_count_spec() && (y2
                        < y || (y2 == y && x2 < x)) ==> channel_at(pt, out@, dst_w as int, x2, y2, ch)
                        == clamp_channel(
                        pt,
                        round_fixed(
                            weighted_row_sum(
                                src@,
                                pt,
                                src_w as int,
                                y2,
                                ch,
                                coeffs.bounds@[x2].start as int,
                                coeffs.weights@[x2]@,
                            ),
                        ),
                    ),
        {
            let bound = coeffs.bounds[x];
            let ws = &coeffs.weights[x];
            convolve_pixel_row(&mut out, src, pt, src_w, rows, dst_w, x, y, bound, ws);
        }
    }
    out
}

/// The batched backend of the horizontal pass: two destination pixels per
/// iteration, the granularity the vector instruction sets pack.
pub fn convolve_rows_batched(
    src: &Vec<u8>,
    pt: PixelType,
    src_w: usize,
    rows: usize,
    dst_w: usize,
    coeffs: &AxisCoefficients,
) -> (out: Vec<u8>)
    requires
        coefficients_wf(*coeffs, src_w as int, dst_w as int),
        src.len() == src_w * rows * pt.pixel_size_spec(),
        1 <= src_w <= MAX_DIMENSION,
        1 <= rows <= MAX_DIMENSION,
        1 <= dst_w <= MAX_DIMENSION,
        dst_w * rows * pt.pixel_size_spec() <= usize::MAX,
    ensures
        row_pass_post(src@, out@, pt, src_w as int, rows as int, dst_w as int, *coeffs),
{
    proof {
        assert(dst_w * rows <= dst_w * rows * pt.pixel_size_spec() && 0 <= dst_w * rows)
            by (nonlinear_arith)
            requires
                1 <= dst_w,
                1 <= rows,
                1 <= pt.pixel_size_spec(),
        ;
    }
    let total = dst_w * rows * pt.pixel_size();
    let mut out = zero_bytes(total);
    for y in 0..rows
        invariant
            coefficients_wf(*coeffs, src_w as int, dst_w as int),
            src.len() == src_w * rows * pt.pixel_size_spec(),
            1 <= src_w <= MAX_DIMENSION,
            1 <= rows <= MAX_DIMENSION,
            1 <= dst_w <= MAX_DIMENSION,
            out.len() == dst_w * rows * pt.pixel_size_spec(),
            forall|x2: int, y2: int, ch: int|
                0 <= x2 < dst_w && 0 <= y2 < y && 0 <= ch < pt.channel_count_spec() ==> channel_at(
                    pt,
                    out@,
                    dst_w as int,
                    x2,
                    y2,
                    ch,
                ) == clamp_channel(
                    pt,
                    round_fixed(
                        weighted_row_sum(
                            src@,
                            pt,
                            src_w as int,
                            y2,
                            ch,
                            coeffs.bounds@[x2].start as int,
                            coeffs.weights@[x2]@,
                        ),
                    ),
                ),
    {
        let mut x: usize = 0;
        while x < dst_w
            invariant
                coefficients_wf(*coeffs, src_w as int, dst_w as int),
                src.len() == src_w * rows * pt.pixel_size_spec(),
                1 <= src_w <= MAX_DIMENSION,
                1 <= rows <= MAX_DIMENSION,
                1 <= dst_w <= MAX_DIMENSION,
                y < rows,
                x <= dst_w,
                out.len() == dst_w * rows * pt.pixel_size_spec(),
                forall|x2: int, y2: int, ch: int|
                    0 <= x2 < dst_w && 0 <= y2 < rows && 0 <= ch < pt.channel_count_spec() && (y2
                        < y || (y2 == y && x2 < x)) ==> channel_at(pt, out@, dst_w as int, x2, y2, ch)
                        == clamp_channel(
                        pt,
                        round_fixed(
                            weighted_row_sum(
                                src@,
                                pt,
                                src_w as int,
                                y2,
                                ch,
                                coeffs.bounds@[x2].start as int,
                                coeffs.weights@[x2]@,
                            ),
                        ),
                    ),
            decreases dst_w - x,
        {
            let bound = coeffs.bounds[x];
            let ws = &coeffs.weights[x];
            convolve_pixel_row(&mut out, src, pt, src_w, rows, dst_w, x, y, bound, ws);
            if x + 1 < dst_w {
                let bound2 = coeffs.bounds[x + 1];
                let ws2 = &coeffs.weights[x + 1];
                convolve_pixel_row(&mut out, src, pt, src_w, rows, dst_w, x + 1, y, bound2, ws2);
                x = x + 2;
            } else {
                x = x + 1;
            }
        }
    }
    out
}

/// The horizontal pass, dispatched on the CPU capability. Every backend
/// meets the same exact contract: the capability changes the batching
/// schedule, never the output.
pub fn convolve_rows(
    cpu: CpuExtensions,
    src: &Vec<u8>,
    pt: PixelType,
    src_w: usize,
    rows: usize,
    dst_w: usize,
    coeffs: &AxisCoefficients,
) -> (out: Vec<u8>)
    requires
        coefficients_wf(*coeffs, src_w as int, dst_w as int),
        src.len() == src_w * rows * pt.pixel_size_spec(),
        1 <= src_w <= MAX_DIMENSION,
        1 <= rows <= MAX_DIMENSION,
        1 <= dst_w <= MAX_DIMENSION,
        dst_w * rows * pt.pixel_size_spec() <= usize::MAX,
    ensures
        row_pass_post(src@, out@, pt, src_w as int, rows as int, dst_w as int, *coeffs),
{
    match cpu {
        CpuExtensions::Scalar => convolve_rows_scalar(src, pt, src_w, rows, dst_w, coeffs),
        _ => convolve_rows_batched(src, pt, src_w, rows, dst_w, coeffs),
    }
}

/// The scalar backend of the vertical pass: one destination pixel per
/// iteration.
pub fn convolve_cols_scalar(
    src: &Vec<u8>,
    pt: PixelType,
    width: usize,
    src_h: usize,
    dst_h: usize,
    coeffs: &AxisCoefficients,
) -> (out: Vec<u8>)
    requires
        coefficients_wf(*coeffs, src_h as int, dst_h as int),
        src.len() == width * src_h * pt.pixel_size_spec(),
        1 <= width <= MAX_DIMENSION,
        1 <= src_h <= MAX_DIMENSION,
        1 <= dst_h <= MAX_DIMENSION,
        width * dst_h * pt.pixel_size_spec() <= usize::MAX,
    ensures
        col_pass_post(src@, out@, pt, width as int, src_h as int, dst_h as int, *coeffs),
{
    proof {
        assert(width * dst_h <= width * dst_h * pt.pixel_size_spec() && 0 <= width * dst_h)
            by (nonlinear_arith)
            requires
                1 <= width,
                1 <= dst_h,
                1 <= pt.pixel_size_spec(),
        ;
    }
    let total = width * dst_h * pt.pixel_size();
    let mut out = zero_bytes(total);
    for y in 0..dst_h
        invariant
            coefficients_wf(*coeffs, src_h as int, dst_h as int),
            src.len() == width * src_h * pt.pixel_size_spec(),
            1 <= width <= MAX_DIMENSION,
            1 <= src_h <= MAX_DIMENSION,
            1 <= dst_h <= MAX_DIMENSION,
            out.len() == width * dst_h * pt.pixel_size_spec(),
            forall|x2: int, y2: int, ch: int|
                0 <= x2 < width && 0 <= y2 < y && 0 <= ch < pt.channel_count_spec() ==> channel_at(
                    pt,
                    out@,
                    width as int,
                    x2,
                    y2,
                    ch,
                ) == clamp_channel(
                    pt,
                    round_fixed(
                        weighted_col_sum(
                            src@,
                            pt,
                            width as int,
                            x2,
                            ch,
                            coeffs.bounds@[y2].start as int,
                            coeffs.weights@[y2]@,
                        ),
                    ),
                ),
    {
        for x in 0..width
            invariant
                coefficients_wf(*coeffs, src_h as int, dst_h as int),
                src.len() == width * src_h * pt.pixel_size_spec(),
                1 <= width <= MAX_DIMENSION,
                1 <= src_h <= MAX_DIMENSION,
                1 <= dst_h <= MAX_DIMENSION,
                y < dst_h,
                out.len() == width * dst_h * pt.pixel_size_spec(),
                forall|x2: int, y2: int, ch: int|
                    0 <= x2 < width && 0 <= y2 < dst_h && 0 <= ch < pt.channel_count_spec() && (y2
                        < y || (y2 == y && x2 < x)) ==> channel_at(pt, out@, width as int, x2, y2, ch)
                        == clamp_channel(
                        pt,
                        round_fixed(
                            weighted_col_sum(
                                src@,
                                pt,
                                width as int,
                                x2,
                                ch,
                                coeffs.bounds@[y2].start as int,
                                coeffs.weights@[y2]@,
                            ),
                        ),
                    ),
        {
            let bound = coeffs.bounds[y];
            let ws = &coeffs.weights[y];
            convolve_pixel_col(&mut out, src, pt, width, src_h, dst_h, x, y, bound, ws);
        }
    }
    out
}

/// The batched backend of the vertical pass: two destination pixels per
/// iteration, the granularity the vector instruction sets pack.
pub fn convolve_cols_batched(
    src: &Vec<u8>,
    pt: PixelType,
    width: usize,
    src_h: usize,
    dst_h: usize,
    coeffs: &AxisCoefficients,
) -> (out: Vec<u8>)
    requires
        coefficients_wf(*coeffs, src_h as int, dst_h as int),
        src.len() == width * src_h * pt.pixel_size_spec(),
        1 <= width <= MAX_DIMENSION,
        1 <= src_h <= MAX_DIMENSION,
        1 <= dst_h <= MAX_DIMENSION,
        width * dst_h * pt.pixel_size_spec() <= usize::MAX,
    ensures
        col_pass_post(src@, out@, pt, width as int, src_h as int, dst_h as int, *coeffs),
{
    proof {
        assert(width * dst_h <= width * dst_h * pt.pixel_size_spec() && 0 <= width * dst_h)
            by (nonlinear_arith)
            requires
                1 <= width,
                1 <= dst_h,
                1 <= pt.pixel_size_spec(),
        ;
    }
    let total = width * dst_h * pt.pixel_size();
    let mut out = zero_bytes(total);
    for y in 0..dst_h
        invariant
            coefficients_wf(*coeffs, src_h as int, dst_h as int),
            src.len() == width * src_h * pt.pixel_size_spec(),
            1 <= width <= MAX_DIMENSION,
            1 <= src_h <= MAX_DIMENSION,
            1 <= dst_h <= MAX_DIMENSION,
            out.len() == width * dst_h * pt.pixel_size_spec(),
            forall|x2: int, y2: int, ch: int|
                0 <= x2 < width && 0 <= y2 < y && 0 <= ch < pt.channel_count_spec() ==> channel_at(
                    pt,
                    out@,
                    width as int,
                    x2,
                    y2,
                    ch,
                ) == clamp_channel(
                    pt,
                    round_fixed(
                        weighted_col_sum(
                            src@,
                            pt,
                            width as int,
                            x2,
                            ch,
                            coeffs.bounds@[y2].start as int,
                            coeffs.weights@[y2]@,
                        ),
                    ),
                ),
    {
        let mut x: usize = 0;
        while x < width
            invariant
                coefficients_wf(*coeffs, src_h as int, dst_h as int),
                src.len() == width * src_h * pt.pixel_size_spec(),
                1 <= width <= MAX_DIMENSION,
                1 <= src_h <= MAX_DIMENSION,
                1 <= dst_h <= MAX_DIMENSION,
                y < dst_h,
                x <= width,
                out.len() == width * dst_h * pt.pixel_size_spec(),
                forall|x2: int, y2: int, ch: int|
                    0 <= x2 < width && 0 <= y2 < dst_h && 0 <= ch < pt.channel_count_spec() && (y2
                        < y || (y2 == y && x2 < x)) ==> channel_at(pt, out@, width as int, x2, y2, ch)
                        == clamp_channel(
                        pt,
                        round_fixed(
                            weighted_col_sum(
                                src@,
                                pt,
                                width as int,
                                x2,
                                ch,
                                coeffs.bounds@[y2].start as int,
                                coeffs.weights@[y2]@,
                            ),
                        ),
                    ),
            decreases width - x,
        {
            let bound = coeffs.bounds[y];
            let ws = &coeffs.weights[y];
            convolve_pixel_col(&mut out, src, pt, width, src_h, dst_h, x, y, bound, ws);
            if x + 1 < width {
                convolve_pixel_col(&mut out, src, pt, width, src_h, dst_h, x + 1, y, bound, ws);
                x = x + 2;
            } else {
                x = x + 1;
            }
        }
    }
    out
}

/// The vertical pass, dispatched on the CPU capability. Every backend meets
/// the same exact contract: the capability changes the batching schedule,
/// never the output.
pub fn convolve_cols(
    cpu: CpuExtensions,
    src: &Vec<u8>,
    pt: PixelType,
    width: usize,
    src_h: usize,
    dst_h: usize,
    coeffs: &AxisCoefficients,
) -> (out: Vec<u8>)
    requires
        coefficients_wf(*coeffs, src_h as int, dst_h as int),
        src.len() == width * src_h * pt.pixel_size_spec(),
        1 <= width <= MAX_DIMENSION,
        1 <= src_h <= MAX_DIMENSION,
        1 <= dst_h <= MAX_DIMENSION,
        width * dst_h * pt.pixel_size_spec() <= usize::MAX,
    ensures
        col_pass_post(src@, out@, pt, width as int, src_h as int, dst_h as int, *coeffs),
{
    match cpu {
        CpuExtensions::Scalar => convolve_cols_scalar(src, pt, width, src_h, dst_h, coeffs),
        _ => convolve_cols_batched(src, pt, width, src_h, dst_h, coeffs),
    }
}

} // verus!
