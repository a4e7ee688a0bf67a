//! The nearest-neighbor executor.
//!
//! Each destination pixel takes the raw bytes of the source pixel whose
//! center is nearest: index `floor((d + 1/2) * src/dst)`, clamped to the
//! valid range, on each axis. No blending and no precision loss — the
//! copied bytes are the source's bytes verbatim ([`nearest_post`], and the
//! law [`lemma_nearest_exactness`]).

use vstd::prelude::*;

use crate::coefficients::{nearest_index, nearest_index_spec};
use crate::images::MAX_DIMENSION;
use crate::pixels::{lemma_channel_offset_in_bounds, PixelType};

verus! {

/// Byte position `k` of the pixel at column `x`, row `y`, in row-major
/// data of `width`-pixel rows and `psz`-byte pixels.
pub open spec fn pixel_byte(width: int, psz: int, x: int, y: int, k: int) -> int {
    (y * width + x) * psz + k
}

/// Destination pixel (`dx`, `dy`) carries byte for byte the source pixel
/// (`sx`, `sy`).
pub open spec fn pixel_copied(
    src: Seq<u8>,
    out: Seq<u8>,
    pt: PixelType,
    src_w: int,
    dst_w: int,
    dx: int,
    dy: int,
    sx: int,
    sy: int,
) -> bool {
    forall|k: int|
        0 <= k < pt.pixel_size_spec() ==> out[#[trigger] pixel_byte(
            dst_w,
            pt.pixel_size_spec() as int,
            dx,
            dy,
            k,
        )] == src[pixel_byte(src_w, pt.pixel_size_spec() as int, sx, sy, k)]
}

/// The nearest-neighbor contract: `out` is `dst_w x dst_h` and every
/// destination pixel's bytes equal the bytes of its nearest source pixel.
pub open spec fn nearest_post(
    src: Seq<u8>,
    out: Seq<u8>,
    pt: PixelType,
    src_w: int,
    src_h: int,
    dst_w: int,
    dst_h: int,
) -> bool {
    &&& out.len() == dst_w * dst_h * pt.pixel_size_spec()
    &&& forall|dx: int, dy: int|
        0 <= dx < dst_w && 0 <= dy < dst_h ==> #[trigger] pixel_copied(
            src,
            out,
            pt,
            src_w,
            dst_w,
            dx,
            dy,
            nearest_index_spec(src_w, dst_w, dx),
            nearest_index_spec(src_h, dst_h, dy),
        )
}

/// Pixel byte positions grow with the pixel's row-major order.
proof fn lemma_pixel_index_lt(
    dst_w: int,
    psz: int,
    dx2: int,
    dy2: int,
    k2: int,
    dx: int,
    dy: int,
    k: int,
)
    requires
        1 <= psz,
        0 <= dx2 < dst_w,
        0 <= dx < dst_w,
        0 <= dy2,
        0 <= dy,
        0 <= k2 < psz,
        0 <= k < psz,
        dy2 < dy || (dy2 == dy && dx2 < dx) || (dy2 == dy && dx2 == dx && k2 < k),
    ensures
        0 <= (dy2 * dst_w + dx2) * psz + k2,
        (dy2 * dst_w + dx2) * psz + k2 < (dy * dst_w + dx) * psz + k,
{
    assert(0 <= (dy2 * dst_w + dx2) * psz + k2 && (dy2 * dst_w + dx2) * psz + k2 < (dy * dst_w
        + dx) * psz + k) by (nonlinear_arith)
        requires
            1 <= psz,
            0 <= dx2 < dst_w,
            0 <= dx < dst_w,
            0 <= dy2,
            0 <= dy,
            0 <= k2 < psz,
            0 <= k < psz,
            dy2 < dy || (dy2 == dy && dx2 < dx) || (dy2 == dy && dx2 == dx && k2 < k),
    ;
}

/// Resize by nearest-neighbor sampling: a direct index-mapped copy.
pub fn resize_nearest(
    src: &Vec<u8>,
    pt: PixelType,
    src_w: usize,
    src_h: usize,
    dst_w: usize,
    dst_h: usize,
) -> (out: Vec<u8>)
    requires
        src.len() == src_w * src_h * pt.pixel_size_spec(),
        1 <= src_w <= MAX_DIMENSION,
        1 <= src_h <= MAX_DIMENSION,
        1 <= dst_w <= MAX_DIMENSION,
        1 <= dst_h <= MAX_DIMENSION,
        dst_w * dst_h * pt.pixel_size_spec() <= usize::MAX,
    ensures
        nearest_post(src@, out@, pt, src_w as int, src_h as int, dst_w as int, dst_h as int),
{
    let psz = pt.pixel_size();
    let mut out: Vec<u8> = Vec::new();
    let mut dy: usize = 0;
    while dy < dst_h
        invariant
            dy <= dst_h,
            psz == pt.pixel_size_spec(),
            src.len() == src_w * src_h * pt.pixel_size_spec(),
            1 <= src_w <= MAX_DIMENSION,
            1 <= src_h <= MAX_DIMENSION,
            1 <= dst_w <= MAX_DIMENSION,
            1 <= dst_h <= MAX_DIMENSION,
            dst_w * dst_h * pt.pixel_size_spec() <= usize::MAX,
            out.len() == (dy * dst_w) * psz,
            forall|dx2: int, dy2: int|
                0 <= dx2 < dst_w && 0 <= dy2 < dy ==> #[trigger] pixel_copied(
                    src@,
                    out@,
                    pt,
                    src_w as int,
                    dst_w as int,
                    dx2,
                    dy2,
                    nearest_index_spec(src_w as int, dst_w as int, dx2),
                    nearest_index_spec(src_h as int, dst_h as int, dy2),
                ),
        decreases dst_h - dy,
    {
        let sy = nearest_index(src_h, dst_h, dy);
        for dx in 0..dst_w
            invariant
                psz == pt.pixel_size_spec(),
                src.len() == src_w * src_h * pt.pixel_size_spec(),
                1 <= src_w <= MAX_DIMENSION,
                1 <= src_h <= MAX_DIMENSION,
                1 <= dst_w <= MAX_DIMENSION,
                1 <= dst_h <= MAX_DIMENSION,
                dst_w * dst_h * pt.pixel_size_spec() <= usize::MAX,
                dy < dst_h,
                sy == nearest_index_spec(src_h as int, dst_h as int, dy as int),
                sy < src_h,
                out.len() == (dy * dst_w + dx) * psz,
                forall|dx2: int, dy2: int|
                    0 <= dx2 < dst_w && 0 <= dy2 < dst_h && (dy2 < dy || (dy2 == dy && dx2 < dx))
                        ==> #[trigger] pixel_copied(
                        src@,
                        out@,
                        pt,
                        src_w as int,
                        dst_w as int,
                        dx2,
                        dy2,
                        nearest_index_spec(src_w as int, dst_w as int, dx2),
                        nearest_index_spec(src_h as int, dst_h as int, dy2),
                    ),
        {
            let sx = nearest_index(src_w, dst_w, dx);
            proof {
                lemma_channel_offset_in_bounds(
                    pt,
                    src_w as int,
                    src_h as int,
                    sx as int,
                    sy as int,
                    0,
                );
                lemma_channel_offset_in_bounds(
                    pt,
                    dst_w as int,
                    dst_h as int,
                    dx as int,
                    dy as int,
                    0,
                );
                assert((sy as int) * src_w + (sx as int) < src_w * src_h && src_w * src_h <= src_w
                    * src_h * pt.pixel_size_spec() && ((dy as int) * dst_w + dx as int) * psz + psz
                    <= dst_w * dst_h * psz)
                    by (nonlinear_arith)
                    requires
                        sy < src_h,
                        sx < src_w,
                        dy < dst_h,
                        dx < dst_w,
                        0 <= sy,
                        0 <= sx,
                        0 <= dy,
                        0 <= dx,
                        1 <= psz == pt.pixel_size_spec(),
                        1 <= src_w,
                        1 <= dst_w,
                ;
            }
            let s_off = (sy * src_w + sx) * psz;
            for k in 0..psz
                invariant
                    psz == pt.pixel_size_spec(),
                    src.len() == src_w * src_h * pt.pixel_size_spec(),
                    1 <= src_w <= MAX_DIMENSION,
                    1 <= src_h <= MAX_DIMENSION,
                    1 <= dst_w <= MAX_DIMENSION,
                    1 <= dst_h <= MAX_DIMENSION,
                    dy < dst_h,
                    dx < dst_w,
                    sy == nearest_index_spec(src_h as int, dst_h as int, dy as int),
                    sx == nearest_index_spec(src_w as int, dst_w as int, dx as int),
                    s_off == ((sy as int) * src_w + sx as int) * psz,
                    s_off + psz <= src.len(),
                    out.len() == (dy * dst_w + dx) * psz + k,
                    ((dy as int) * dst_w + dx as int) * psz + psz <= dst_w * dst_h * psz
                        <= usize::MAX,
                    forall|dx2: int, dy2: int|
                        0 <= dx2 < dst_w && 0 <= dy2 < dst_h && (dy2 < dy || (dy2 == dy && dx2
                            < dx)) ==> #[trigger] pixel_copied(
                            src@,
                            out@,
                            pt,
                            src_w as int,
                            dst_w as int,
                            dx2,
                            dy2,
                            nearest_index_spec(src_w as int, dst_w as int, dx2),
                            nearest_index_spec(src_h as int, dst_h as int, dy2),
                        ),
                    forall|k2: int|
                        0 <= k2 < k ==> out@[#[trigger] pixel_byte(
                            dst_w as int,
                            psz as int,
                            dx as int,
                            dy as int,
                            k2,
                        )] == src@[pixel_byte(src_w as int, psz as int, sx as int, sy as int, k2)],
            {
                let ghost out_before = out@;
                out.push(src[s_off + k]);
                proof {
                    assert forall|dx2: int, dy2: int|
                        0 <= dx2 < dst_w && 0 <= dy2 < dst_h && (dy2 < dy || (dy2 == dy && dx2
                            < dx)) implies #[trigger] pixel_copied(
                        src@,
                        out@,
                        pt,
                        src_w as int,
                        dst_w as int,
                        dx2,
                        dy2,
                        nearest_index_spec(src_w as int, dst_w as int, dx2),
                        nearest_index_spec(src_h as int, dst_h as int, dy2),
                    ) by {
                        assert(pixel_copied(
                            src@,
                            out_before,
                            pt,
                            src_w as int,
                            dst_w as int,
                            dx2,
                            dy2,
                            nearest_index_spec(src_w as int, dst_w as int, dx2),
                            nearest_index_spec(src_h as int, dst_h as int, dy2),
                        ));
                        assert forall|k2: int| 0 <= k2 < psz implies out@[#[trigger] pixel_byte(
                            dst_w as int,
                            psz as int,
                            dx2,
                            dy2,
                            k2,
                        )] == out_before[pixel_byte(dst_w as int, psz as int, dx2, dy2, k2)] by {
                            lemma_pixel_index_lt(
                                dst_w as int,
                                psz as int,
                                dx2,
                                dy2,
                                k2,
                                dx as int,
                                dy as int,
                                k as int,
                            );
                        }
                    }
                    assert(out@[pixel_byte(dst_w as int, psz as int, dx as int, dy as int, k as int)]
                        == src@[pixel_byte(src_w as int, psz as int, sx as int, sy as int, k as int)]);
                }
            }
            proof {
                assert(pixel_copied(
                    src@,
                    out@,
                    pt,
                    src_w as int,
                    dst_w as int,
                    dx as int,
                    dy as int,
                    sx as int,
                    sy as int,
                ));
            }
            proof {
                assert(((dy as int) * dst_w + dx as int) * psz + psz == ((dy as int) * dst_w + (
                dx as int + 1)) * psz) by (nonlinear_arith);
            }
        }
        proof {
            assert(((dy as int) * dst_w + dst_w as int) * psz == (((dy as int) + 1) * dst_w)
                * psz) by (nonlinear_arith);
        }
        dy = dy + 1;
    }
    proof {
        assert(((dst_h as int) * dst_w) * pt.pixel_size_spec() == dst_w * dst_h
            * pt.pixel_size_spec()) by (nonlinear_arith);
    }
    out
}

/// Two outputs that satisfy the nearest-neighbor contract for the same
/// source agree on every channel of every pixel.
pub proof fn lemma_nearest_outputs_agree(
    src: Seq<u8>,
    o1: Seq<u8>,
    o2: Seq<u8>,
    pt: PixelType,
    src_w: int,
    src_h: int,
    dst_w: int,
    dst_h: int,
)
    requires
        nearest_post(src, o1, pt, src_w, src_h, dst_w, dst_h),
        nearest_post(src, o2, pt, src_w, src_h, dst_w, dst_h),
        1 <= dst_w,
        1 <= dst_h,
    ensures
        o1.len() == o2.len(),
        forall|x: int, y: int, c: int|
            0 <= x < dst_w && 0 <= y < dst_h && 0 <= c < pt.channel_count_spec()
                ==> #[trigger] crate::pixels::channel_at(pt, o1, dst_w, x, y, c)
                == crate::pixels::channel_at(pt, o2, dst_w, x, y, c),
{
    let psz = pt.pixel_size_spec() as int;
    let cc = pt.channel_count_spec() as int;
    let cw = pt.channel_width_spec() as int;
    assert forall|x: int, y: int, c: int|
        0 <= x < dst_w && 0 <= y < dst_h && 0 <= c < cc implies #[trigger] crate::pixels::channel_at(
        pt,
        o1,
        dst_w,
        x,
        y,
        c,
    ) == crate::pixels::channel_at(pt, o2, dst_w, x, y, c) by {
        let off = crate::pixels::channel_offset(pt, dst_w, x, y, c);
        lemma_channel_offset_in_bounds(pt, dst_w, dst_h, x, y, c);
        assert(pixel_copied(
            src,
            o1,
            pt,
            src_w,
            dst_w,
            x,
            y,
            nearest_index_spec(src_w, dst_w, x),
            nearest_index_spec(src_h, dst_h, y),
        ));
        assert(pixel_copied(
            src,
            o2,
            pt,
            src_w,
            dst_w,
            x,
            y,
            nearest_index_spec(src_w, dst_w, x),
            nearest_index_spec(src_h, dst_h, y),
        ));
        assert forall|j: int| off <= j < off + cw implies o1[j] == o2[j] by {
            let k = c * cw + (j - off);
            assert(off == (y * dst_w + x) * psz + c * cw && 0 <= k < psz) by (nonlinear_arith)
                requires
                    off == ((y * dst_w + x) * cc + c) * cw,
                    psz == cc * cw,
                    k == c * cw + (j - off),
                    0 <= c < cc,
                    1 <= cw,
                    off <= j < off + cw,
                    0 <= y * dst_w + x,
            ;
            assert(j == pixel_byte(dst_w, psz, x, y, k));
            assert(o1[pixel_byte(dst_w, psz, x, y, k)] == src[pixel_byte(
                src_w,
                psz,
                nearest_index_spec(src_w, dst_w, x),
                nearest_index_spec(src_h, dst_h, y),
                k,
            )]);
            assert(o2[pixel_byte(dst_w, psz, x, y, k)] == src[pixel_byte(
                src_w,
                psz,
                nearest_index_spec(src_w, dst_w, x),
                nearest_index_spec(src_h, dst_h, y),
                k,
            )]);
        }
        crate::pixels::lemma_channel_decode_agrees(pt, o1, o2, off);
    }
}

/// Law (nearest-neighbor exactness): every destination pixel's bytes equal
/// some source pixel's bytes verbatim.
pub proof fn lemma_nearest_exactness(
    src: Seq<u8>,
    out: Seq<u8>,
    pt: PixelType,
    src_w: int,
    src_h: int,
    dst_w: int,
    dst_h: int,
    dx: int,
    dy: int,
)
    requires
        nearest_post(src, out, pt, src_w, src_h, dst_w, dst_h),
        1 <= src_w,
        1 <= src_h,
        1 <= dst_w,
        1 <= dst_h,
        0 <= dx < dst_w,
        0 <= dy < dst_h,
    ensures
        exists|sx: int, sy: int|
            0 <= sx < src_w && 0 <= sy < src_h && #[trigger] pixel_copied(
                src,
                out,
                pt,
                src_w,
                dst_w,
                dx,
                dy,
                sx,
                sy,
            ),
{
    let sx = nearest_index_spec(src_w, dst_w, dx);
    let sy = nearest_index_spec(src_h, dst_h, dy);
    vstd::arithmetic::div_mod::lemma_div_pos_is_pos((2 * dx + 1) * src_w, 2 * dst_w);
    vstd::arithmetic::div_mod::lemma_div_pos_is_pos((2 * dy + 1) * src_h, 2 * dst_h);
    assert(0 <= (2 * dx + 1) * src_w && 0 <= (2 * dy + 1) * src_h) by (nonlinear_arith)
        requires
            0 <= dx,
            0 <= dy,
            1 <= src_w,
            1 <= src_h,
    ;
    assert(0 <= sx < src_w && 0 <= sy < src_h && pixel_copied(
        src,
        out,
        pt,
        src_w,
        dst_w,
        dx,
        dy,
        sx,
        sy,
    ));
}

} // verus!
