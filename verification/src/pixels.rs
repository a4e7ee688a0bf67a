//! The pixel model: supported pixel layouts and their binary shape, and the
//! byte-level encoding of a single channel value.
//!
//! Image data is a contiguous row-major byte buffer without inter-row
//! padding. One pixel is `channel_count` interleaved channels; one channel
//! is 1, 2 or 4 little-endian bytes (the 4-byte channel is a signed 32-bit
//! integer, the narrower channels are unsigned).

use vstd::prelude::*;

verus! {

/// The closed set of pixel layouts the engine operates on.
#[derive(Clone, Copy, Debug, PartialEq, Eq, Structural)]
pub enum PixelType {
    /// One 8-bit channel.
    U8,
    /// Two interleaved 8-bit channels.
    U8x2,
    /// Three interleaved 8-bit channels.
    U8x3,
    /// Four interleaved 8-bit channels.
    U8x4,
    /// One 16-bit channel.
    U16,
    /// Two interleaved 16-bit channels.
    U16x2,
    /// Three interleaved 16-bit channels.
    U16x3,
    /// Four interleaved 16-bit channels.
    U16x4,
    /// One signed 32-bit channel.
    I32,
}

impl PixelType {
    /// Number of interleaved channels in one pixel.
    pub open spec fn channel_count_spec(self) -> usize {
        match self {
            PixelType::U8 => 1,
            PixelType::U8x2 => 2,
            PixelType::U8x3 => 3,
            PixelType::U8x4 => 4,
            PixelType::U16 => 1,
            PixelType::U16x2 => 2,
            PixelType::U16x3 => 3,
            PixelType::U16x4 => 4,
            PixelType::I32 => 1,
        }
    }

    /// Number of interleaved channels in one pixel.
    #[verifier::when_used_as_spec(channel_count_spec)]
    pub fn channel_count(self) -> (r: usize)
        ensures
            r == self.channel_count_spec(),
            1 <= r <= 4,
    {
        match self {
            PixelType::U8 => 1,
            PixelType::U8x2 => 2,
            PixelType::U8x3 => 3,
            PixelType::U8x4 => 4,
            PixelType::U16 => 1,
            PixelType::U16x2 => 2,
            PixelType::U16x3 => 3,
            PixelType::U16x4 => 4,
            PixelType::I32 => 1,
        }
    }

    /// Width of one channel in bytes.
    pub open spec fn channel_width_spec(self) -> usize {
        match self {
            PixelType::U8 => 1,
            PixelType::U8x2 => 1,
            PixelType::U8x3 => 1,
            PixelType::U8x4 => 1,
            PixelType::U16 => 2,
            PixelType::U16x2 => 2,
            PixelType::U16x3 => 2,
            PixelType::U16x4 => 2,
            PixelType::I32 => 4,
        }
    }

    /// Width of one channel in bytes.
    #[verifier::when_used_as_spec(channel_width_spec)]
    pub fn channel_width(self) -> (r: usize)
        ensures
            r == self.channel_width_spec(),
            1 <= r <= 4,
    {
        match self {
            PixelType::U8 => 1,
            PixelType::U8x2 => 1,
            PixelType::U8x3 => 1,
            PixelType::U8x4 => 1,
            PixelType::U16 => 2,
            PixelType::U16x2 => 2,
            PixelType::U16x3 => 2,
            PixelType::U16x4 => 2,
            PixelType::I32 => 4,
        }
    }

    /// Byte stride of one pixel: channel count times channel width.
    pub open spec fn pixel_size_spec(self) -> usize {
        match self {
            PixelType::U8 => 1,
            PixelType::U8x2 => 2,
            PixelType::U8x3 => 3,
            PixelType::U8x4 => 4,
            PixelType::U16 => 2,
            PixelType::U16x2 => 4,
            PixelType::U16x3 => 6,
            PixelType::U16x4 => 8,
            PixelType::I32 => 4,
        }
    }

    /// Byte stride of one pixel: channel count times channel width.
    #[verifier::when_used_as_spec(pixel_size_spec)]
    pub fn pixel_size(self) -> (r: usize)
        ensures
            r == self.pixel_size_spec(),
            1 <= r <= 8,
            r == self.channel_count_spec() * self.channel_width_spec(),
    {
        match self {
            PixelType::U8 => 1,
            PixelType::U8x2 => 2,
            PixelType::U8x3 => 3,
            PixelType::U8x4 => 4,
            PixelType::U16 => 2,
            PixelType::U16x2 => 4,
            PixelType::U16x3 => 6,
            PixelType::U16x4 => 8,
            PixelType::I32 => 4,
        }
    }

    /// Smallest representable channel value.
    pub open spec fn channel_min_spec(self) -> i64 {
        match self {
            PixelType::I32 => -0x8000_0000i64,
            _ => 0,
        }
    }

    /// Smallest representable channel value.
    #[verifier::when_used_as_spec(channel_min_spec)]
    pub fn channel_min(self) -> (r: i64)
        ensures
            r == self.channel_min_spec(),
    {
        match self {
            PixelType::I32 => -0x8000_0000,
            _ => 0,
        }
    }

    /// Largest representable channel value.
    pub open spec fn channel_max_spec(self) -> i64 {
        match self {
            PixelType::U8 | PixelType::U8x2 | PixelType::U8x3 | PixelType::U8x4 => 255,
            PixelType::U16 | PixelType::U16x2 | PixelType::U16x3 | PixelType::U16x4 => 0xffff,
            PixelType::I32 => 0x7fff_ffff,
        }
    }

    /// Largest representable channel value.
    #[verifier::when_used_as_spec(channel_max_spec)]
    pub fn channel_max(self) -> (r: i64)
        ensures
            r == self.channel_max_spec(),
    {
        match self {
            PixelType::U8 | PixelType::U8x2 | PixelType::U8x3 | PixelType::U8x4 => 255,
            PixelType::U16 | PixelType::U16x2 | PixelType::U16x3 | PixelType::U16x4 => 0xffff,
            PixelType::I32 => 0x7fff_ffff,
        }
    }
}

/// Byte offset of channel `c` of the pixel at column `x`, row `y`, in
/// row-major data whose rows are `width` pixels wide.
pub open spec fn channel_offset(pt: PixelType, width: int, x: int, y: int, c: int) -> int {
    ((y * width + x) * pt.channel_count_spec() + c) * pt.channel_width_spec()
}

/// The value encoded by the `channel_width` little-endian bytes at `off`.
/// Narrow channels are unsigned; the 4-byte channel is two's-complement.
pub open spec fn channel_decode(pt: PixelType, data: Seq<u8>, off: int) -> int {
    if pt.channel_width_spec() == 1 {
        data[off] as int
    } else if pt.channel_width_spec() == 2 {
        data[off] + 0x100 * data[off + 1]
    } else {
        let u = data[off] + 0x100 * data[off + 1] + 0x1_0000 * data[off + 2] + 0x100_0000
            * data[off + 3];
        if u >= 0x8000_0000 {
            u - 0x1_0000_0000
        } else {
            u
        }
    }
}

/// The value of channel `c` of the pixel at column `x`, row `y`.
pub open spec fn channel_at(pt: PixelType, data: Seq<u8>, width: int, x: int, y: int, c: int) -> int {
    channel_decode(pt, data, channel_offset(pt, width, x, y, c))
}

/// Every in-bounds channel offset, together with its channel's bytes, lies
/// inside a buffer of `width * height * pixel_size` bytes.
pub proof fn lemma_channel_offset_in_bounds(
    pt: PixelType,
    width: int,
    height: int,
    x: int,
    y: int,
    c: int,
)
    requires
        0 <= x < width,
        0 <= y < height,
        0 <= c < pt.channel_count_spec(),
    ensures
        0 <= channel_offset(pt, width, x, y, c),
        channel_offset(pt, width, x, y, c) + pt.channel_width_spec() <= width * height
            * pt.pixel_size_spec(),
        (y * width + x) * pt.pixel_size_spec() + pt.pixel_size_spec() <= width * height
            * pt.pixel_size_spec(),
        channel_offset(pt, width, x, y, c) + pt.channel_width_spec() <= (y * width + x)
            * pt.pixel_size_spec() + pt.pixel_size_spec(),
        (y * width + x) * pt.pixel_size_spec() <= channel_offset(pt, width, x, y, c),
{
    let cc = pt.channel_count_spec() as int;
    let cw = pt.channel_width_spec() as int;
    let psz = pt.pixel_size_spec() as int;
    assert(psz == cc * cw);
    assert((y * width + x) * psz + psz <= width * height * psz && 0 <= (y * width + x) * psz)
        by (nonlinear_arith)
        requires
            0 <= x < width,
            0 <= y < height,
            psz >= 1,
    ;
    assert(((y * width + x) * cc + c) * cw + cw <= (y * width + x) * (cc * cw) + cc * cw
        && (y * width + x) * (cc * cw) <= ((y * width + x) * cc + c) * cw && 0 <= ((y * width + x)
        * cc + c) * cw)
        by (nonlinear_arith)
        requires
            0 <= y * width + x,
            0 <= c < cc,
            cw >= 1,
    ;
}

/// Distinct channel coordinates occupy disjoint byte ranges.
pub proof fn lemma_channel_offsets_disjoint(
    pt: PixelType,
    width: int,
    x1: int,
    y1: int,
    c1: int,
    x2: int,
    y2: int,
    c2: int,
)
    requires
        0 <= x1 < width,
        0 <= x2 < width,
        0 <= y1,
        0 <= y2,
        0 <= c1 < pt.channel_count_spec(),
        0 <= c2 < pt.channel_count_spec(),
        !(x1 == x2 && y1 == y2 && c1 == c2),
    ensures
        channel_offset(pt, width, x1, y1, c1) + pt.channel_width_spec() <= channel_offset(
            pt,
            width,
            x2,
            y2,
            c2,
        ) || channel_offset(pt, width, x2, y2, c2) + pt.channel_width_spec() <= channel_offset(
            pt,
            width,
            x1,
            y1,
            c1,
        ),
{
    let cc = pt.channel_count_spec() as int;
    let cw = pt.channel_width_spec() as int;
    let l1 = (y1 * width + x1) * cc + c1;
    let l2 = (y2 * width + x2) * cc + c2;
    assert(l1 != l2) by (nonlinear_arith)
        requires
            0 <= x1 < width,
            0 <= x2 < width,
            0 <= y1,
            0 <= y2,
            0 <= c1 < cc,
            0 <= c2 < cc,
            !(x1 == x2 && y1 == y2 && c1 == c2),
            l1 == (y1 * width + x1) * cc + c1,
            l2 == (y2 * width + x2) * cc + c2,
    ;
    assert(l1 < l2 ==> l1 * cw + cw <= l2 * cw) by (nonlinear_arith)
        requires
            cw >= 1,
    ;
    assert(l2 < l1 ==> l2 * cw + cw <= l1 * cw) by (nonlinear_arith)
        requires
            cw >= 1,
    ;
}

/// A channel value read back from bytes always lies within the channel's
/// representable range.
pub proof fn lemma_channel_decode_in_range(pt: PixelType, data: Seq<u8>, off: int)
    requires
        0 <= off,
        off + pt.channel_width_spec() <= data.len(),
    ensures
        pt.channel_min_spec() <= channel_decode(pt, data, off) <= pt.channel_max_spec(),
{
}

/// If two buffers agree on a channel's bytes, they decode to the same value.
pub proof fn lemma_channel_decode_agrees(pt: PixelType, d1: Seq<u8>, d2: Seq<u8>, off: int)
    requires
        0 <= off,
        off + pt.channel_width_spec() <= d1.len(),
        off + pt.channel_width_spec() <= d2.len(),
        forall|j: int| off <= j < off + pt.channel_width_spec() ==> d1[j] == d2[j],
    ensures
        channel_decode(pt, d1, off) == channel_decode(pt, d2, off),
{
}

/// A write that touches only one channel's bytes leaves every other
/// channel's value unchanged.
pub proof fn lemma_write_preserves_channels(
    pt: PixelType,
    width: int,
    height: int,
    before: Seq<u8>,
    after: Seq<u8>,
    x: int,
    y: int,
    c: int,
)
    requires
        before.len() == after.len(),
        before.len() == width * height * pt.pixel_size_spec(),
        0 <= x < width,
        0 <= y < height,
        0 <= c < pt.channel_count_spec(),
        forall|j: int|
            0 <= j < after.len() && !(channel_offset(pt, width, x, y, c) <= j < channel_offset(
                pt,
                width,
                x,
                y,
                c,
            ) + pt.channel_width_spec()) ==> after[j] == before[j],
    ensures
        forall|x2: int, y2: int, c2: int|
            0 <= x2 < width && 0 <= y2 < height && 0 <= c2 < pt.channel_count_spec() && !(x2 == x
                && y2 == y && c2 == c) ==> channel_at(pt, after, width, x2, y2, c2) == channel_at(
                pt,
                before,
                width,
                x2,
                y2,
                c2,
            ),
{
    assert forall|x2: int, y2: int, c2: int|
        0 <= x2 < width && 0 <= y2 < height && 0 <= c2 < pt.channel_count_spec() && !(x2 == x && y2
            == y && c2 == c) implies channel_at(pt, after, width, x2, y2, c2) == channel_at(
        pt,
        before,
        width,
        x2,
        y2,
        c2,
    ) by {
        lemma_channel_offsets_disjoint(pt, width, x2, y2, c2, x, y, c);
        lemma_channel_offset_in_bounds(pt, width, height, x2, y2, c2);
        lemma_channel_offset_in_bounds(pt, width, height, x, y, c);
        lemma_channel_decode_agrees(pt, before, after, channel_offset(pt, width, x2, y2, c2));
    }
}

/// Read channel `c` of the pixel at column `x`, row `y`.
pub fn read_channel(
    data: &Vec<u8>,
    pt: PixelType,
    width: usize,
    x: usize,
    y: usize,
    c: usize,
) -> (r: i64)
    requires
        0 <= x < width,
        0 <= c < pt.channel_count_spec(),
        channel_offset(pt, width as int, x as int, y as int, c as int) + pt.channel_width_spec()
            <= data.len(),
        0 <= channel_offset(pt, width as int, x as int, y as int, c as int),
    ensures
        r == channel_at(pt, data@, width as int, x as int, y as int, c as int),
        pt.channel_min_spec() <= r <= pt.channel_max_spec(),
{
    proof {
        let cc = pt.channel_count_spec() as int;
        let cw = pt.channel_width_spec() as int;
        assert(0 <= y * width && y * width <= y * width + x && y * width + x <= (y * width + x)
            * cc && (y * width + x) * cc + c <= ((y * width + x) * cc + c) * cw)
            by (nonlinear_arith)
            requires
                0 <= x,
                0 <= y,
                0 <= c,
                0 <= width,
                1 <= cc,
                1 <= cw,
        ;
    }
    let base = y * width + x;
    let lin = base * pt.channel_count() + c;
    let off = lin * pt.channel_width();
    let b0 = data[off] as i64;
    if pt.channel_width() == 1 {
        b0
    } else if pt.channel_width() == 2 {
        let b1 = data[off + 1] as i64;
        b0 + 0x100 * b1
    } else {
        let b1 = data[off + 1] as i64;
        let b2 = data[off + 2] as i64;
        let b3 = data[off + 3] as i64;
        let u = b0 + 0x100 * b1 + 0x1_0000 * b2 + 0x100_0000 * b3;
        if u >= 0x8000_0000 {
            u - 0x1_0000_0000
        } else {
            u
        }
    }
}

/// Write value `v` into channel `c` of the pixel at column `x`, row `y`.
/// Only that channel's bytes change.
pub fn write_channel(
    data: &mut Vec<u8>,
    pt: PixelType,
    width: usize,
    x: usize,
    y: usize,
    c: usize,
    v: i64,
)
    requires
        0 <= x < width,
        0 <= c < pt.channel_count_spec(),
        channel_offset(pt, width as int, x as int, y as int, c as int) + pt.channel_width_spec()
            <= old(data).len(),
        0 <= channel_offset(pt, width as int, x as int, y as int, c as int),
        pt.channel_min_spec() <= v <= pt.channel_max_spec(),
    ensures
        final(data).len() == old(data).len(),
        channel_at(pt, final(data)@, width as int, x as int, y as int, c as int) == v,
        forall|j: int|
            0 <= j < old(data).len() && !(channel_offset(pt, width as int, x as int, y as int, c as int)
                <= j < channel_offset(pt, width as int, x as int, y as int, c as int)
                + pt.channel_width_spec()) ==> final(data)@[j] == old(data)@[j],
{
    proof {
        let cc = pt.channel_count_spec() as int;
        let cw = pt.channel_width_spec() as int;
        assert(0 <= y * width && y * width <= y * width + x && y * width + x <= (y * width + x)
            * cc && (y * width + x) * cc + c <= ((y * width + x) * cc + c) * cw)
            by (nonlinear_arith)
            requires
                0 <= x,
                0 <= y,
                0 <= c,
                0 <= width,
                1 <= cc,
                1 <= cw,
        ;
    }
    let base = y * width + x;
    let lin = base * pt.channel_count() + c;
    let off = lin * pt.channel_width();
    if pt.channel_width() == 1 {
        data.set(off, v as u8);
    } else if pt.channel_width() == 2 {
        let u = v as u64;
        let q1 = u / 0x100;
        proof {
            vstd::arithmetic::div_mod::lemma_fundamental_div_mod(u as int, 0x100);
            vstd::arithmetic::div_mod::lemma_mod_bound(u as int, 0x100);
        }
        data.set(off, (u % 0x100) as u8);
        data.set(off + 1, q1 as u8);
    } else {
        let u: u64 = if v < 0 {
            (v + 0x1_0000_0000) as u64
        } else {
            v as u64
        };
        let q1 = u / 0x100;
        let q2 = q1 / 0x100;
        let q3 = q2 / 0x100;
        proof {
            vstd::arithmetic::div_mod::lemma_fundamental_div_mod(u as int, 0x100);
            vstd::arithmetic::div_mod::lemma_mod_bound(u as int, 0x100);
            vstd::arithmetic::div_mod::lemma_fundamental_div_mod(q1 as int, 0x100);
            vstd::arithmetic::div_mod::lemma_mod_bound(q1 as int, 0x100);
            vstd::arithmetic::div_mod::lemma_fundamental_div_mod(q2 as int, 0x100);
            vstd::arithmetic::div_mod::lemma_mod_bound(q2 as int, 0x100);
        }
        data.set(off, (u % 0x100) as u8);
        data.set(off + 1, (q1 % 0x100) as u8);
        data.set(off + 2, (q2 % 0x100) as u8);
        data.set(off + 3, q3 as u8);
    }
}

} // verus!
