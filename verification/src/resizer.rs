//! The resizer: validation and dispatch.
//!
//! A [`Resizer`] holds a resize algorithm and a CPU capability. A resize
//! call validates the two views — pixel types equal, dimensions positive
//! and within the engine's limit, byte lengths matching the declared
//! geometry — before any pixel computation; a failing call returns the
//! error pinned by [`validate_spec`] and leaves the destination untouched.
//! A successful call satisfies [`resize_ok_post`], which does not mention
//! the CPU capability at all: the capability selects a batching schedule,
//! never a different result.
//!
//! When source and destination have the same dimensions, both algorithms
//! reduce to an exact copy, which is the strongest form of the identity
//! law ([`lemma_identity_resize`]).

use vstd::prelude::*;

use crate::coefficients::{
    coefficients_weights_exact,
    coefficients_wf,
    coefficients_windows_exact,
    compute_coefficients,
    AxisCoefficients,
};
use crate::convolution::{
    col_pass_post,
    convolve_cols,
    convolve_rows,
    lemma_col_sum_agrees,
    row_pass_post,
};
use crate::cpu::CpuExtensions;
use crate::errors::ResizeError;
use crate::filters::FilterType;
use crate::images::{Image, MAX_DIMENSION};
use crate::coefficients::coefficient_line_wf;
use crate::nearest::{
    lemma_nearest_outputs_agree,
    nearest_post,
    pixel_byte,
    pixel_copied,
    resize_nearest,
};
use crate::pixels::{
    channel_at,
    lemma_channel_decode_in_range,
    lemma_channel_offset_in_bounds,
    PixelType,
};

verus! {

/// The resize algorithm: a direct index-mapped copy, or separable
/// convolution with one filter kernel.
#[derive(Clone, Copy, Debug, PartialEq, Eq, Structural)]
pub enum ResizeAlg {
    /// Nearest-neighbor sampling; ignores any filter.
    Nearest,
    /// Separable convolution with the named filter.
    Convolution(FilterType),
}

/// The validation a resize call performs before touching any pixel, in
/// order: pixel types must match; dimensions must be non-zero; dimensions
/// must lie within the engine's limit; each buffer's byte length must equal
/// its declared geometry; and a two-pass convolution's intermediate buffer
/// must be addressable.
pub open spec fn validate_spec(alg: ResizeAlg, src: Image, dst: Image) -> Option<ResizeError> {
    let psz = src.pixel_type.pixel_size_spec();
    if src.pixel_type != dst.pixel_type {
        Some(ResizeError::PixelTypeMismatch)
    } else if src.width == 0 || src.height == 0 || dst.width == 0 || dst.height == 0 {
        Some(ResizeError::InvalidZeroDimension)
    } else if src.width > MAX_DIMENSION || src.height > MAX_DIMENSION || dst.width > MAX_DIMENSION
        || dst.height > MAX_DIMENSION {
        Some(ResizeError::InvalidBufferSize)
    } else if src.data.len() != src.width * src.height * psz || dst.data.len() != dst.width
        * dst.height * psz {
        Some(ResizeError::InvalidBufferSize)
    } else if (alg is Convolution) && src.width != dst.width && src.height != dst.height
        && dst.width * src.height * psz > usize::MAX {
        Some(ResizeError::InvalidBufferSize)
    } else {
        None
    }
}

/// What a successful convolution resize produced: an exact copy when both
/// dimensions are unchanged, one pass when one axis is unchanged, otherwise
/// a horizontal pass into an intermediate buffer followed by a vertical
/// pass — each pass pinned to its coefficients' windows and weights.
pub open spec fn convolution_post(filter: FilterType, src: Image, dst0: Image, dst1: Image) -> bool {
    let pt = src.pixel_type;
    let sw = src.width as int;
    let sh = src.height as int;
    let dw = dst0.width as int;
    let dh = dst0.height as int;
    if sw == dw && sh == dh {
        dst1.data@ == src.data@
    } else if sh == dh {
        exists|hc: AxisCoefficients|
            #[trigger] coefficients_wf(hc, sw, dw) && coefficients_windows_exact(hc, sw, dw, filter)
                && coefficients_weights_exact(hc, sw, dw, filter) && row_pass_post(
                src.data@,
                dst1.data@,
                pt,
                sw,
                sh,
                dw,
                hc,
            )
    } else if sw == dw {
        exists|vc: AxisCoefficients|
            #[trigger] coefficients_wf(vc, sh, dh) && coefficients_windows_exact(vc, sh, dh, filter)
                && coefficients_weights_exact(vc, sh, dh, filter) && col_pass_post(
                src.data@,
                dst1.data@,
                pt,
                sw,
                sh,
                dh,
                vc,
            )
    } else {
        exists|hc: AxisCoefficients, vc: AxisCoefficients, mid: Seq<u8>|
            coefficients_wf(hc, sw, dw) && #[trigger] coefficients_wf(vc, sh, dh)
                && coefficients_windows_exact(hc, sw, dw, filter) && coefficients_windows_exact(
                vc,
                sh,
                dh,
                filter,
            ) && coefficients_weights_exact(hc, sw, dw, filter) && coefficients_weights_exact(
                vc,
                sh,
                dh,
                filter,
            ) && #[trigger] row_pass_post(src.data@, mid, pt, sw, sh, dw, hc) && col_pass_post(
                mid,
                dst1.data@,
                pt,
                dw,
                sh,
                dh,
                vc,
            )
    }
}

/// What a successful resize guarantees: the destination keeps its declared
/// geometry, every output channel lies within the pixel type's range, equal
/// dimensions give a byte-for-byte copy, and the configured algorithm's
/// exact contract holds. The CPU capability does not appear: every backend
/// produces the same result.
pub open spec fn resize_ok_post(alg: ResizeAlg, src: Image, dst0: Image, dst1: Image) -> bool {
    let pt = src.pixel_type;
    &&& dst1.width == dst0.width
    &&& dst1.height == dst0.height
    &&& dst1.pixel_type == dst0.pixel_type
    &&& dst1.data.len() == dst0.width * dst0.height * pt.pixel_size_spec()
    &&& forall|x: int, y: int, c: int|
        0 <= x < dst0.width && 0 <= y < dst0.height && 0 <= c < pt.channel_count_spec()
            ==> pt.channel_min_spec() <= #[trigger] channel_at(
            pt,
            dst1.data@,
            dst0.width as int,
            x,
            y,
            c,
        ) <= pt.channel_max_spec()
    &&& (src.width == dst0.width && src.height == dst0.height ==> dst1.data@ == src.data@)
    &&& (alg is Nearest ==> nearest_post(
        src.data@,
        dst1.data@,
        pt,
        src.width as int,
        src.height as int,
        dst0.width as int,
        dst0.height as int,
    ))
    &&& (alg matches ResizeAlg::Convolution(f) ==> convolution_post(f, src, dst0, dst1))
}

/// Law (identity resize): resizing an image to its own dimensions returns
/// a buffer equal to the source, byte for byte, for every algorithm and
/// filter.
pub proof fn lemma_identity_resize(alg: ResizeAlg, src: Image, dst0: Image, dst1: Image)
    requires
        resize_ok_post(alg, src, dst0, dst1),
        src.width == dst0.width,
        src.height == dst0.height,
    ensures
        dst1.data@ == src.data@,
{
}

/// Law (channel range preservation): every output channel of a successful
/// resize lies within the pixel type's representable range, for all filters
/// including those with negative lobes.
pub proof fn lemma_channel_range_preservation(
    alg: ResizeAlg,
    src: Image,
    dst0: Image,
    dst1: Image,
    x: int,
    y: int,
    c: int,
)
    requires
        resize_ok_post(alg, src, dst0, dst1),
        0 <= x < dst0.width,
        0 <= y < dst0.height,
        0 <= c < src.pixel_type.channel_count_spec(),
    ensures
        src.pixel_type.channel_min_spec() <= channel_at(
            src.pixel_type,
            dst1.data@,
            dst0.width as int,
            x,
            y,
            c,
        ) <= src.pixel_type.channel_max_spec(),
{
}

/// Law (backend equivalence): two successful resize calls with the same
/// algorithm, source and destination geometry produce outputs that agree on
/// every channel of every pixel — whatever CPU capability each call used,
/// since [`resize_ok_post`] pins the result without mentioning the
/// capability.
pub proof fn lemma_backend_equivalence(
    alg: ResizeAlg,
    src: Image,
    dst0: Image,
    d1: Image,
    d2: Image,
)
    requires
        resize_ok_post(alg, src, dst0, d1),
        resize_ok_post(alg, src, dst0, d2),
        validate_spec(alg, src, dst0) is None,
    ensures
        d1.data.len() == d2.data.len(),
        forall|x: int, y: int, c: int|
            0 <= x < dst0.width && 0 <= y < dst0.height && 0 <= c
                < src.pixel_type.channel_count_spec() ==> #[trigger] channel_at(
                src.pixel_type,
                d1.data@,
                dst0.width as int,
                x,
                y,
                c,
            ) == channel_at(src.pixel_type, d2.data@, dst0.width as int, x, y, c),
{
    let pt = src.pixel_type;
    let sw = src.width as int;
    let sh = src.height as int;
    let dw = dst0.width as int;
    let dh = dst0.height as int;
    if sw == dw && sh == dh {
        assert(d1.data@ == src.data@ && d2.data@ == src.data@);
    } else {
        match alg {
            ResizeAlg::Nearest => {
                lemma_nearest_outputs_agree(src.data@, d1.data@, d2.data@, pt, sw, sh, dw, dh);
            },
            ResizeAlg::Convolution(f) => {
                if sh == dh {
                    let hc1 = choose|hc: AxisCoefficients|
                        #[trigger] coefficients_wf(hc, sw, dw) && coefficients_windows_exact(
                            hc,
                            sw,
                            dw,
                            f,
                        ) && coefficients_weights_exact(hc, sw, dw, f) && row_pass_post(
                            src.data@,
                            d1.data@,
                            pt,
                            sw,
                            sh,
                            dw,
                            hc,
                        );
                    let hc2 = choose|hc: AxisCoefficients|
                        #[trigger] coefficients_wf(hc, sw, dw) && coefficients_windows_exact(
                            hc,
                            sw,
                            dw,
                            f,
                        ) && coefficients_weights_exact(hc, sw, dw, f) && row_pass_post(
                            src.data@,
                            d2.data@,
                            pt,
                            sw,
                            sh,
                            dw,
                            hc,
                        );
                    assert forall|x: int, y: int, c: int|
                        0 <= x < dw && 0 <= y < dh && 0 <= c
                            < pt.channel_count_spec() implies #[trigger] channel_at(
                        pt,
                        d1.data@,
                        dw,
                        x,
                        y,
                        c,
                    ) == channel_at(pt, d2.data@, dw, x, y, c) by {
                        assert(hc1.bounds@[x].start == hc2.bounds@[x].start);
                        assert(hc1.weights@[x]@ == hc2.weights@[x]@);
                    }
                } else if sw == dw {
                    let vc1 = choose|vc: AxisCoefficients|
                        #[trigger] coefficients_wf(vc, sh, dh) && coefficients_windows_exact(
                            vc,
                            sh,
                            dh,
                            f,
                        ) && coefficients_weights_exact(vc, sh, dh, f) && col_pass_post(
                            src.data@,
                            d1.data@,
                            pt,
                            sw,
                            sh,
                            dh,
                            vc,
                        );
                    let vc2 = choose|vc: AxisCoefficients|
                        #[trigger] coefficients_wf(vc, sh, dh) && coefficients_windows_exact(
                            vc,
                            sh,
                            dh,
                            f,
                        ) && coefficients_weights_exact(vc, sh, dh, f) && col_pass_post(
                            src.data@,
                            d2.data@,
                            pt,
                            sw,
                            sh,
                            dh,
                            vc,
                        );
                    assert forall|x: int, y: int, c: int|
                        0 <= x < dw && 0 <= y < dh && 0 <= c
                            < pt.channel_count_spec() implies #[trigger] channel_at(
                        pt,
                        d1.data@,
                        dw,
                        x,
                        y,
                        c,
                    ) == channel_at(pt, d2.data@, dw, x, y, c) by {
                        assert(vc1.bounds@[y].start == vc2.bounds@[y].start);
                        assert(vc1.weights@[y]@ == vc2.weights@[y]@);
                    }
                } else {
                    let (hc1, vc1, m1) = choose|
                        hc: AxisCoefficients,
                        vc: AxisCoefficients,
                        mid: Seq<u8>,
                    |
                        coefficients_wf(hc, sw, dw) && #[trigger] coefficients_wf(vc, sh, dh)
                            && coefficients_windows_exact(hc, sw, dw, f)
                            && coefficients_windows_exact(vc, sh, dh, f)
                            && coefficients_weights_exact(hc, sw, dw, f)
                            && coefficients_weights_exact(vc, sh, dh, f)
                            && #[trigger] row_pass_post(src.data@, mid, pt, sw, sh, dw, hc)
                            && col_pass_post(mid, d1.data@, pt, dw, sh, dh, vc);
                    let (hc2, vc2, m2) = choose|
                        hc: AxisCoefficients,
                        vc: AxisCoefficients,
                        mid: Seq<u8>,
                    |
                        coefficients_wf(hc, sw, dw) && #[trigger] coefficients_wf(vc, sh, dh)
                            && coefficients_windows_exact(hc, sw, dw, f)
                            && coefficients_windows_exact(vc, sh, dh, f)
                            && coefficients_weights_exact(hc, sw, dw, f)
                            && coefficients_weights_exact(vc, sh, dh, f)
                            && #[trigger] row_pass_post(src.data@, mid, pt, sw, sh, dw, hc)
                            && col_pass_post(mid, d2.data@, pt, dw, sh, dh, vc);
                    assert forall|x: int, yy: int, c: int|
                        0 <= x < dw && 0 <= yy < sh && 0 <= c
                            < pt.channel_count_spec() implies #[trigger] channel_at(
                        pt,
                        m1,
                        dw,
                        x,
                        yy,
                        c,
                    ) == channel_at(pt, m2, dw, x, yy, c) by {
                        assert(hc1.bounds@[x].start == hc2.bounds@[x].start);
                        assert(hc1.weights@[x]@ == hc2.weights@[x]@);
                    }
                    assert forall|x: int, y: int, c: int|
                        0 <= x < dw && 0 <= y < dh && 0 <= c
                            < pt.channel_count_spec() implies #[trigger] channel_at(
                        pt,
                        d1.data@,
                        dw,
                        x,
                        y,
                        c,
                    ) == channel_at(pt, d2.data@, dw, x, y, c) by {
                        assert(vc1.bounds@[y].start == vc2.bounds@[y].start);
                        assert(vc1.weights@[y]@ == vc2.weights@[y]@);
                        assert(coefficient_line_wf(vc1.bounds@[y], vc1.weights@[y]@, sh));
                        lemma_col_sum_agrees(
                            m1,
                            m2,
                            pt,
                            dw,
                            x,
                            c,
                            vc1.bounds@[y].start as int,
                            vc1.weights@[y]@,
                        );
                    }
                }
            },
        }
    }
}

/// Every channel of any raster of declared geometry decodes to a value in
/// its pixel type's range.
proof fn lemma_raster_channels_in_range(pt: PixelType, data: Seq<u8>, width: int, height: int)
    requires
        data.len() == width * height * pt.pixel_size_spec(),
        0 <= width,
        0 <= height,
    ensures
        forall|x: int, y: int, c: int|
            0 <= x < width && 0 <= y < height && 0 <= c < pt.channel_count_spec()
                ==> pt.channel_min_spec() <= #[trigger] channel_at(pt, data, width, x, y, c)
                <= pt.channel_max_spec(),
{
    assert forall|x: int, y: int, c: int|
        0 <= x < width && 0 <= y < height && 0 <= c < pt.channel_count_spec()
            implies pt.channel_min_spec() <= #[trigger] channel_at(pt, data, width, x, y, c)
        <= pt.channel_max_spec() by {
        lemma_channel_offset_in_bounds(pt, width, height, x, y, c);
        lemma_channel_decode_in_range(
            pt,
            data,
            crate::pixels::channel_offset(pt, width, x, y, c),
        );
    }
}

/// Copy a byte buffer.
fn copy_bytes(src: &Vec<u8>) -> (r: Vec<u8>)
    ensures
        r@ == src@,
{
    let n = src.len();
    let mut r: Vec<u8> = Vec::new();
    for i in 0..n
        invariant
            n == src.len(),
            r.len() == i,
            forall|j: int| 0 <= j < i ==> r@[j] == src@[j],
    {
        r.push(src[i]);
    }
    proof {
        assert(r@ =~= src@);
    }
    r
}

/// The resize façade: one algorithm, one CPU capability, one operation.
pub struct Resizer {
    /// The configured algorithm.
    pub alg: ResizeAlg,
    /// The configured CPU capability.
    pub cpu_extensions: CpuExtensions,
}

impl Resizer {
    /// A resizer with the scalar baseline capability. Capability detection
    /// is a platform query that lives outside the engine; pass a detected
    /// value through [`Resizer::with_cpu_extensions`] or
    /// [`Resizer::try_set_cpu_extensions`].
    pub fn new(alg: ResizeAlg) -> (r: Resizer)
        ensures
            r.alg == alg,
            r.cpu_extensions == CpuExtensions::Scalar,
    {
        Resizer { alg, cpu_extensions: CpuExtensions::Scalar }
    }

    /// A resizer with an explicit CPU capability.
    pub fn with_cpu_extensions(alg: ResizeAlg, cpu_extensions: CpuExtensions) -> (r: Resizer)
        ensures
            r.alg == alg,
            r.cpu_extensions == cpu_extensions,
    {
        Resizer { alg, cpu_extensions }
    }

    /// The configured algorithm.
    pub fn alg(&self) -> (r: ResizeAlg)
        ensures
            r == self.alg,
    {
        self.alg
    }

    /// The configured CPU capability.
    pub fn cpu_extensions(&self) -> (r: CpuExtensions)
        ensures
            r == self.cpu_extensions,
    {
        self.cpu_extensions
    }

    /// Force a CPU capability. Unlike engines whose backends are raw
    /// intrinsics, every backend here is safe verified code with the same
    /// contract, so no value can fault or change the result.
    pub fn set_cpu_extensions(&mut self, cpu_extensions: CpuExtensions)
        ensures
            final(self).alg == old(self).alg,
            final(self).cpu_extensions == cpu_extensions,
    {
        self.cpu_extensions = cpu_extensions;
    }

    /// Force a CPU capability, checking it against a detected capability
    /// and failing loudly when it is not supported.
    pub fn try_set_cpu_extensions(
        &mut self,
        cpu_extensions: CpuExtensions,
        detected: CpuExtensions,
    ) -> (r: Result<(), ResizeError>)
        ensures
            cpu_extensions.supported_by_spec(detected) <==> r is Ok,
            r is Ok ==> final(self).cpu_extensions == cpu_extensions && final(self).alg == old(
                self,
            ).alg,
            r is Err ==> *final(self) == *old(self) && r == Result::<(), ResizeError>::Err(
                ResizeError::UnsupportedCpuExtension,
            ),
    {
        if cpu_extensions.supported_by(detected) {
            self.cpu_extensions = cpu_extensions;
            Ok(())
        } else {
            Err(ResizeError::UnsupportedCpuExtension)
        }
    }

    /// Resize `src` into `dst`. Validation happens first and is pinned by
    /// [`validate_spec`]; a failing call leaves `dst` untouched. A
    /// successful call fills `dst` as [`resize_ok_post`] states — the same
    /// bytes for every CPU capability.
    pub fn resize(&self, src: &Image, dst: &mut Image) -> (r: Result<(), ResizeError>)
        ensures
            (match r {
                Ok(()) => validate_spec(self.alg, *src, *old(dst)) is None,
                Err(e) => validate_spec(self.alg, *src, *old(dst)) == Some(e),
            }),
            r is Err ==> *final(dst) == *old(dst),
            r is Ok ==> resize_ok_post(self.alg, *src, *old(dst), *final(dst)),
    {
        if src.pixel_type != dst.pixel_type {
            return Err(ResizeError::PixelTypeMismatch);
        }
        if src.width == 0 || src.height == 0 || dst.width == 0 || dst.height == 0 {
            return Err(ResizeError::InvalidZeroDimension);
        }
        if src.width > MAX_DIMENSION || src.height > MAX_DIMENSION || dst.width > MAX_DIMENSION
            || dst.height > MAX_DIMENSION {
            return Err(ResizeError::InvalidBufferSize);
        }
        let pt = src.pixel_type;
        let psz = pt.pixel_size();
        proof {
            assert(src.width as int * src.height as int <= 0x1_0000_0000_0000 && (src.width as int
                * src.height as int) * psz as int <= 0x8_0000_0000_0000 && dst.width as int
                * dst.height as int <= 0x1_0000_0000_0000 && (dst.width as int
                * dst.height as int) * psz as int <= 0x8_0000_0000_0000 && dst.width as int
                * src.height as int <= 0x1_0000_0000_0000 && (dst.width as int
                * src.height as int) * psz as int <= 0x8_0000_0000_0000)
                by (nonlinear_arith)
                requires
                    1 <= src.width <= 0x100_0000,
                    1 <= src.height <= 0x100_0000,
                    1 <= dst.width <= 0x100_0000,
                    1 <= dst.height <= 0x100_0000,
                    1 <= psz <= 8,
            ;
        }
        let src_bytes = (src.width as u64) * (src.height as u64) * (psz as u64);
        let dst_bytes = (dst.width as u64) * (dst.height as u64) * (psz as u64);
        if (src.data.len() as u64) != src_bytes || (dst.data.len() as u64) != dst_bytes {
            return Err(ResizeError::InvalidBufferSize);
        }
        match self.alg {
            ResizeAlg::Nearest => {
                if src.width == dst.width && src.height == dst.height {
                    let copied = copy_bytes(&src.data);
                    dst.data = copied;
                    proof {
                        lemma_equal_size_nearest(
                            src.data@,
                            dst.data@,
                            pt,
                            src.width as int,
                            src.height as int,
                        );
                        lemma_raster_channels_in_range(
                            pt,
                            dst.data@,
                            dst.width as int,
                            dst.height as int,
                        );
                    }
                } else {
                    let out = resize_nearest(
                        &src.data,
                        pt,
                        src.width,
                        src.height,
                        dst.width,
                        dst.height,
                    );
                    dst.data = out;
                    proof {
                        lemma_raster_channels_in_range(
                            pt,
                            dst.data@,
                            dst.width as int,
                            dst.height as int,
                        );
                    }
                }
                Ok(())
            },
            ResizeAlg::Convolution(filter) => {
                if src.width == dst.width && src.height == dst.height {
                    let copied = copy_bytes(&src.data);
                    dst.data = copied;
                    proof {
                        lemma_raster_channels_in_range(
                            pt,
                            dst.data@,
                            dst.width as int,
                            dst.height as int,
                        );
                    }
                    Ok(())
                } else if src.height == dst.height {
                    let hc = compute_coefficients(src.width, dst.width, filter);
                    let out = convolve_rows(
                        self.cpu_extensions,
                        &src.data,
                        pt,
                        src.width,
                        src.height,
                        dst.width,
                        &hc,
                    );
                    dst.data = out;
                    proof {
                        assert(coefficients_wf(hc, src.width as int, dst.width as int)
                            && coefficients_windows_exact(
                            hc,
                            src.width as int,
                            dst.width as int,
                            filter,
                        ) && coefficients_weights_exact(
                            hc,
                            src.width as int,
                            dst.width as int,
                            filter,
                        ) && row_pass_post(
                            src.data@,
                            dst.data@,
                            pt,
                            src.width as int,
                            src.height as int,
                            dst.width as int,
                            hc,
                        ));
                        lemma_raster_channels_in_range(
                            pt,
                            dst.data@,
                            dst.width as int,
                            dst.height as int,
                        );
                    }
                    Ok(())
                } else if src.width == dst.width {
                    let vc = compute_coefficients(src.height, dst.height, filter);
                    let out = convolve_cols(
                        self.cpu_extensions,
                        &src.data,
                        pt,
                        src.width,
                        src.height,
                        dst.height,
                        &vc,
                    );
                    dst.data = out;
                    proof {
                        assert(coefficients_wf(vc, src.height as int, dst.height as int)
                            && coefficients_windows_exact(
                            vc,
                            src.height as int,
                            dst.height as int,
                            filter,
                        ) && coefficients_weights_exact(
                            vc,
                            src.height as int,
                            dst.height as int,
                            filter,
                        ) && col_pass_post(
                            src.data@,
                            dst.data@,
                            pt,
                            src.width as int,
                            src.height as int,
                            dst.height as int,
                            vc,
                        ));
                        lemma_raster_channels_in_range(
                            pt,
                            dst.data@,
                            dst.width as int,
                            dst.height as int,
                        );
                    }
                    Ok(())
                } else {
                    let mid_bytes = (dst.width as u64) * (src.height as u64) * (psz as u64);
                    if mid_bytes > usize::MAX as u64 {
                        return Err(ResizeError::InvalidBufferSize);
                    }
                    let hc = compute_coefficients(src.width, dst.width, filter);
                    let vc = compute_coefficients(src.height, dst.height, filter);
                    let mid = convolve_rows(
                        self.cpu_extensions,
                        &src.data,
                        pt,
                        src.width,
                        src.height,
                        dst.width,
                        &hc,
                    );
                    let out = convolve_cols(
                        self.cpu_extensions,
                        &mid,
                        pt,
                        dst.width,
                        src.height,
                        dst.height,
                        &vc,
                    );
                    dst.data = out;
                    proof {
                        assert(coefficients_wf(hc, src.width as int, dst.width as int)
                            && coefficients_wf(vc, src.height as int, dst.height as int)
                            && coefficients_windows_exact(
                            hc,
                            src.width as int,
                            dst.width as int,
                            filter,
                        ) && coefficients_windows_exact(
                            vc,
                            src.height as int,
                            dst.height as int,
                            filter,
                        ) && coefficients_weights_exact(
                            hc,
                            src.width as int,
                            dst.width as int,
                            filter,
                        ) && coefficients_weights_exact(
                            vc,
                            src.height as int,
                            dst.height as int,
                            filter,
                        ) && row_pass_post(
                            src.data@,
                            mid@,
                            pt,
                            src.width as int,
                            src.height as int,
                            dst.width as int,
                            hc,
                        ) && col_pass_post(
                            mid@,
                            dst.data@,
                            pt,
                            dst.width as int,
                            src.height as int,
                            dst.height as int,
                            vc,
                        ));
                        lemma_raster_channels_in_range(
                            pt,
                            dst.data@,
                            dst.width as int,
                            dst.height as int,
                        );
                    }
                    Ok(())
                }
            },
        }
    }
}

/// A copy is exactly what nearest-neighbor sampling produces when the
/// dimensions are unchanged: the nearest source index of `d` is `d` itself.
proof fn lemma_equal_size_nearest(src: Seq<u8>, out: Seq<u8>, pt: PixelType, w: int, h: int)
    requires
        out == src,
        src.len() == w * h * pt.pixel_size_spec(),
        1 <= w,
        1 <= h,
    ensures
        nearest_post(src, out, pt, w, h, w, h),
{
    assert forall|d: int, n: int| 0 <= d < n implies #[trigger] crate::coefficients::nearest_index_spec(
        n,
        n,
        d,
    ) == d by {
        assert((2 * d + 1) * n == d * (2 * n) + n) by (nonlinear_arith);
        vstd::arithmetic::div_mod::lemma_fundamental_div_mod_converse((2 * d + 1) * n, 2 * n, d, n);
    }
    assert forall|dx: int, dy: int| 0 <= dx < w && 0 <= dy < h implies #[trigger] pixel_copied(
        src,
        out,
        pt,
        w,
        w,
        dx,
        dy,
        crate::coefficients::nearest_index_spec(w, w, dx),
        crate::coefficients::nearest_index_spec(h, h, dy),
    ) by {
        assert(crate::coefficients::nearest_index_spec(w, w, dx) == dx);
        assert(crate::coefficients::nearest_index_spec(h, h, dy) == dy);
        assert forall|k: int| 0 <= k < pt.pixel_size_spec() implies out[#[trigger] pixel_byte(
            w,
            pt.pixel_size_spec() as int,
            dx,
            dy,
            k,
        )] == src[pixel_byte(w, pt.pixel_size_spec() as int, dx, dy, k)] by {
        }
    }
}

} // verus!
