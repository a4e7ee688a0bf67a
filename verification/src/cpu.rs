//! CPU capability dispatch.
//!
//! A [`CpuExtensions`] value names the vector instruction set a resize call
//! may exploit, ranked per architecture family. Capability detection is a
//! platform query and lives outside the verified engine; callers pass the
//! detected (or forced) value in. Every executor in this engine carries the
//! same exact contract for every capability value — a richer capability may
//! change the batching schedule, never the output — so forcing a value here
//! is safe, and [`CpuExtensions::supported_by`] offers the strict check
//! against a detected capability for callers that want to fail loudly
//! instead.

use vstd::prelude::*;

verus! {

/// Vector instruction sets the engine can be asked to exploit, ordered by
/// capability richness within each architecture family.
#[derive(Clone, Copy, Debug, PartialEq, Eq, Structural)]
pub enum CpuExtensions {
    /// Baseline scalar execution, available on every platform.
    Scalar,
    /// x86 SSE4.1.
    Sse4_1,
    /// x86 AVX2.
    Avx2,
    /// ARM NEON.
    Neon,
    /// WASM SIMD128.
    Simd128,
}

impl CpuExtensions {
    /// Whether an instruction set is available when `detected` is the
    /// capability found on the running machine: the scalar baseline always
    /// is, the detected set itself is, and on x86 a machine with AVX2 also
    /// has SSE4.1.
    pub open spec fn supported_by_spec(self, detected: CpuExtensions) -> bool {
        self == CpuExtensions::Scalar || self == detected || (self == CpuExtensions::Sse4_1
            && detected == CpuExtensions::Avx2)
    }

    /// Whether an instruction set is available when `detected` is the
    /// capability found on the running machine.
    #[verifier::when_used_as_spec(supported_by_spec)]
    pub fn supported_by(self, detected: CpuExtensions) -> (r: bool)
        ensures
            r == self.supported_by_spec(detected),
    {
        match (self, detected) {
            (CpuExtensions::Scalar, _) => true,
            (CpuExtensions::Sse4_1, CpuExtensions::Sse4_1) => true,
            (CpuExtensions::Sse4_1, CpuExtensions::Avx2) => true,
            (CpuExtensions::Avx2, CpuExtensions::Avx2) => true,
            (CpuExtensions::Neon, CpuExtensions::Neon) => true,
            (CpuExtensions::Simd128, CpuExtensions::Simd128) => true,
            _ => false,
        }
    }
}

} // verus!
