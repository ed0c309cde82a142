//! A CPU-feature snapshot, computed once at key-setup time and threaded
//! explicitly through every call that needs it. Forcing a specific backend
//! (for tests) is just passing a different value.

use vstd::prelude::*;

verus! {

/// Which acceleration-relevant features the CPU reports. All false selects
/// the constant-time software fallback.
#[derive(Clone, Copy, Debug, PartialEq, Eq, Structural)]
pub struct Features {
    /// Polynomial multiply (carry-less) on ARM.
    pub pmull: bool,
    /// NEON vector unit on ARM.
    pub neon: bool,
    /// FXSR on x86 family.
    pub fxsr: bool,
    /// Carry-less multiply on x86 family.
    pub pclmulqdq: bool,
    /// AVX on x86-64.
    pub avx: bool,
    /// MOVBE on x86-64.
    pub movbe: bool,
}

impl Features {
    /// A snapshot with no acceleration: the portable fallback path.
    pub fn none() -> (r: Features)
        ensures
            r == (Features {
                pmull: false,
                neon: false,
                fxsr: false,
                pclmulqdq: false,
                avx: false,
                movbe: false,
            }),
    {
        Features { pmull: false, neon: false, fxsr: false, pclmulqdq: false, avx: false, movbe: false }
    }
}

} // verus!
