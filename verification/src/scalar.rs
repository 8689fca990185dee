//! The scalar value stored in one grid cell: a bounded information density
//! with an intrinsic nonlinear rate law.

use vstd::prelude::*;
use crate::constants::{
    INTEGRATION_THRESHOLD, MAX_INFORMATION, MIN_UNCERTAINTY, SCALE, SCALE_SQ,
    UNCERTAINTY_NUMERATOR,
};

verus! {

/// Clamp a fixed-point quantity into the representable density range
/// `[0, MAX_INFORMATION]`.
pub open spec fn clamp_fp(x: int) -> int {
    if x < 0 {
        0
    } else if x > MAX_INFORMATION {
        MAX_INFORMATION as int
    } else {
        x
    }
}

/// Logistic self-amplification `x * (1 - x / MAX)`, in fixed point.
pub open spec fn self_creation_fp(v: int) -> int {
    v * (MAX_INFORMATION - v) / (MAX_INFORMATION as int)
}

/// Uncertainty `max(0.5 / (1 + x), MIN_UNCERTAINTY)`, in fixed point.
pub open spec fn uncertainty_fp(v: int) -> int {
    let u = (UNCERTAINTY_NUMERATOR as int) / (SCALE + v);
    if u > MIN_UNCERTAINTY {
        u
    } else {
        MIN_UNCERTAINTY as int
    }
}

/// Uncertainty-weighted decay `epsilon(x)^2 * x`, in fixed point. The
/// intrinsic rate subtracts this term.
pub open spec fn uncertainty_decay_fp(v: int) -> int {
    uncertainty_fp(v) * uncertainty_fp(v) * v / (SCALE_SQ as int)
}

/// Total intrinsic rate `x * (1 - x / MAX) - epsilon(x)^2 * x`, in fixed
/// point.
pub open spec fn intrinsic_rate_fp(v: int) -> int {
    self_creation_fp(v) - uncertainty_decay_fp(v)
}

/// Information density at a spatial point, clamped to `[0, MAX_INFORMATION]`
/// at construction and immutable afterwards.
#[derive(Clone, Copy, Debug, PartialEq, Eq, Structural)]
pub struct Information {
    bits: u64,
}

impl View for Information {
    type V = int;

    closed spec fn view(&self) -> int {
        self.bits as int
    }
}

impl Information {
    /// Create an information density; any input, including a negative or
    /// super-maximal one, is clamped into `[0, MIN..MAX]`.
    pub fn new(density: i64) -> (r: Information)
        ensures
            r@ == clamp_fp(density as int),
            0 <= r@ <= MAX_INFORMATION,
    {
        if density < 0 {
            Information { bits: 0 }
        } else if density > MAX_INFORMATION as i64 {
            Information { bits: MAX_INFORMATION }
        } else {
            Information { bits: density as u64 }
        }
    }

    /// The stored density, in fixed point.
    pub fn density(&self) -> (r: u64)
        ensures
            r == self@,
    {
        self.bits
    }

    /// Whether the density reaches the integration threshold.
    pub fn is_conscious(&self) -> (r: bool)
        ensures
            r == (self@ >= INTEGRATION_THRESHOLD),
    {
        self.bits >= INTEGRATION_THRESHOLD
    }

    /// The intrinsic rate of this density: self-amplification minus
    /// uncertainty-weighted decay, in fixed point.
    pub fn intrinsic_rate(&self) -> (r: i64)
        requires
            self@ <= MAX_INFORMATION,
        ensures
            r == intrinsic_rate_fp(self@),
            -(MAX_INFORMATION as int) <= r <= MAX_INFORMATION,
    {
        let v: u64 = self.bits;
        assert(v * (MAX_INFORMATION - v) <= MAX_INFORMATION * MAX_INFORMATION)
            by (nonlinear_arith)
            requires
                v <= MAX_INFORMATION,
        ;
        let self_t: u64 = v * (MAX_INFORMATION - v) / MAX_INFORMATION;
        assert(self_t <= MAX_INFORMATION) by (nonlinear_arith)
            requires
                self_t == v * (MAX_INFORMATION - v) / (MAX_INFORMATION as int),
                v * (MAX_INFORMATION - v) <= MAX_INFORMATION * MAX_INFORMATION,
        ;
        let quotient: u64 = UNCERTAINTY_NUMERATOR / (SCALE + v);
        assert(quotient <= 500_000) by (nonlinear_arith)
            requires
                quotient == 500_000_000_000int / (1_000_000 + v),
                v >= 0,
        ;
        let unc: u64 = if quotient > MIN_UNCERTAINTY {
            quotient
        } else {
            MIN_UNCERTAINTY
        };
        assert(unc <= 500_000);
        assert(unc * unc <= 250_000_000_000) by (nonlinear_arith)
            requires
                unc <= 500_000u64,
        ;
        assert(unc * unc * v <= 4_000_000_000_000_000_000) by (nonlinear_arith)
            requires
                unc * unc <= 250_000_000_000,
                v <= 16_000_000u64,
        ;
        let decay: u64 = unc * unc * v / SCALE_SQ;
        assert(decay <= MAX_INFORMATION) by (nonlinear_arith)
            requires
                decay == unc * unc * v / (SCALE_SQ as int),
                unc <= 500_000u64,
                v <= MAX_INFORMATION,
        ;
        self_t as i64 - decay as i64
    }
}

} // verus!
