//! Fixed-point constants of the information-field model.
//!
//! Densities, coordinates, diffusion coefficients and time steps are all
//! carried as integers in units of one millionth: a stored value `v` stands
//! for the real quantity `v / SCALE`. This keeps every computation of the
//! library exact and verifiable; callers that prefer real-number units
//! convert at the boundary.

use vstd::prelude::*;

verus! {

/// One whole unit in fixed-point representation (10^6 sub-units).
pub const SCALE: u64 = 1_000_000;

/// `SCALE * SCALE`, the divisor that brings a product of two fixed-point
/// factors back to fixed point.
pub const SCALE_SQ: u64 = 1_000_000_000_000;

/// Maximum information density: 16 bits, in fixed point.
pub const MAX_INFORMATION: u64 = 16_000_000;

/// Minimum information density.
pub const MIN_INFORMATION: u64 = 0;

/// Integration threshold, `1/sqrt(2)` bits rounded to fixed point.
/// A cell at or above this density counts as conscious.
pub const INTEGRATION_THRESHOLD: u64 = 707_107;

/// Vacuum information density at epoch zero: exactly the threshold.
pub const VACUUM_INFORMATION: u64 = INTEGRATION_THRESHOLD;

/// Minimum uncertainty: 0.01, in fixed point.
pub const MIN_UNCERTAINTY: u64 = 10_000;

/// Numerator of the uncertainty law `0.5 / (1 + x)`: one half carried at
/// `SCALE * SCALE`, so that dividing by a fixed-point `SCALE + v` yields a
/// fixed-point quotient.
pub const UNCERTAINTY_NUMERATOR: u64 = 500_000_000_000;

/// Dark energy fraction predicted at the present epoch: 0.73 in fixed point.
pub const DARK_ENERGY_DENSITY: u64 = 730_000;

/// Default diffusion coefficient: 1.0 in fixed point.
pub const DEFAULT_DIFFUSION: u64 = 1_000_000;

/// Default evolution time step: 0.001 in fixed point.
pub const DEFAULT_DT: u64 = 1_000;

/// Default grid side length.
pub const DEFAULT_RESOLUTION: usize = 64;

/// Default lower spatial bound: -4.0 in fixed point.
pub const DEFAULT_BOUND_MIN: i64 = -4_000_000;

/// Default upper spatial bound: 4.0 in fixed point.
pub const DEFAULT_BOUND_MAX: i64 = 4_000_000;

/// Exponential vacuum growth rate per billion years: 0.2032 in fixed point.
pub const EXPONENTIAL_GROWTH_RATE: u64 = 203_200;

/// Present cosmic age in billions of years: 13.8 in fixed point.
pub const CURRENT_COSMIC_AGE_GYR: u64 = 13_800_000;

/// Vacuum information density at the present cosmic age, in fixed point:
/// `(1/sqrt(2)) * exp(0.2032 * 13.8)`, about 11.6766 bits, rounded.
pub const CURRENT_VACUUM: u64 = 11_676_595;

/// Electric coupling constant, in units of 10^-9 V*m^2/bit: 3.01e-5.
pub const ALPHA_EM: u64 = 30_100;

/// Magnetic coupling constant, in units of 10^-21 A*m^2*s/(bit*m): 1.60e-19.
pub const BETA_EM: u64 = 160;

/// Information processing velocity: 100 m/s, in fixed point.
pub const CONSCIOUSNESS_VELOCITY: u64 = 100_000_000;

/// Largest grid side length the library accepts; keeps `resolution^3`
/// cells within `usize` and every aggregate sum within `u64`.
pub const MAX_RESOLUTION: usize = 1_024;

/// Largest magnitude of a spatial bound, in fixed point (a million units).
pub const MAX_BOUND: i64 = 1_000_000_000_000;

/// Largest diffusion coefficient, in fixed point (a million units).
pub const MAX_DIFFUSION: u64 = 1_000_000_000_000;

/// Largest time step, in fixed point (a million units).
pub const MAX_TIME_STEP: u64 = 1_000_000_000_000;

} // verus!
