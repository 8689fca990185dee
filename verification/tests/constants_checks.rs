//! Checks on the fixed-point constants: their real-number values and the
//! relationships the model expects between them.

use iirt_engine::constants::{
    ALPHA_EM, BETA_EM, CONSCIOUSNESS_VELOCITY, CURRENT_VACUUM, DARK_ENERGY_DENSITY,
    INTEGRATION_THRESHOLD, MAX_INFORMATION, MIN_UNCERTAINTY, SCALE, VACUUM_INFORMATION,
};

/// The threshold constant is `1/sqrt(2)` rounded to the fixed-point grid.
#[test]
fn threshold_matches_inverse_sqrt2() {
    let expected = 1.0 / 2.0_f64.sqrt();
    let rounded = (expected * SCALE as f64).round() as u64;
    assert_eq!(INTEGRATION_THRESHOLD, rounded);
    assert!((INTEGRATION_THRESHOLD as f64 / SCALE as f64 - expected).abs() < 1e-6);
}

#[test]
fn test_electromagnetic_coupling_constants() {
    // ALPHA_EM is stored in units of 1e-9 V*m^2/bit, BETA_EM in units of
    // 1e-21, CONSCIOUSNESS_VELOCITY in fixed point.
    let alpha_check = ALPHA_EM as f64 * 1e-9;
    let beta_check = BETA_EM as f64 * 1e-21;
    let velocity_check = CONSCIOUSNESS_VELOCITY as f64 / SCALE as f64;

    assert!(alpha_check > 0.0);
    assert!(alpha_check < 1e-3); // Should be small but non-zero

    assert!(beta_check > 0.0);
    assert!(beta_check < 1e-18); // Should be very small (elementary charge scale)

    assert!(velocity_check > 0.0);
    assert!(velocity_check < 1000.0); // Neural speeds are < 1000 m/s
}

#[test]
fn test_dimensional_consistency() {
    // Verify that the coupling constants have the right dimensional structure
    // α_EM should convert [bits/m⁴] to [V/m]
    // β_EM should convert [bits⋅m/s⋅m³] to [A/m²]
    let alpha_dimensional_check = (ALPHA_EM as f64 * 1e-9) * 1.0;
    let beta_dimensional_check = (BETA_EM as f64 * 1e-21) * 1.0;

    assert!(alpha_dimensional_check.is_finite());
    assert!(beta_dimensional_check.is_finite());
    assert!(alpha_dimensional_check > 0.0);
    assert!(beta_dimensional_check > 0.0);
}

/// The stored present-epoch vacuum matches `threshold * exp(rate * age)` and
/// yields the predicted dark-energy fraction.
#[test]
fn current_vacuum_matches_exponential_growth() {
    let expected = (VACUUM_INFORMATION as f64 / SCALE as f64) * (0.2032_f64 * 13.8).exp();
    assert!((CURRENT_VACUUM as f64 / SCALE as f64 - expected).abs() < 1e-5);
    let fraction = CURRENT_VACUUM as f64 / MAX_INFORMATION as f64;
    assert!((fraction - DARK_ENERGY_DENSITY as f64 / SCALE as f64).abs() < 0.01);
}

/// The vacuum starts exactly at the threshold and the uncertainty floor is
/// small and positive.
#[test]
fn constant_relationships() {
    assert_eq!(VACUUM_INFORMATION, INTEGRATION_THRESHOLD);
    assert!(MIN_UNCERTAINTY > 0);
    assert!((MIN_UNCERTAINTY as f64 / SCALE as f64) < 0.1);
    assert!(VACUUM_INFORMATION < MAX_INFORMATION);
}
