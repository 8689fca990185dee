//! Checks on the scalar value type: clamping, the consciousness threshold
//! and the intrinsic rate law. Densities are fixed point: 1.0 bit is
//! 1_000_000 units.

use iirt_engine::constants::{INTEGRATION_THRESHOLD, MAX_INFORMATION};
use iirt_engine::Information;

#[test]
fn test_consciousness_threshold() {
    assert!(!Information::new(500_000).is_conscious());
    assert!(Information::new(INTEGRATION_THRESHOLD as i64).is_conscious());
    assert!(Information::new(1_000_000).is_conscious());
}

#[test]
fn reality_test_information_creation() {
    let info = Information::new(1_000_000);
    assert!(info.intrinsic_rate() > 0);
}

#[test]
fn lib_test_integration_threshold() {
    let conscious_info = Information::new(1_000_000);
    assert!(conscious_info.is_conscious());

    let unconscious_info = Information::new(500_000);
    assert!(!unconscious_info.is_conscious());
}

/// Any input, negative or super-maximal, is clamped into `[0, MAX]`.
#[test]
fn construction_clamps_into_range() {
    assert_eq!(Information::new(-1).density(), 0);
    assert_eq!(Information::new(i64::MIN).density(), 0);
    assert_eq!(Information::new(0).density(), 0);
    assert_eq!(Information::new(123_456).density(), 123_456);
    assert_eq!(Information::new(MAX_INFORMATION as i64).density(), MAX_INFORMATION);
    assert_eq!(Information::new(MAX_INFORMATION as i64 + 1).density(), MAX_INFORMATION);
    assert_eq!(Information::new(i64::MAX).density(), MAX_INFORMATION);
}

/// One unit below the threshold is inactive; the threshold itself is active.
#[test]
fn threshold_is_sharp() {
    assert!(!Information::new(INTEGRATION_THRESHOLD as i64 - 1).is_conscious());
    assert!(Information::new(INTEGRATION_THRESHOLD as i64).is_conscious());
}

/// The intrinsic rate at 1.0 bit, computed by hand from the fixed-point
/// formulas: the logistic term is `1_000_000 * 15_000_000 / 16_000_000 =
/// 937_500`; the uncertainty is `500_000_000_000 / 2_000_000 = 250_000`;
/// the decay is `250_000^2 * 1_000_000 / 10^12 = 62_500`.
#[test]
fn intrinsic_rate_exact_value_at_one_bit() {
    let rate = Information::new(1_000_000).intrinsic_rate();
    assert_eq!(rate, 937_500 - 62_500);
}

/// The rate vanishes at zero density and is negative at saturation, where
/// only the decay term remains.
#[test]
fn intrinsic_rate_at_extremes() {
    assert_eq!(Information::new(0).intrinsic_rate(), 0);
    // at MAX the logistic term is 0 and the uncertainty is
    // `0.5 / 17 = 0.029411`, so the rate is `-0.029411^2 * 16`, truncated on
    // the fixed-point grid.
    let rate = Information::new(MAX_INFORMATION as i64).intrinsic_rate();
    assert_eq!(rate, -(29_411i64 * 29_411 * 16_000_000 / 1_000_000_000_000));
    assert_eq!(rate, -13_840);
}
