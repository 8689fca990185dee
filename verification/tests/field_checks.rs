//! Checks on the evolving field: growth, consciousness detection and
//! multi-center deposits. Coordinates and densities are fixed point:
//! 1.0 is 1_000_000 units.

use iirt_engine::{
    consciousness_em_reality, electromagnetic_reality, reality_with_information, vacuum_reality,
    Reality,
};

#[test]
fn test_iirt_equation() {
    let mut reality = Reality::from_vacuum();
    reality.add_information((0, 0, 0), 2_000_000);

    let initial = reality.total_information();
    reality.evolve();
    let final_info = reality.total_information();

    assert!(final_info > initial);
    assert!(reality.conscious_count() > 0);
}

#[test]
fn test_evolution_dynamics() {
    let mut reality = reality_with_information((0, 0, 0), 1_500_000);

    let initial_info = reality.total_information();
    let _initial_conscious = reality.conscious_count();

    reality.evolve();

    let final_info = reality.total_information();
    let final_conscious = reality.conscious_count();

    assert!(final_info > initial_info);
    assert!(final_conscious > 0);
}

#[test]
fn lib_test_information_creation() {
    let mut reality = vacuum_reality();
    reality.add_information((0, 0, 0), 2_000_000);

    let initial = reality.information_created();
    for _ in 0..10 {
        reality.evolve();
        if reality.is_conscious() {
            assert!(reality.information_created() > initial);
            break;
        }
    }
}

#[test]
fn test_consciousness_detection() {
    let mut reality = electromagnetic_reality();

    // Add consciousness (brain-like information density)
    reality.add_information((0, 0, 0), 2_000_000);

    // Evolve to establish patterns
    for _ in 0..20 {
        reality.evolve();
    }

    // Check that consciousness is detected
    assert!(reality.is_conscious());
    assert!(reality.conscious_count() > 0);

    // Check information at center should be above threshold
    if let Some(info) = reality.information_at((0, 0, 0)) {
        assert!(info.is_conscious());
    }
}

#[test]
fn test_multiple_consciousness_centers() {
    // Test multiple consciousness centers
    let brain_positions = vec![(0, 0, 0), (1_000_000, 0, 0)];
    let mut reality = consciousness_em_reality(brain_positions);

    // Evolve to establish patterns
    for _ in 0..30 {
        reality.evolve();
    }

    // Check that both consciousness centers are detected
    assert!(reality.is_conscious());
    assert!(reality.conscious_count() > 100); // Should have many conscious points

    // Check information at both centers
    if let Some(info1) = reality.information_at((0, 0, 0)) {
        assert!(info1.is_conscious());
    }
    if let Some(info2) = reality.information_at((1_000_000, 0, 0)) {
        assert!(info2.is_conscious());
    }
}

/// The data-parallel stepper on the large grid: one step advances the
/// counters and grows the total, exactly as the sequential contract says.
#[test]
fn high_performance_reality_parallel_step() {
    let mut reality = iirt_engine::high_performance_reality();
    let before = reality.total_information();
    reality.evolve_parallel();
    assert!(reality.total_information() > before);
    assert_eq!(reality.step(), 1);
    assert!(reality.is_conscious());
}
