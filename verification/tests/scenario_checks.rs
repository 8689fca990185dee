//! End-to-end scenarios on a small grid, with expected values computed by
//! hand from the fixed-point formulas. Coordinates and densities are fixed
//! point: 1.0 is 1_000_000 units.

use iirt_engine::{DepositKernel, Reality, SnapshotStream};

/// An 8^3 grid over (-1.0, 1.0) with D = 1.0, dt = 0.01 and a uniform
/// baseline of 5.0 bits.
fn small_grid(baseline: u64) -> Reality {
    Reality::new_with_vacuum(8, (-1_000_000, 1_000_000), 1_000_000, 10_000, baseline, 0)
}

/// One step after a point deposit: the perturbed centre cell follows
/// `v + dt * (D * laplacian + rate(v))` exactly.
///
/// The origin maps to cell (4,4,4). After the 2.0 deposit it holds 7.0 bits;
/// its six neighbours hold 5.0, so its Laplacian is -12.0. Its rate is
/// `7 * 9 / 16 - (0.5/8)^2 * 7 = 3.937500 - 0.027343(75)` in bits, truncated
/// on the fixed-point grid: `3_937_500 - 27_343 = 3_910_157`. The change is
/// `0.01 * (-12_000_000 + 3_910_157)` = -80_898.43, floored to -80_899.
#[test]
fn one_step_center_cell_matches_hand_computation() {
    let mut r = small_grid(5_000_000);
    assert!(r.add_information((0, 0, 0), 2_000_000));
    assert_eq!(r.information_at((0, 0, 0)).unwrap().density(), 7_000_000);

    r.evolve();

    assert_eq!(r.information_at((0, 0, 0)).unwrap().density(), 6_919_101);
}

/// The same step, watched from a neighbour of the perturbed cell: its
/// Laplacian sees one raised neighbour (`+2.0`), its rate is
/// `5 * 11 / 16 - (0.5/6)^2 * 5 = 3_437_500 - 34_721`, so it gains
/// `0.01 * (2_000_000 + 3_402_779) = 54_027.79`, floored.
#[test]
fn one_step_neighbor_cell_matches_hand_computation() {
    let mut r = small_grid(5_000_000);
    assert!(r.add_information((0, 0, 0), 2_000_000));

    r.evolve();

    let pos = r.index_to_position(5, 4, 4);
    assert_eq!(r.information_at(pos).unwrap().density(), 5_000_000 + 54_027);
}

/// Boundary-shell cells never change, whatever sequence of steps runs.
#[test]
fn boundary_shell_is_frozen() {
    let mut r = small_grid(5_000_000);
    assert!(r.add_information((0, 0, 0), 2_000_000));
    for _ in 0..7 {
        r.evolve();
    }
    let corner = r.index_to_position(0, 0, 0);
    let face = r.index_to_position(0, 4, 4);
    let edge = r.index_to_position(7, 7, 3);
    assert_eq!(r.information_at(corner).unwrap().density(), 5_000_000);
    assert_eq!(r.information_at(face).unwrap().density(), 5_000_000);
    assert_eq!(r.information_at(edge).unwrap().density(), 5_000_000);
}

/// The sequential and the data-parallel stepper produce bit-identical
/// fields, step after step.
#[test]
fn sequential_and_parallel_steppers_agree_exactly() {
    let mut a = small_grid(5_000_000);
    let mut b = small_grid(5_000_000);
    assert!(a.add_information((250_000, -500_000, 0), 3_000_000));
    assert!(b.add_information((250_000, -500_000, 0), 3_000_000));

    for _ in 0..5 {
        a.evolve();
        b.evolve_parallel();
        assert_eq!(a.total_information(), b.total_information());
        for i in 0..8 {
            for j in 0..8 {
                for k in 0..8 {
                    let p = a.index_to_position(i, j, k);
                    assert_eq!(
                        a.information_at(p).unwrap().density(),
                        b.information_at(p).unwrap().density()
                    );
                }
            }
        }
    }
}

/// Below-threshold baseline: no cell is active before a deposit; one is
/// immediately after a deposit that crosses the threshold; and the count
/// never decreases over subsequent steps.
#[test]
fn active_count_scenario() {
    let mut r = small_grid(500_000);
    assert_eq!(r.conscious_count(), 0);
    assert!(!r.is_conscious());

    assert!(r.add_information((0, 0, 0), 2_000_000));
    assert!(r.conscious_count() >= 1);
    assert!(r.is_conscious());

    let mut prev = r.conscious_count();
    for _ in 0..10 {
        r.evolve();
        let now = r.conscious_count();
        assert!(now >= prev);
        prev = now;
    }
}

/// A deposit outside the domain fails, changes nothing, and lookups there
/// return absence.
#[test]
fn out_of_domain_positions_are_rejected() {
    let mut r = small_grid(5_000_000);
    let before = r.total_information();
    assert!(!r.add_information((2_000_000, 0, 0), 1_000_000));
    assert!(!r.add_information((0, -9_000_000, 0), 1_000_000));
    assert_eq!(r.total_information(), before);
    assert!(r.information_at((2_000_000, 0, 0)).is_none());
    assert!(r.information_at((0, 0, -1_500_001)).is_none());
    // the outermost representable positions still map inside
    assert!(r.information_at((1_000_000, -1_000_000, 0)).is_some());
}

/// Depositing at a cell's exact position touches exactly that cell, and the
/// position round-trips through the index maps.
#[test]
fn deposit_is_local_to_the_target_cell() {
    let mut r = small_grid(5_000_000);
    let target = r.index_to_position(3, 5, 2);
    assert!(r.add_information(target, 1_500_000));
    for i in 0..8 {
        for j in 0..8 {
            for k in 0..8 {
                let p = r.index_to_position(i, j, k);
                let expected = if (i, j, k) == (3, 5, 2) { 6_500_000 } else { 5_000_000 };
                assert_eq!(r.information_at(p).unwrap().density(), expected);
            }
        }
    }
}

/// A deposit re-clamps: pushing a cell past the ceiling saturates at 16.0.
#[test]
fn deposit_clamps_at_maximum() {
    let mut r = small_grid(15_000_000);
    assert!(r.add_information((0, 0, 0), 5_000_000));
    assert_eq!(r.information_at((0, 0, 0)).unwrap().density(), 16_000_000);
    assert!(r.add_information((0, 0, 0), -20_000_000));
    assert_eq!(r.information_at((0, 0, 0)).unwrap().density(), 0);
}

/// Exact normalized activity: a uniform 5.0 field is everywhere at
/// `(5.0 - threshold) / (16.0 - threshold)`, floored on the fixed-point
/// grid to 0.280711.
#[test]
fn max_activity_exact_value() {
    let r = small_grid(5_000_000);
    assert_eq!(r.max_activity(), 280_711);
    let below = small_grid(500_000);
    assert_eq!(below.max_activity(), 0);
}

/// The enumeration lists exactly the active cells, with their positions.
#[test]
fn active_cells_enumeration() {
    let mut r = small_grid(500_000);
    assert_eq!(r.active_cells().len(), 0);
    let target = r.index_to_position(2, 3, 4);
    assert!(r.add_information(target, 1_000_000));
    let cells = r.active_cells();
    assert_eq!(cells.len(), 1);
    assert_eq!(cells[0].0, target);
    assert!(cells[0].1 > 0);
    assert_eq!(r.conscious_count(), 1);
}

/// Queries are pure: asking twice with no intervening mutation returns
/// identical results, and leaves the field unchanged.
#[test]
fn queries_are_pure() {
    let mut r = small_grid(5_000_000);
    assert!(r.add_information((0, 0, 0), 2_000_000));
    r.evolve();
    assert_eq!(r.total_information(), r.total_information());
    assert_eq!(r.conscious_count(), r.conscious_count());
    assert_eq!(r.information_created(), r.information_created());
    assert_eq!(r.max_activity(), r.max_activity());
    assert_eq!(
        r.information_at((0, 0, 0)).unwrap().density(),
        r.information_at((0, 0, 0)).unwrap().density()
    );
    let total = r.total_information();
    let _ = r.snapshot();
    assert_eq!(r.total_information(), total);
}

/// Counters advance by exactly one step and one dt per evolution.
#[test]
fn counters_advance() {
    let mut r = small_grid(5_000_000);
    assert_eq!(r.step(), 0);
    assert_eq!(r.time(), 0);
    r.evolve();
    r.evolve();
    r.evolve();
    assert_eq!(r.step(), 3);
    assert_eq!(r.time(), 30_000);
}

/// Total and created agree: created is the total minus the baseline mass.
#[test]
fn information_created_matches_total() {
    let mut r = small_grid(5_000_000);
    assert_eq!(r.information_created(), 0);
    assert!(r.add_information((0, 0, 0), 2_000_000));
    assert_eq!(r.information_created(), 2_000_000);
    let total = r.total_information() as i64;
    assert_eq!(r.information_created(), total - 5_000_000i64 * 512);
}

/// A bounded snapshot stream steps the field once per pull and ends after
/// its bound.
#[test]
fn snapshot_stream_is_bounded_and_steps_once_per_pull() {
    let mut r = small_grid(5_000_000);
    assert!(r.add_information((0, 0, 0), 2_000_000));
    let expected_total_after_one = {
        let mut probe = small_grid(5_000_000);
        assert!(probe.add_information((0, 0, 0), 2_000_000));
        probe.evolve();
        probe.total_information()
    };

    let mut stream = SnapshotStream::new(r, Some(2));
    let first = stream.next_snapshot().unwrap();
    assert_eq!(first.step, 1);
    assert_eq!(first.time, 10_000);
    assert_eq!(first.total, expected_total_after_one);
    assert!(first.conscious);
    assert!(first.conscious_count > 0);
    assert!(first.max_activity > 0);

    let second = stream.next_snapshot().unwrap();
    assert_eq!(second.step, 2);

    assert!(stream.next_snapshot().is_none());
    assert!(stream.next_snapshot().is_none());

    let back = stream.into_reality();
    assert_eq!(back.step(), 2);
}

/// An unbounded stream keeps answering.
#[test]
fn snapshot_stream_unbounded() {
    let r = small_grid(5_000_000);
    let mut stream = SnapshotStream::new(r, None);
    for expected_step in 1..=5u64 {
        let snap = stream.next_snapshot().unwrap();
        assert_eq!(snap.step, expected_step);
    }
}

/// The Gaussian kernel spreads a deposit with shares that fall off with
/// distance, hand-computed from the weight table: the target takes the full
/// amplitude, a face neighbour `floor(1.0 * 39750 / 65536)`, a cell at
/// squared distance 9 only `floor(1.0 * 728 / 65536)`, and cells beyond the
/// three-cell box nothing.
#[test]
fn gaussian_deposit_shares_fall_off_with_distance() {
    let mut r = small_grid(5_000_000);
    let target = r.index_to_position(4, 4, 4);
    assert!(r.deposit(target, 1_000_000, DepositKernel::Gaussian));

    let at = |r: &Reality, i: usize, j: usize, k: usize| {
        let p = r.index_to_position(i, j, k);
        r.information_at(p).unwrap().density()
    };
    assert_eq!(at(&r, 4, 4, 4), 6_000_000); // d2 = 0: the whole amplitude
    assert_eq!(at(&r, 5, 4, 4), 5_606_536); // d2 = 1
    assert_eq!(at(&r, 3, 4, 4), 5_606_536); // symmetric
    assert_eq!(at(&r, 5, 5, 4), 5_367_874); // d2 = 2
    assert_eq!(at(&r, 5, 5, 5), 5_223_129); // d2 = 3
    assert_eq!(at(&r, 6, 4, 4), 5_135_330); // d2 = 4
    assert_eq!(at(&r, 7, 4, 4), 5_011_108); // d2 = 9
    assert_eq!(at(&r, 6, 6, 6), 5_002_471); // d2 = 12
    assert_eq!(at(&r, 0, 4, 4), 5_000_000); // four cells away: untouched
    assert_eq!(at(&r, 0, 0, 0), 5_000_000); // far corner: untouched
}

/// A negative-amplitude Gaussian deposit floors its shares downward.
#[test]
fn gaussian_deposit_negative_amplitude() {
    let mut r = small_grid(5_000_000);
    let target = r.index_to_position(4, 4, 4);
    assert!(r.deposit(target, -1_000_000, DepositKernel::Gaussian));
    let p = r.index_to_position(5, 4, 4);
    assert_eq!(r.information_at(p).unwrap().density(), 5_000_000 - 606_537);
    let c = r.index_to_position(4, 4, 4);
    assert_eq!(r.information_at(c).unwrap().density(), 4_000_000);
}

/// The point kernel through the strategy interface behaves exactly as the
/// direct deposit.
#[test]
fn point_kernel_matches_add_information() {
    let mut a = small_grid(5_000_000);
    let mut b = small_grid(5_000_000);
    assert!(a.deposit((0, 0, 0), 2_000_000, DepositKernel::Point));
    assert!(b.add_information((0, 0, 0), 2_000_000));
    assert_eq!(a.total_information(), b.total_information());
    assert_eq!(
        a.information_at((0, 0, 0)).unwrap().density(),
        b.information_at((0, 0, 0)).unwrap().density()
    );
    // and out of domain it is a failed no-op through either path
    assert!(!a.deposit((5_000_000, 0, 0), 1_000_000, DepositKernel::Gaussian));
    assert_eq!(a.total_information(), b.total_information());
}

/// Mass accounting, observed at runtime: the total after one step equals the
/// total before it plus the sum, over interior cells only, of
/// `dt * (D * laplacian + rate)` floored on the fixed-point grid; the
/// boundary shell contributes nothing. No cell is near the clamp bounds
/// here, so the accounting is exact.
#[test]
fn mass_accounting_over_one_step() {
    let mut r = small_grid(5_000_000);
    assert!(r.add_information((0, 0, 0), 2_000_000));

    let mut expected_change: i128 = 0;
    for i in 1..7 {
        for j in 1..7 {
            for k in 1..7 {
                let lap = r.laplacian(i, j, k) as i128;
                let p = r.index_to_position(i, j, k);
                let rate = r.information_at(p).unwrap().intrinsic_rate() as i128;
                let num = 10_000i128 * (1_000_000i128 * lap + rate * 1_000_000);
                expected_change += num.div_euclid(1_000_000_000_000);
            }
        }
    }

    let before = r.total_information() as i128;
    r.evolve();
    assert_eq!(r.total_information() as i128, before + expected_change);
}
