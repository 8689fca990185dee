//! A verified 3D information-density field evolved by an explicit
//! finite-difference reaction-diffusion update.
//!
//! Every quantity is carried in fixed point (see [`constants::SCALE`]): the
//! arithmetic of the update kernel, the coordinate mapping and the aggregate
//! queries is exact integer arithmetic, so every contract in this crate is
//! precise rather than a tolerance claim.

use vstd::prelude::*;

pub use crate::reality::Reality;

use crate::constants::{CURRENT_VACUUM, SCALE, VACUUM_INFORMATION};
use crate::scalar::clamp_fp;

pub mod constants;
pub mod deposit;
pub mod dynamics;
pub mod grid;
pub mod parallel;
pub mod reality;
pub mod scalar;
pub mod snapshot;

verus! {

pub use crate::deposit::DepositKernel;
pub use crate::scalar::Information;
pub use crate::snapshot::Snapshot;
pub use crate::snapshot::SnapshotStream;

/// The cells of the field `r0` after the positions of `positions` have each
/// received `amplitude`, one deposit at a time in order: every in-domain
/// position raises its nearest cell, re-clamped; out-of-domain positions are
/// skipped.
pub open spec fn deposits_folded(
    r0: Reality,
    cells: Seq<int>,
    positions: Seq<(int, int, int)>,
    amplitude: int,
) -> Seq<int>
    decreases positions.len(),
{
    if positions.len() == 0 {
        cells
    } else {
        let rest = deposits_folded(r0, cells, positions.drop_last(), amplitude);
        match r0.spec_position_to_index(positions.last()) {
            Ok(idx) => rest.update(idx, clamp_fp(rest[idx] + amplitude)),
            Err(_) => rest,
        }
    }
}

/// Create the default field initialized to the present-epoch vacuum.
pub fn vacuum_reality() -> (r: Reality)
    ensures
        r.wf(),
        r.spec_step() == 0,
        r.spec_vacuum() == CURRENT_VACUUM,
        forall|m: int| 0 <= m < r.cells().len() ==> r.cells()[m] == CURRENT_VACUUM,
{
    Reality::from_vacuum()
}

/// Create the default vacuum field with one localized perturbation already
/// deposited.
pub fn reality_with_information(position: (i64, i64, i64), amplitude: i64) -> (r: Reality)
    ensures
        r.wf(),
        r.spec_step() == 0,
        r.spec_vacuum() == CURRENT_VACUUM,
        match r.spec_position_to_index((position.0 as int, position.1 as int, position.2 as int)) {
            Ok(idx) => forall|m: int|
                0 <= m < r.cells().len() ==> r.cells()[m] == (if m == idx {
                    clamp_fp(CURRENT_VACUUM + amplitude)
                } else {
                    CURRENT_VACUUM as int
                }),
            Err(_) => forall|m: int| 0 <= m < r.cells().len() ==> r.cells()[m] == CURRENT_VACUUM,
        },
{
    let mut reality = Reality::from_vacuum();
    let ghost r0 = reality;
    reality.add_information(position, amplitude);
    proof {
        if r0.spec_position_to_index(
            (position.0 as int, position.1 as int, position.2 as int),
        ).is_ok() {
            let idx = r0.spec_position_to_index(
                (position.0 as int, position.1 as int, position.2 as int),
            ).unwrap();
            assert(r0.cells()[idx] == CURRENT_VACUUM);
        }
    }
    reality
}

/// Create a larger field suited to the data-parallel stepper.
pub fn high_performance_reality() -> (r: Reality)
    ensures
        r.wf(),
        r.spec_step() == 0,
        r.spec_resolution() == 96,
        r.spec_vacuum() == CURRENT_VACUUM,
        forall|m: int| 0 <= m < r.cells().len() ==> r.cells()[m] == CURRENT_VACUUM,
{
    Reality::new(96, (-6_000_000, 6_000_000), SCALE, 1_000)
}

/// Create a field sized for gradient studies: finer resolution over a
/// narrower extent, with a larger time step.
pub fn electromagnetic_reality() -> (r: Reality)
    ensures
        r.wf(),
        r.spec_step() == 0,
        r.spec_resolution() == 48,
        r.spec_vacuum() == CURRENT_VACUUM,
        forall|m: int| 0 <= m < r.cells().len() ==> r.cells()[m] == CURRENT_VACUUM,
{
    Reality::new(48, (-3_000_000, 3_000_000), SCALE, 5_000)
}

/// Create the gradient-study field with two whole units of density
/// deposited at every given position, one deposit per position in order.
pub fn consciousness_em_reality(brain_positions: Vec<(i64, i64, i64)>) -> (r: Reality)
    ensures
        r.wf(),
        r.spec_step() == 0,
        r.spec_resolution() == 48,
        r.spec_vacuum() == CURRENT_VACUUM,
        exists|r0: Reality|
            {
                &&& #[trigger] r0.spec_resolution() == r.spec_resolution()
                &&& r0.spec_bound_min() == r.spec_bound_min()
                &&& r0.spec_bound_max() == r.spec_bound_max()
                &&& r0.cells().len() == r.cells().len()
                &&& (forall|m: int| 0 <= m < r0.cells().len() ==> r0.cells()[m] == CURRENT_VACUUM)
                &&& r.cells() == deposits_folded(
                    r0,
                    r0.cells(),
                    brain_positions@.map(
                        |i: int, p: (i64, i64, i64)| (p.0 as int, p.1 as int, p.2 as int),
                    ),
                    2 * SCALE,
                )
            },
{
    let mut reality = electromagnetic_reality();
    let ghost r0 = reality;
    let ghost ps = brain_positions@.map(
        |i: int, p: (i64, i64, i64)| (p.0 as int, p.1 as int, p.2 as int),
    );
    let mut n: usize = 0;
    proof {
        assert(ps.take(0) =~= Seq::<(int, int, int)>::empty());
    }
    while n < brain_positions.len()
        invariant
            n <= brain_positions@.len(),
            ps == brain_positions@.map(
                |i: int, p: (i64, i64, i64)| (p.0 as int, p.1 as int, p.2 as int),
            ),
            reality.wf(),
            reality.spec_step() == 0,
            reality.spec_time() == 0,
            reality.spec_resolution() == r0.spec_resolution(),
            reality.spec_bound_min() == r0.spec_bound_min(),
            reality.spec_bound_max() == r0.spec_bound_max(),
            reality.spec_diffusion() == r0.spec_diffusion(),
            reality.spec_dt() == r0.spec_dt(),
            reality.spec_vacuum() == r0.spec_vacuum(),
            reality.spec_cosmic_age() == r0.spec_cosmic_age(),
            reality.cells().len() == r0.cells().len(),
            r0.wf(),
            r0.spec_resolution() == 48,
            r0.spec_vacuum() == CURRENT_VACUUM,
            forall|m: int| 0 <= m < r0.cells().len() ==> r0.cells()[m] == CURRENT_VACUUM,
            reality.cells() == deposits_folded(r0, r0.cells(), ps.take(n as int), 2 * SCALE),
        decreases brain_positions@.len() - n,
    {
        let p = brain_positions[n];
        proof {
            assert(ps.take(n + 1).drop_last() =~= ps.take(n as int));
            assert(ps.take(n + 1).last() == ps[n as int]);
            assert(ps[n as int] == (p.0 as int, p.1 as int, p.2 as int));
        }
        reality.add_information(p, 2 * (SCALE as i64));
        n = n + 1;
    }
    proof {
        assert(ps.take(brain_positions@.len() as int) =~= ps);
    }
    reality
}

/// Create the primordial field: epoch zero, every cell exactly at the
/// integration threshold.
pub fn primordial_reality() -> (r: Reality)
    ensures
        r.wf(),
        r.spec_step() == 0,
        r.spec_vacuum() == VACUUM_INFORMATION,
        r.spec_cosmic_age() == 0,
        forall|m: int| 0 <= m < r.cells().len() ==> r.cells()[m] == VACUUM_INFORMATION,
{
    Reality::from_primordial_vacuum()
}

} // verus!
