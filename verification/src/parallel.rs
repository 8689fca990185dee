//! The data-parallel execution strategy for the evolution stepper. The one
//! trusted item of this crate lives here: a wrapper around rayon's parallel
//! map. The per-cell update it distributes is the verified
//! [`next_information`], so the parallel stepper realizes exactly the same
//! `step_field` as the sequential one.

use vstd::prelude::*;
use rayon::iter::{IntoParallelIterator, ParallelIterator};
use crate::constants::{MAX_DIFFUSION, MAX_INFORMATION, MAX_RESOLUTION, MAX_TIME_STEP};
use crate::dynamics::{cells_bounded, densities, next_information, step_cell};
use crate::scalar::Information;

verus! {

/// Relies on rayon's `IntoParallelIterator` for ranges and on
/// `ParallelIterator::map` and `collect`: the map applies the verified
/// per-cell update `next_information` to every index of `0..field.len()`, and
/// collecting an indexed parallel iterator into a `Vec` preserves index
/// order. Each unit of work reads only the shared pre-step field and produces
/// one slot of the next buffer, so the result holds, in order, the one-step
/// update of every cell.
#[verifier::external_body]
pub(crate) fn step_all_cells_parallel(field: &Vec<Information>, res: usize, d: u64, dt: u64) -> (r:
    Vec<Information>)
    requires
        2 <= res <= MAX_RESOLUTION,
        field@.len() == res * res * res,
        cells_bounded(densities(field@)),
        d <= MAX_DIFFUSION,
        dt <= MAX_TIME_STEP,
    ensures
        r@.len() == field@.len(),
        forall|m: int|
            0 <= m < field@.len() ==> (#[trigger] r@[m])@ == step_cell(
                densities(field@),
                res as int,
                d as int,
                dt as int,
                m,
            ),
        forall|m: int| 0 <= m < field@.len() ==> 0 <= (#[trigger] r@[m])@ <= MAX_INFORMATION,
{
    (0..field.len()).into_par_iter().map(|n| next_information(field, n, res, d, dt)).collect()
}

} // verus!
