//! The 3D information field: grid storage, perturbation injection, the
//! double-buffered evolution stepper and the aggregate query layer.

use vstd::prelude::*;
use crate::constants::{
    CURRENT_COSMIC_AGE_GYR, CURRENT_VACUUM, DEFAULT_BOUND_MAX, DEFAULT_BOUND_MIN,
    DEFAULT_DIFFUSION, DEFAULT_DT, DEFAULT_RESOLUTION, MAX_BOUND, MAX_DIFFUSION,
    MAX_INFORMATION, MAX_RESOLUTION, MAX_TIME_STEP, VACUUM_INFORMATION,
};
use crate::dynamics::{
    activity_fp, activity_of, cells_bounded, conscious_indices, count_conscious, densities,
    laplacian_at, lemma_conscious_indices_count, lemma_conscious_indices_take_step,
    lemma_count_take_step, lemma_max_activity_take_step, lemma_step_field_bounded,
    lemma_sum_cells_bounds, lemma_sum_take_step, max_activity_cells, next_information, step_cell,
    step_field, sum_cells,
};
use crate::deposit::{deposit_cell, deposit_field, DepositKernel};
use crate::parallel::step_all_cells_parallel;
use crate::grid::{axis_cell, axis_position, cell_i, cell_j, cell_k, flat_index,
    lemma_axis_roundtrip, lemma_flat_index_bounds, lemma_flat_index_encode};
use crate::scalar::{clamp_fp, Information};

verus! {

/// A cubic field of information densities with frozen boundary shell,
/// evolved in place by discrete time steps.
pub struct Reality {
    field: Vec<Information>,
    resolution: usize,
    bounds: (i64, i64),
    diffusion: u64,
    dt: u64,
    time: u128,
    step: u64,
    vacuum: u64,
    cosmic_age: u64,
}

impl Reality {
    /// The densities of all cells, in flat index order.
    pub closed spec fn cells(&self) -> Seq<int> {
        densities(self.field@)
    }

    /// The grid side length.
    pub closed spec fn spec_resolution(&self) -> int {
        self.resolution as int
    }

    /// The lower spatial bound of every axis, in fixed point.
    pub closed spec fn spec_bound_min(&self) -> int {
        self.bounds.0 as int
    }

    /// The upper spatial bound of every axis, in fixed point.
    pub closed spec fn spec_bound_max(&self) -> int {
        self.bounds.1 as int
    }

    /// The physical extent of every axis, in fixed point.
    pub open spec fn spec_range(&self) -> int {
        self.spec_bound_max() - self.spec_bound_min()
    }

    /// The diffusion coefficient, in fixed point.
    pub closed spec fn spec_diffusion(&self) -> int {
        self.diffusion as int
    }

    /// The evolution time step, in fixed point.
    pub closed spec fn spec_dt(&self) -> int {
        self.dt as int
    }

    /// The elapsed simulated time, in fixed point.
    pub closed spec fn spec_time(&self) -> int {
        self.time as int
    }

    /// The number of evolution steps taken.
    pub closed spec fn spec_step(&self) -> int {
        self.step as int
    }

    /// The vacuum (baseline) density every cell started at, in fixed point.
    pub closed spec fn spec_vacuum(&self) -> int {
        self.vacuum as int
    }

    /// The cosmic age this field was created at, in fixed-point billions of
    /// years.
    pub closed spec fn spec_cosmic_age(&self) -> int {
        self.cosmic_age as int
    }

    /// Well-formedness: the grid dimensions and coefficients lie within the
    /// machine limits the library accepts, the cell array has exactly
    /// `resolution^3` entries, every density is in range, and the elapsed
    /// time is the step count times the time step. Constructors establish
    /// this and every mutating operation preserves it.
    pub open spec fn wf(&self) -> bool {
        &&& 2 <= self.spec_resolution() <= MAX_RESOLUTION
        &&& -MAX_BOUND <= self.spec_bound_min()
        &&& self.spec_bound_max() <= MAX_BOUND
        &&& self.spec_range() > self.spec_resolution() - 1
        &&& self.spec_diffusion() <= MAX_DIFFUSION
        &&& self.spec_dt() <= MAX_TIME_STEP
        &&& self.spec_vacuum() <= MAX_INFORMATION
        &&& self.cells().len() == self.spec_resolution() * self.spec_resolution()
            * self.spec_resolution()
        &&& cells_bounded(self.cells())
        &&& self.spec_time() == self.spec_step() * self.spec_dt()
    }

    /// Create a field at a chosen vacuum density and cosmic age: the general
    /// baseline policy. Every cell starts at the vacuum density; counters
    /// start at zero.
    pub fn new_with_vacuum(
        resolution: usize,
        bounds: (i64, i64),
        diffusion: u64,
        dt: u64,
        vacuum: u64,
        cosmic_age: u64,
    ) -> (r: Reality)
        requires
            2 <= resolution <= MAX_RESOLUTION,
            -MAX_BOUND <= bounds.0,
            bounds.1 <= MAX_BOUND,
            bounds.1 - bounds.0 > resolution - 1,
            diffusion <= MAX_DIFFUSION,
            dt <= MAX_TIME_STEP,
            vacuum <= MAX_INFORMATION,
        ensures
            r.wf(),
            r.spec_resolution() == resolution,
            r.spec_bound_min() == bounds.0,
            r.spec_bound_max() == bounds.1,
            r.spec_diffusion() == diffusion,
            r.spec_dt() == dt,
            r.spec_vacuum() == vacuum,
            r.spec_cosmic_age() == cosmic_age,
            r.spec_step() == 0,
            r.spec_time() == 0,
            r.cells().len() == resolution * resolution * resolution,
            forall|m: int| 0 <= m < r.cells().len() ==> r.cells()[m] == vacuum,
    {
        proof {
            assert(4 <= resolution * resolution <= 1_048_576 && resolution * resolution
                * resolution <= 1_073_741_824) by (nonlinear_arith)
                requires
                    2 <= resolution <= 1_024,
            ;
        }
        let size: usize = resolution * resolution * resolution;
        let mut field: Vec<Information> = Vec::new();
        let mut n: usize = 0;
        while n < size
            invariant
                n <= size,
                vacuum <= MAX_INFORMATION,
                field@.len() == n,
                forall|m: int| 0 <= m < n ==> (#[trigger] field@[m])@ == vacuum,
            decreases size - n,
        {
            field.push(Information::new(vacuum as i64));
            n = n + 1;
        }
        proof {
            assert forall|m: int| 0 <= m < field@.len() implies (#[trigger] densities(field@)[m])
                == vacuum by {
                assert(densities(field@)[m] == field@[m]@);
            }
        }
        Reality {
            field,
            resolution,
            bounds,
            diffusion,
            dt,
            time: 0,
            step: 0,
            vacuum,
            cosmic_age,
        }
    }

    /// Create a field at the present cosmic age: every cell starts at the
    /// evolved vacuum density of the current epoch.
    pub fn new(resolution: usize, bounds: (i64, i64), diffusion: u64, dt: u64) -> (r: Reality)
        requires
            2 <= resolution <= MAX_RESOLUTION,
            -MAX_BOUND <= bounds.0,
            bounds.1 <= MAX_BOUND,
            bounds.1 - bounds.0 > resolution - 1,
            diffusion <= MAX_DIFFUSION,
            dt <= MAX_TIME_STEP,
        ensures
            r.wf(),
            r.spec_resolution() == resolution,
            r.spec_bound_min() == bounds.0,
            r.spec_bound_max() == bounds.1,
            r.spec_diffusion() == diffusion,
            r.spec_dt() == dt,
            r.spec_vacuum() == CURRENT_VACUUM,
            r.spec_cosmic_age() == CURRENT_COSMIC_AGE_GYR,
            r.spec_step() == 0,
            r.spec_time() == 0,
            r.cells().len() == resolution * resolution * resolution,
            forall|m: int| 0 <= m < r.cells().len() ==> r.cells()[m] == CURRENT_VACUUM,
    {
        Reality::new_with_vacuum(resolution, bounds, diffusion, dt, CURRENT_VACUUM,
            CURRENT_COSMIC_AGE_GYR)
    }

    /// Create the default vacuum field at the present cosmic age.
    pub fn from_vacuum() -> (r: Reality)
        ensures
            r.wf(),
            r.spec_resolution() == DEFAULT_RESOLUTION,
            r.spec_bound_min() == DEFAULT_BOUND_MIN,
            r.spec_bound_max() == DEFAULT_BOUND_MAX,
            r.spec_diffusion() == DEFAULT_DIFFUSION,
            r.spec_dt() == DEFAULT_DT,
            r.spec_vacuum() == CURRENT_VACUUM,
            r.spec_step() == 0,
            r.spec_time() == 0,
            forall|m: int| 0 <= m < r.cells().len() ==> r.cells()[m] == CURRENT_VACUUM,
    {
        Reality::new(DEFAULT_RESOLUTION, (DEFAULT_BOUND_MIN, DEFAULT_BOUND_MAX),
            DEFAULT_DIFFUSION, DEFAULT_DT)
    }

    /// Create the primordial field: epoch zero, every cell exactly at the
    /// integration threshold.
    pub fn from_primordial_vacuum() -> (r: Reality)
        ensures
            r.wf(),
            r.spec_resolution() == DEFAULT_RESOLUTION,
            r.spec_vacuum() == VACUUM_INFORMATION,
            r.spec_cosmic_age() == 0,
            r.spec_step() == 0,
            r.spec_time() == 0,
            forall|m: int| 0 <= m < r.cells().len() ==> r.cells()[m] == VACUUM_INFORMATION,
    {
        Reality::new_with_vacuum(DEFAULT_RESOLUTION, (DEFAULT_BOUND_MIN, DEFAULT_BOUND_MAX),
            DEFAULT_DIFFUSION, DEFAULT_DT, VACUUM_INFORMATION, 0)
    }

    /// The elapsed simulated time, in fixed point.
    pub fn time(&self) -> (r: u128)
        ensures
            r == self.spec_time(),
    {
        self.time
    }

    /// The number of evolution steps taken.
    pub fn step(&self) -> (r: u64)
        ensures
            r == self.spec_step(),
    {
        self.step
    }

    /// The cosmic age this field was created at, in fixed-point billions of
    /// years.
    pub fn cosmic_age(&self) -> (r: u64)
        ensures
            r == self.spec_cosmic_age(),
    {
        self.cosmic_age
    }

    /// The vacuum (baseline) density every cell started at.
    pub fn vacuum_density(&self) -> (r: u64)
        ensures
            r == self.spec_vacuum(),
    {
        self.vacuum
    }

    /// The flat index of the cell `(i, j, k)`.
    pub fn index(&self, i: usize, j: usize, k: usize) -> (r: usize)
        requires
            self.wf(),
            i < self.spec_resolution(),
            j < self.spec_resolution(),
            k < self.spec_resolution(),
        ensures
            r == flat_index(i as int, j as int, k as int, self.spec_resolution()),
            r < self.cells().len(),
    {
        proof {
            lemma_flat_index_bounds(i as int, j as int, k as int, self.spec_resolution());
            assert(k * self.resolution <= 1_048_576 && k * self.resolution * self.resolution
                <= 1_072_693_248 && j * self.resolution <= 1_048_576 && k * self.resolution
                * self.resolution + j * self.resolution + i < 1_073_741_824) by (nonlinear_arith)
                requires
                    i < self.resolution,
                    j < self.resolution,
                    k < self.resolution,
                    self.resolution <= 1_024,
            ;
        }
        k * self.resolution * self.resolution + j * self.resolution + i
    }

    /// Advance one time step with the sequential executor: every interior
    /// cell takes the clamped stencil update computed from the pre-step
    /// buffer; the boundary shell is copied unchanged; the buffers swap and
    /// the counters advance.
    pub fn evolve(&mut self)
        requires
            old(self).wf(),
            old(self).spec_step() < u64::MAX,
        ensures
            final(self).wf(),
            final(self).cells() == step_field(old(self).cells(), old(self).spec_resolution(),
                old(self).spec_diffusion(), old(self).spec_dt()),
            final(self).spec_step() == old(self).spec_step() + 1,
            final(self).spec_time() == old(self).spec_time() + old(self).spec_dt(),
            final(self).spec_resolution() == old(self).spec_resolution(),
            final(self).spec_bound_min() == old(self).spec_bound_min(),
            final(self).spec_bound_max() == old(self).spec_bound_max(),
            final(self).spec_diffusion() == old(self).spec_diffusion(),
            final(self).spec_dt() == old(self).spec_dt(),
            final(self).spec_vacuum() == old(self).spec_vacuum(),
            final(self).spec_cosmic_age() == old(self).spec_cosmic_age(),
    {
        let ghost f0 = self.cells();
        let res = self.resolution;
        let d = self.diffusion;
        let dt = self.dt;
        let len = self.field.len();
        let mut next: Vec<Information> = Vec::new();
        let mut n: usize = 0;
        while n < len
            invariant
                *self == *old(self),
                self.wf(),
                f0 == self.cells(),
                res == self.spec_resolution(),
                d == self.spec_diffusion(),
                dt == self.spec_dt(),
                len == self.field@.len(),
                n <= len,
                next@.len() == n,
                forall|m: int|
                    0 <= m < n ==> (#[trigger] next@[m])@ == step_cell(f0, res as int, d as int,
                        dt as int, m),
            decreases len - n,
        {
            let cell = next_information(&self.field, n, res, d, dt);
            next.push(cell);
            n = n + 1;
        }
        self.finish_step(next, Ghost(f0));
    }

    /// Advance one time step with the data-parallel executor: the same
    /// per-cell update as [`Reality::evolve`], distributed over the interior
    /// cells by rayon. The resulting field is exactly the one the sequential
    /// executor produces.
    pub fn evolve_parallel(&mut self)
        requires
            old(self).wf(),
            old(self).spec_step() < u64::MAX,
        ensures
            final(self).wf(),
            final(self).cells() == step_field(old(self).cells(), old(self).spec_resolution(),
                old(self).spec_diffusion(), old(self).spec_dt()),
            final(self).spec_step() == old(self).spec_step() + 1,
            final(self).spec_time() == old(self).spec_time() + old(self).spec_dt(),
            final(self).spec_resolution() == old(self).spec_resolution(),
            final(self).spec_bound_min() == old(self).spec_bound_min(),
            final(self).spec_bound_max() == old(self).spec_bound_max(),
            final(self).spec_diffusion() == old(self).spec_diffusion(),
            final(self).spec_dt() == old(self).spec_dt(),
            final(self).spec_vacuum() == old(self).spec_vacuum(),
            final(self).spec_cosmic_age() == old(self).spec_cosmic_age(),
    {
        let ghost f0 = self.cells();
        let next = step_all_cells_parallel(&self.field, self.resolution, self.diffusion, self.dt);
        self.finish_step(next, Ghost(f0));
    }

    /// Swap in the next buffer and advance the counters: the shared tail of
    /// both executors.
    fn finish_step(&mut self, next: Vec<Information>, f0: Ghost<Seq<int>>)
        requires
            old(self).wf(),
            old(self).spec_step() < u64::MAX,
            f0@ == old(self).cells(),
            next@.len() == old(self).cells().len(),
            forall|m: int|
                0 <= m < next@.len() ==> (#[trigger] next@[m])@ == step_cell(f0@,
                    old(self).spec_resolution(), old(self).spec_diffusion(), old(self).spec_dt(),
                    m),
        ensures
            final(self).wf(),
            final(self).cells() == step_field(old(self).cells(), old(self).spec_resolution(),
                old(self).spec_diffusion(), old(self).spec_dt()),
            final(self).spec_step() == old(self).spec_step() + 1,
            final(self).spec_time() == old(self).spec_time() + old(self).spec_dt(),
            final(self).spec_resolution() == old(self).spec_resolution(),
            final(self).spec_bound_min() == old(self).spec_bound_min(),
            final(self).spec_bound_max() == old(self).spec_bound_max(),
            final(self).spec_diffusion() == old(self).spec_diffusion(),
            final(self).spec_dt() == old(self).spec_dt(),
            final(self).spec_vacuum() == old(self).spec_vacuum(),
            final(self).spec_cosmic_age() == old(self).spec_cosmic_age(),
    {
        proof {
            let target = step_field(f0@, old(self).spec_resolution(), old(self).spec_diffusion(),
                old(self).spec_dt());
            assert forall|m: int| 0 <= m < next@.len() implies (#[trigger] densities(next@)[m])
                == target[m] by {
                assert(densities(next@)[m] == next@[m]@);
            }
            assert(densities(next@) =~= target);
            lemma_step_field_bounded(f0@, old(self).spec_resolution(),
                old(self).spec_diffusion(), old(self).spec_dt());
            let s0 = old(self).spec_step();
            let dt0 = old(self).spec_dt();
            assert((s0 + 1) * dt0 <= 340_282_366_920_938_463_463_374_607_431_768_211_455)
                by (nonlinear_arith)
                requires
                    0 <= s0 + 1 <= 18_446_744_073_709_551_616,
                    0 <= dt0 <= 1_000_000_000_000,
            ;
            assert((s0 + 1) * dt0 == s0 * dt0 + dt0) by (nonlinear_arith);
        }
        self.field = next;
        self.time = self.time + self.dt as u128;
        self.step = self.step + 1;
    }

    /// Add the amplitude to the cell nearest the position, re-clamping that
    /// cell; every other cell is untouched. Returns whether the position was
    /// inside the domain; an out-of-domain deposit is a no-op.
    pub fn add_information(&mut self, position: (i64, i64, i64), amplitude: i64) -> (ok: bool)
        requires
            old(self).wf(),
        ensures
            final(self).wf(),
            ok == old(self).spec_position_to_index(
                (position.0 as int, position.1 as int, position.2 as int),
            ).is_ok(),
            ok ==> final(self).cells() == old(self).cells().update(
                old(self).spec_position_to_index(
                    (position.0 as int, position.1 as int, position.2 as int),
                ).unwrap(),
                clamp_fp(
                    old(self).cells()[old(self).spec_position_to_index(
                        (position.0 as int, position.1 as int, position.2 as int),
                    ).unwrap()] + amplitude,
                ),
            ),
            !ok ==> final(self).cells() == old(self).cells(),
            final(self).spec_resolution() == old(self).spec_resolution(),
            final(self).spec_bound_min() == old(self).spec_bound_min(),
            final(self).spec_bound_max() == old(self).spec_bound_max(),
            final(self).spec_diffusion() == old(self).spec_diffusion(),
            final(self).spec_dt() == old(self).spec_dt(),
            final(self).spec_vacuum() == old(self).spec_vacuum(),
            final(self).spec_cosmic_age() == old(self).spec_cosmic_age(),
            final(self).spec_step() == old(self).spec_step(),
            final(self).spec_time() == old(self).spec_time(),
    {
        match self.position_to_index(position) {
            Ok(idx) => {
                let current: u64 = self.field[idx].density();
                proof {
                    assert(densities(self.field@)[idx as int] == self.field@[idx as int]@);
                }
                let raised: i128 = current as i128 + amplitude as i128;
                let clamped: i64 = if raised < 0 {
                    0
                } else if raised > MAX_INFORMATION as i128 {
                    MAX_INFORMATION as i64
                } else {
                    raised as i64
                };
                let cell = Information::new(clamped);
                self.field.set(idx, cell);
                proof {
                    let target = old(self).cells().update(idx as int, clamp_fp(
                        old(self).cells()[idx as int] + amplitude));
                    assert forall|m: int| 0 <= m < self.field@.len() implies (
                    #[trigger] densities(self.field@)[m]) == target[m] by {
                        assert(densities(self.field@)[m] == self.field@[m]@);
                        if m != idx {
                            assert(old(self).cells()[m] == old(self).field@[m]@);
                        }
                    }
                    assert(densities(self.field@) =~= target);
                }
                true
            },
            Err(_) => false,
        }
    }

    /// The cell value nearest the position, absent when the position is out
    /// of domain. Read-only.
    pub fn information_at(&self, position: (i64, i64, i64)) -> (r: Option<Information>)
        requires
            self.wf(),
        ensures
            match r {
                Some(info) => self.spec_position_to_index(
                    (position.0 as int, position.1 as int, position.2 as int),
                ).is_ok() && info@ == self.cells()[self.spec_position_to_index(
                    (position.0 as int, position.1 as int, position.2 as int),
                ).unwrap()],
                None => self.spec_position_to_index(
                    (position.0 as int, position.1 as int, position.2 as int),
                ) == Err::<int, ()>(()),
            },
    {
        match self.position_to_index(position) {
            Ok(idx) => {
                proof {
                    assert(densities(self.field@)[idx as int] == self.field@[idx as int]@);
                }
                Some(self.field[idx])
            },
            Err(_) => None,
        }
    }

    /// Total density over all cells. Read-only.
    pub fn total_information(&self) -> (r: u64)
        requires
            self.wf(),
        ensures
            r == sum_cells(self.cells()),
    {
        proof {
            assert(self.cells().take(0) =~= Seq::<int>::empty());
            assert(self.cells().len() <= 1_073_741_824) by (nonlinear_arith)
                requires
                    self.cells().len() == self.spec_resolution() * self.spec_resolution()
                        * self.spec_resolution(),
                    2 <= self.spec_resolution() <= 1_024,
            ;
        }
        let len = self.field.len();
        let mut total: u64 = 0;
        let mut n: usize = 0;
        while n < len
            invariant
                self.wf(),
                len == self.field@.len(),
                len <= 1_073_741_824,
                n <= len,
                total == sum_cells(self.cells().take(n as int)),
                total <= (n as int) * MAX_INFORMATION,
            decreases len - n,
        {
            proof {
                lemma_sum_take_step(self.cells(), n as int);
                assert(self.cells()[n as int] == self.field@[n as int]@);
                assert((n + 1) * MAX_INFORMATION == n * MAX_INFORMATION + MAX_INFORMATION)
                    by (nonlinear_arith);
                assert((n as int) * MAX_INFORMATION <= 1_073_741_824 * 16_000_000)
                    by (nonlinear_arith)
                    requires
                        0 <= n <= 1_073_741_824,
                        MAX_INFORMATION == 16_000_000u64,
                ;
            }
            total = total + self.field[n].density();
            n = n + 1;
        }
        proof {
            assert(self.cells().take(len as int) =~= self.cells());
        }
        total
    }

    /// Number of cells at or above the integration threshold. Read-only.
    pub fn conscious_count(&self) -> (r: usize)
        requires
            self.wf(),
        ensures
            r == count_conscious(self.cells()),
    {
        proof {
            assert(self.cells().take(0) =~= Seq::<int>::empty());
        }
        let len = self.field.len();
        let mut count: usize = 0;
        let mut n: usize = 0;
        while n < len
            invariant
                self.wf(),
                len == self.field@.len(),
                n <= len,
                count == count_conscious(self.cells().take(n as int)),
                count <= n,
            decreases len - n,
        {
            proof {
                lemma_count_take_step(self.cells(), n as int);
                assert(self.cells()[n as int] == self.field@[n as int]@);
            }
            if self.field[n].is_conscious() {
                count = count + 1;
            }
            n = n + 1;
        }
        proof {
            assert(self.cells().take(len as int) =~= self.cells());
        }
        count
    }

    /// Whether any cell is at or above the integration threshold. Read-only.
    pub fn is_conscious(&self) -> (r: bool)
        requires
            self.wf(),
        ensures
            r == (count_conscious(self.cells()) > 0),
    {
        self.conscious_count() > 0
    }

    /// Total density created above the vacuum baseline: the current total
    /// minus the vacuum density times the cell count. Negative when decay
    /// has taken the field below its baseline. Read-only.
    pub fn information_created(&self) -> (r: i64)
        requires
            self.wf(),
        ensures
            r == sum_cells(self.cells()) - self.spec_vacuum() * self.cells().len(),
    {
        proof {
            lemma_sum_cells_bounds(self.cells());
            assert(self.cells().len() <= 1_073_741_824) by (nonlinear_arith)
                requires
                    self.cells().len() == self.spec_resolution() * self.spec_resolution()
                        * self.spec_resolution(),
                    2 <= self.spec_resolution() <= 1_024,
            ;
            assert(0 <= self.spec_vacuum() * self.cells().len() <= 17_179_869_184_000_000)
                by (nonlinear_arith)
                requires
                    0 <= self.spec_vacuum() <= 16_000_000,
                    0 <= self.cells().len() <= 1_073_741_824,
            ;
            assert(0 <= self.cells().len() * MAX_INFORMATION <= 17_179_869_184_000_000)
                by (nonlinear_arith)
                requires
                    0 <= self.cells().len() <= 1_073_741_824,
                    MAX_INFORMATION == 16_000_000u64,
            ;
        }
        let total = self.total_information();
        let len = self.field.len();
        let baseline: u128 = (self.vacuum as u128) * (len as u128);
        (total as i128 - baseline as i128) as i64
    }

    /// Largest normalized activity `(v - threshold) / (MAX - threshold)`
    /// over all cells, zero when no cell exceeds the threshold. Read-only.
    pub fn max_activity(&self) -> (r: u64)
        requires
            self.wf(),
        ensures
            r == max_activity_cells(self.cells()),
    {
        proof {
            assert(self.cells().take(0) =~= Seq::<int>::empty());
        }
        let len = self.field.len();
        let mut best: u64 = 0;
        let mut n: usize = 0;
        while n < len
            invariant
                self.wf(),
                len == self.field@.len(),
                n <= len,
                best == max_activity_cells(self.cells().take(n as int)),
            decreases len - n,
        {
            proof {
                lemma_max_activity_take_step(self.cells(), n as int);
                assert(self.cells()[n as int] == self.field@[n as int]@);
            }
            let a: u64 = activity_of(self.field[n].density());
            proof {
                assert(a == activity_fp(self.cells()[n as int]));
            }
            if a > best {
                best = a;
            }
            n = n + 1;
        }
        proof {
            assert(self.cells().take(len as int) =~= self.cells());
        }
        best
    }

    /// Mapping consistency: the exact position of any grid cell maps back to
    /// exactly that cell's flat index.
    pub proof fn lemma_position_index_roundtrip(&self, i: int, j: int, k: int)
        requires
            self.wf(),
            0 <= i < self.spec_resolution(),
            0 <= j < self.spec_resolution(),
            0 <= k < self.spec_resolution(),
        ensures
            self.spec_position_to_index(
                (
                    axis_position(i, self.spec_bound_min(), self.spec_range(),
                        self.spec_resolution()),
                    axis_position(j, self.spec_bound_min(), self.spec_range(),
                        self.spec_resolution()),
                    axis_position(k, self.spec_bound_min(), self.spec_range(),
                        self.spec_resolution()),
                ),
            ) == Ok::<int, ()>(flat_index(i, j, k, self.spec_resolution())),
    {
        lemma_axis_roundtrip(i, self.spec_bound_min(), self.spec_range(), self.spec_resolution());
        lemma_axis_roundtrip(j, self.spec_bound_min(), self.spec_range(), self.spec_resolution());
        lemma_axis_roundtrip(k, self.spec_bound_min(), self.spec_range(), self.spec_resolution());
    }

    /// The discrete Laplacian at the interior cell `(i, j, k)`: the sum of
    /// its six axis-adjacent neighbour densities minus six times its own.
    pub fn laplacian(&self, i: usize, j: usize, k: usize) -> (r: i64)
        requires
            self.wf(),
            1 <= i < self.spec_resolution() - 1,
            1 <= j < self.spec_resolution() - 1,
            1 <= k < self.spec_resolution() - 1,
        ensures
            r == laplacian_at(self.cells(), self.spec_resolution(),
                flat_index(i as int, j as int, k as int, self.spec_resolution())),
    {
        let n = self.index(i, j, k);
        let res = self.resolution;
        proof {
            let ri = i as int;
            let rj = j as int;
            let rk = k as int;
            let rs = res as int;
            assert(rk * rs * rs + (rj - 1) * rs + ri == rk * rs * rs + rj * rs + ri - rs)
                by (nonlinear_arith);
            assert(rk * rs * rs + (rj + 1) * rs + ri == rk * rs * rs + rj * rs + ri + rs)
                by (nonlinear_arith);
            assert((rk - 1) * rs * rs + rj * rs + ri == rk * rs * rs + rj * rs + ri - rs * rs)
                by (nonlinear_arith);
            assert((rk + 1) * rs * rs + rj * rs + ri == rk * rs * rs + rj * rs + ri + rs * rs)
                by (nonlinear_arith);
        }
        let left = self.index(i - 1, j, k);
        let right = self.index(i + 1, j, k);
        let down = self.index(i, j - 1, k);
        let up = self.index(i, j + 1, k);
        let back = self.index(i, j, k - 1);
        let front = self.index(i, j, k + 1);
        proof {
            assert(self.cells()[left as int] == self.field@[left as int]@);
            assert(self.cells()[right as int] == self.field@[right as int]@);
            assert(self.cells()[down as int] == self.field@[down as int]@);
            assert(self.cells()[up as int] == self.field@[up as int]@);
            assert(self.cells()[back as int] == self.field@[back as int]@);
            assert(self.cells()[front as int] == self.field@[front as int]@);
            assert(self.cells()[n as int] == self.field@[n as int]@);
        }
        let sum_nb: u64 = self.field[left].density() + self.field[right].density()
            + self.field[down].density() + self.field[up].density() + self.field[back].density()
            + self.field[front].density();
        sum_nb as i64 - 6 * self.field[n].density() as i64
    }

    /// Every conscious cell with its exact position and normalized activity,
    /// in ascending flat-index order: a full-grid enumeration intended for
    /// diagnostics. Read-only.
    pub fn active_cells(&self) -> (r: Vec<((i64, i64, i64), u64)>)
        requires
            self.wf(),
        ensures
            r@.len() == count_conscious(self.cells()),
            forall|m: int|
                0 <= m < r@.len() ==> {
                    let idx = conscious_indices(self.cells())[m];
                    &&& (#[trigger] r@[m]).1 == activity_fp(self.cells()[idx])
                    &&& r@[m].0.0 == axis_position(cell_i(idx, self.spec_resolution()),
                        self.spec_bound_min(), self.spec_range(), self.spec_resolution())
                    &&& r@[m].0.1 == axis_position(cell_j(idx, self.spec_resolution()),
                        self.spec_bound_min(), self.spec_range(), self.spec_resolution())
                    &&& r@[m].0.2 == axis_position(cell_k(idx, self.spec_resolution()),
                        self.spec_bound_min(), self.spec_range(), self.spec_resolution())
                },
    {
        proof {
            assert(self.cells().take(0) =~= Seq::<int>::empty());
            assert(4 <= self.spec_resolution() * self.spec_resolution() <= 1_048_576)
                by (nonlinear_arith)
                requires
                    2 <= self.spec_resolution() <= 1_024,
            ;
        }
        let len = self.field.len();
        let res = self.resolution;
        let rr: usize = res * res;
        let mut out: Vec<((i64, i64, i64), u64)> = Vec::new();
        let mut n: usize = 0;
        while n < len
            invariant
                self.wf(),
                len == self.field@.len(),
                res == self.spec_resolution(),
                rr == res * res,
                n <= len,
                out@.len() == conscious_indices(self.cells().take(n as int)).len(),
                forall|m: int|
                    0 <= m < out@.len() ==> {
                        let idx = conscious_indices(self.cells().take(n as int))[m];
                        &&& (#[trigger] out@[m]).1 == activity_fp(self.cells()[idx])
                        &&& out@[m].0.0 == axis_position(cell_i(idx, self.spec_resolution()),
                            self.spec_bound_min(), self.spec_range(), self.spec_resolution())
                        &&& out@[m].0.1 == axis_position(cell_j(idx, self.spec_resolution()),
                            self.spec_bound_min(), self.spec_range(), self.spec_resolution())
                        &&& out@[m].0.2 == axis_position(cell_k(idx, self.spec_resolution()),
                            self.spec_bound_min(), self.spec_range(), self.spec_resolution())
                    },
            decreases len - n,
        {
            proof {
                lemma_conscious_indices_take_step(self.cells(), n as int);
                assert(self.cells()[n as int] == self.field@[n as int]@);
            }
            if self.field[n].is_conscious() {
                let i: usize = n % res;
                let j: usize = (n / res) % res;
                let k: usize = n / rr;
                proof {
                    lemma_flat_index_encode(n as int, res as int);
                }
                let pos = self.index_to_position(i, j, k);
                let a = activity_of(self.field[n].density());
                out.push((pos, a));
            }
            n = n + 1;
        }
        proof {
            assert(self.cells().take(len as int) =~= self.cells());
            lemma_conscious_indices_count(self.cells());
        }
        out
    }

    /// Deposit `amplitude` around the position with the chosen kernel
    /// strategy: the point kernel raises the single nearest cell; the
    /// Gaussian kernel gives every cell of its support box a share that
    /// falls off with distance. Each touched cell is re-clamped. An
    /// out-of-domain position makes the whole deposit a no-op, reported as
    /// failure.
    pub fn deposit(&mut self, position: (i64, i64, i64), amplitude: i64, kernel: DepositKernel)
        -> (ok: bool)
        requires
            old(self).wf(),
        ensures
            final(self).wf(),
            ok == old(self).spec_position_to_index(
                (position.0 as int, position.1 as int, position.2 as int),
            ).is_ok(),
            ok ==> final(self).cells() == (match kernel {
                DepositKernel::Point => old(self).cells().update(
                    old(self).spec_position_to_index(
                        (position.0 as int, position.1 as int, position.2 as int),
                    ).unwrap(),
                    clamp_fp(
                        old(self).cells()[old(self).spec_position_to_index(
                            (position.0 as int, position.1 as int, position.2 as int),
                        ).unwrap()] + amplitude,
                    ),
                ),
                DepositKernel::Gaussian => deposit_field(
                    old(self).cells(),
                    old(self).spec_resolution(),
                    old(self).spec_position_to_index(
                        (position.0 as int, position.1 as int, position.2 as int),
                    ).unwrap(),
                    amplitude as int,
                ),
            }),
            !ok ==> final(self).cells() == old(self).cells(),
            final(self).spec_resolution() == old(self).spec_resolution(),
            final(self).spec_bound_min() == old(self).spec_bound_min(),
            final(self).spec_bound_max() == old(self).spec_bound_max(),
            final(self).spec_diffusion() == old(self).spec_diffusion(),
            final(self).spec_dt() == old(self).spec_dt(),
            final(self).spec_vacuum() == old(self).spec_vacuum(),
            final(self).spec_cosmic_age() == old(self).spec_cosmic_age(),
            final(self).spec_step() == old(self).spec_step(),
            final(self).spec_time() == old(self).spec_time(),
    {
        match kernel {
            DepositKernel::Point => self.add_information(position, amplitude),
            DepositKernel::Gaussian => {
                match self.position_to_index(position) {
                    Err(_) => false,
                    Ok(t) => {
                        let ghost f0 = self.cells();
                        let res = self.resolution;
                        let len = self.field.len();
                        let mut next: Vec<Information> = Vec::new();
                        let mut n: usize = 0;
                        while n < len
                            invariant
                                *self == *old(self),
                                self.wf(),
                                f0 == self.cells(),
                                res == self.spec_resolution(),
                                len == self.field@.len(),
                                t < len,
                                n <= len,
                                next@.len() == n,
                                forall|m: int|
                                    0 <= m < n ==> (#[trigger] next@[m])@ == deposit_field(f0,
                                        res as int, t as int, amplitude as int)[m],
                            decreases len - n,
                        {
                            let cell = deposit_cell(&self.field, n, res, t, amplitude);
                            next.push(cell);
                            n = n + 1;
                        }
                        proof {
                            let target = deposit_field(f0, res as int, t as int,
                                amplitude as int);
                            assert forall|m: int| 0 <= m < next@.len() implies (
                            #[trigger] densities(next@)[m]) == target[m] by {
                                assert(densities(next@)[m] == next@[m]@);
                            }
                            assert(densities(next@) =~= target);
                            assert forall|m: int| 0 <= m < target.len() implies (0
                                <= #[trigger] target[m] <= MAX_INFORMATION) by {
                                assert(target[m] == next@[m]@);
                            }
                        }
                        self.field = next;
                        true
                    },
                }
            },
        }
    }

    /// The cell index the position maps to: each coordinate goes through the
    /// affine map onto cell indices with rounding to nearest; a position
    /// whose rounded coordinate falls outside `[0, resolution)` on any axis
    /// is out of domain.
    pub open spec fn spec_position_to_index(&self, p: (int, int, int)) -> Result<int, ()> {
        let a = axis_cell(p.0, self.spec_bound_min(), self.spec_range(), self.spec_resolution());
        let b = axis_cell(p.1, self.spec_bound_min(), self.spec_range(), self.spec_resolution());
        let c = axis_cell(p.2, self.spec_bound_min(), self.spec_range(), self.spec_resolution());
        if 0 <= a < self.spec_resolution() && 0 <= b < self.spec_resolution() && 0 <= c
            < self.spec_resolution() {
            Ok(flat_index(a, b, c, self.spec_resolution()))
        } else {
            Err(())
        }
    }

    /// Map a position to the flat index of its nearest cell, or signal out
    /// of domain. Succeeds exactly when every rounded axis coordinate lands
    /// inside the grid.
    pub fn position_to_index(&self, position: (i64, i64, i64)) -> (r: Result<usize, ()>)
        requires
            self.wf(),
        ensures
            match r {
                Ok(idx) => self.spec_position_to_index(
                    (position.0 as int, position.1 as int, position.2 as int),
                ) == Ok::<int, ()>(idx as int) && idx < self.cells().len(),
                Err(_) => self.spec_position_to_index(
                    (position.0 as int, position.1 as int, position.2 as int),
                ) == Err::<int, ()>(()),
            },
    {
        let range: i64 = self.bounds.1 - self.bounds.0;
        let a = match axis_cell_of(position.0, self.bounds.0, range, self.resolution) {
            Some(a) => a,
            None => {
                return Err(());
            },
        };
        let b = match axis_cell_of(position.1, self.bounds.0, range, self.resolution) {
            Some(b) => b,
            None => {
                return Err(());
            },
        };
        let c = match axis_cell_of(position.2, self.bounds.0, range, self.resolution) {
            Some(c) => c,
            None => {
                return Err(());
            },
        };
        Ok(self.index(a, b, c))
    }

    /// The exact position of the cell `(i, j, k)`: the inverse affine map,
    /// rounded to the nearest fixed-point unit per axis.
    pub fn index_to_position(&self, i: usize, j: usize, k: usize) -> (r: (i64, i64, i64))
        requires
            self.wf(),
            i < self.spec_resolution(),
            j < self.spec_resolution(),
            k < self.spec_resolution(),
        ensures
            r.0 == axis_position(i as int, self.spec_bound_min(), self.spec_range(),
                self.spec_resolution()),
            r.1 == axis_position(j as int, self.spec_bound_min(), self.spec_range(),
                self.spec_resolution()),
            r.2 == axis_position(k as int, self.spec_bound_min(), self.spec_range(),
                self.spec_resolution()),
    {
        let range: i64 = self.bounds.1 - self.bounds.0;
        let x = axis_position_of(i, self.bounds.0, range, self.resolution);
        let y = axis_position_of(j, self.bounds.0, range, self.resolution);
        let z = axis_position_of(k, self.bounds.0, range, self.resolution);
        (x, y, z)
    }
}

/// Round one coordinate onto its axis cell index; `None` when the rounded
/// index falls outside `[0, res)`.
fn axis_cell_of(x: i64, min: i64, range: i64, res: usize) -> (r: Option<usize>)
    requires
        2 <= res <= MAX_RESOLUTION,
        -MAX_BOUND <= min <= MAX_BOUND,
        res - 1 < range <= 2 * MAX_BOUND,
    ensures
        match r {
            Some(a) => 0 <= axis_cell(x as int, min as int, range as int, res as int) < res && a
                == axis_cell(x as int, min as int, range as int, res as int),
            None => !(0 <= axis_cell(x as int, min as int, range as int, res as int) < res),
        },
{
    proof {
        assert(-40_000_000_000_000_000_000_000 <= 2 * ((x as int) - (min as int)) * ((res
            - 1) as int) <= 40_000_000_000_000_000_000_000) by (nonlinear_arith)
            requires
                -9_223_372_036_854_775_808 <= x <= 9_223_372_036_854_775_807,
                -1_000_000_000_000 <= min <= 1_000_000_000_000,
                2 <= res <= 1_024,
        ;
    }
    let num: i128 = 2 * ((x as i128) - (min as i128)) * ((res - 1) as i128) + (range as i128);
    let den: i128 = 2 * (range as i128);
    if num < 0 {
        proof {
            assert((num as int) / (den as int) < 0) by (nonlinear_arith)
                requires
                    num < 0,
                    den > 0,
            ;
        }
        return None;
    }
    let q: u128 = (num as u128) / (den as u128);
    proof {
        assert(q == (num as int) / (den as int));
        assert((num as int) / (den as int) >= 0) by (nonlinear_arith)
            requires
                num >= 0,
                den > 0,
        ;
    }
    if q >= res as u128 {
        None
    } else {
        Some(q as usize)
    }
}

/// The exact fixed-point coordinate of one axis cell index, rounded to the
/// nearest unit.
fn axis_position_of(i: usize, min: i64, range: i64, res: usize) -> (r: i64)
    requires
        2 <= res <= MAX_RESOLUTION,
        -MAX_BOUND <= min <= MAX_BOUND,
        res - 1 < range <= 2 * MAX_BOUND,
        i < res,
    ensures
        r == axis_position(i as int, min as int, range as int, res as int),
{
    proof {
        assert(0 <= 2 * (i as int) * (range as int) <= 4_200_000_000_000_000) by (nonlinear_arith)
            requires
                0 <= i < 1_024,
                0 < range <= 2_000_000_000_000,
        ;
    }
    let num: u128 = 2 * (i as u128) * (range as u128) + ((res - 1) as u128);
    let den: u128 = 2 * ((res - 1) as u128);
    let q: u128 = num / den;
    proof {
        assert(q <= num);
        assert((num as int) / (den as int) == (2 * (i as int) * (range as int) + (res - 1)) / (2
            * ((res as int) - 1)));
    }
    min + (q as i64)
}

} // verus!
