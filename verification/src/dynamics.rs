//! The evolution kernel: a 7-point Laplacian stencil plus the intrinsic rate,
//! applied to every interior cell of the field, with the boundary shell
//! frozen. Also the aggregate measures (sum, conscious count, peak activity)
//! that the query layer reports.

use vstd::prelude::*;
use vstd::arithmetic::div_mod::lemma_hoist_over_denominator;
use crate::constants::{
    INTEGRATION_THRESHOLD, MAX_DIFFUSION, MAX_INFORMATION, MAX_RESOLUTION, MAX_TIME_STEP, SCALE,
    SCALE_SQ,
};
use crate::grid::{cell_i, cell_j, cell_k, interior_cell, lemma_flat_index_encode};
use crate::scalar::{clamp_fp, intrinsic_rate_fp, Information};

verus! {

/// The densities of a stored field, as a sequence of mathematical integers.
pub open spec fn densities(field: Seq<Information>) -> Seq<int> {
    field.map(|n: int, cell: Information| cell@)
}

/// Every density of the field lies in the representable range.
pub open spec fn cells_bounded(f: Seq<int>) -> bool {
    forall|m: int| 0 <= m < f.len() ==> 0 <= #[trigger] f[m] <= MAX_INFORMATION
}

/// Unit-spacing 7-point Laplacian stencil at the interior flat index `n`:
/// the sum of the six axis-adjacent neighbour densities minus six times the
/// centre density. Neighbour spacing is deliberately one unit whatever the
/// physical extent-to-resolution ratio; the grid spacing derived from the
/// bounds is not applied.
pub open spec fn laplacian_at(f: Seq<int>, res: int, n: int) -> int {
    f[n - 1] + f[n + 1] + f[n - res] + f[n + res] + f[n - res * res] + f[n + res * res] - 6 * f[n]
}

/// The updated centre density at interior index `n`, before clamping,
/// carried at `SCALE * SCALE_SQ` so that no precision is lost until the one
/// final division: `(v + dt * (D * laplacian + rate(v))) * SCALE_SQ`.
pub open spec fn raw_next(f: Seq<int>, res: int, d: int, dt: int, n: int) -> int {
    f[n] * SCALE_SQ + dt * (d * laplacian_at(f, res, n) + intrinsic_rate_fp(f[n]) * SCALE)
}

/// The realized fixed-point change of interior cell `n` in one step:
/// `dt * (D * laplacian + rate)`, scaled back to fixed point (one floor
/// division), before clamping.
pub open spec fn step_delta(f: Seq<int>, res: int, d: int, dt: int, n: int) -> int {
    dt * (d * laplacian_at(f, res, n) + intrinsic_rate_fp(f[n]) * SCALE) / (SCALE_SQ as int)
}

/// The new density of cell `n` after one step: interior cells take the
/// clamped update, boundary-shell cells are copied unchanged.
pub open spec fn step_cell(f: Seq<int>, res: int, d: int, dt: int, n: int) -> int {
    if interior_cell(n, res) {
        clamp_fp(raw_next(f, res, d, dt, n) / (SCALE_SQ as int))
    } else {
        f[n]
    }
}

/// The whole field after one evolution step.
pub open spec fn step_field(f: Seq<int>, res: int, d: int, dt: int) -> Seq<int> {
    Seq::new(f.len(), |n: int| step_cell(f, res, d, dt, n))
}

/// The field after `steps` evolution steps.
pub open spec fn iterate_field(f: Seq<int>, res: int, d: int, dt: int, steps: nat) -> Seq<int>
    decreases steps,
{
    if steps == 0 {
        f
    } else {
        step_field(iterate_field(f, res, d, dt, (steps - 1) as nat), res, d, dt)
    }
}

/// Sum of all densities of a field.
pub open spec fn sum_cells(f: Seq<int>) -> int
    decreases f.len(),
{
    if f.len() == 0 {
        0
    } else {
        sum_cells(f.drop_last()) + f.last()
    }
}

/// Number of cells at or above the integration threshold.
pub open spec fn count_conscious(f: Seq<int>) -> int
    decreases f.len(),
{
    if f.len() == 0 {
        0
    } else {
        count_conscious(f.drop_last()) + (if f.last() >= INTEGRATION_THRESHOLD {
            1int
        } else {
            0int
        })
    }
}

/// Normalized activity of one density: `(v - threshold) / (MAX - threshold)`
/// in fixed point, clamped to zero below the threshold.
pub open spec fn activity_fp(v: int) -> int {
    if v > INTEGRATION_THRESHOLD {
        (v - INTEGRATION_THRESHOLD) * SCALE / ((MAX_INFORMATION - INTEGRATION_THRESHOLD) as int)
    } else {
        0
    }
}

/// Largest normalized activity over all cells of a field.
pub open spec fn max_activity_cells(f: Seq<int>) -> int
    decreases f.len(),
{
    if f.len() == 0 {
        0
    } else {
        let rest = max_activity_cells(f.drop_last());
        if activity_fp(f.last()) > rest {
            activity_fp(f.last())
        } else {
            rest
        }
    }
}

/// Extending a prefix by one element adds that element to its sum.
pub proof fn lemma_sum_take_step(f: Seq<int>, n: int)
    requires
        0 <= n < f.len(),
    ensures
        sum_cells(f.take(n + 1)) == sum_cells(f.take(n)) + f[n],
{
    assert(f.take(n + 1).drop_last() =~= f.take(n));
}

/// Extending a prefix by one element raises its conscious count by one
/// exactly when that element reaches the threshold.
pub proof fn lemma_count_take_step(f: Seq<int>, n: int)
    requires
        0 <= n < f.len(),
    ensures
        count_conscious(f.take(n + 1)) == count_conscious(f.take(n)) + (
        if f[n] >= INTEGRATION_THRESHOLD {
            1int
        } else {
            0int
        }),
{
    assert(f.take(n + 1).drop_last() =~= f.take(n));
}

/// Extending a prefix by one element takes the maximum of the prefix
/// activity and the element's activity.
pub proof fn lemma_max_activity_take_step(f: Seq<int>, n: int)
    requires
        0 <= n < f.len(),
    ensures
        max_activity_cells(f.take(n + 1)) == (if activity_fp(f[n]) > max_activity_cells(f.take(n)) {
            activity_fp(f[n])
        } else {
            max_activity_cells(f.take(n))
        }),
{
    assert(f.take(n + 1).drop_last() =~= f.take(n));
}

/// The sum of a bounded field lies between zero and the cell count times the
/// maximum density.
pub proof fn lemma_sum_cells_bounds(f: Seq<int>)
    requires
        cells_bounded(f),
    ensures
        0 <= sum_cells(f) <= f.len() * MAX_INFORMATION,
    decreases f.len(),
{
    if f.len() == 0 {
    } else {
        assert(cells_bounded(f.drop_last()));
        lemma_sum_cells_bounds(f.drop_last());
        assert(f.len() * MAX_INFORMATION == (f.len() - 1) * MAX_INFORMATION + MAX_INFORMATION)
            by (nonlinear_arith);
    }
}

/// The conscious count of a field lies between zero and the cell count.
pub proof fn lemma_count_conscious_bounds(f: Seq<int>)
    ensures
        0 <= count_conscious(f) <= f.len(),
    decreases f.len(),
{
    if f.len() == 0 {
    } else {
        lemma_count_conscious_bounds(f.drop_last());
    }
}

/// Flat indices of the cells at or above the integration threshold, in
/// ascending order.
pub open spec fn conscious_indices(f: Seq<int>) -> Seq<int>
    decreases f.len(),
{
    if f.len() == 0 {
        Seq::empty()
    } else if f.last() >= INTEGRATION_THRESHOLD {
        conscious_indices(f.drop_last()).push(f.len() - 1)
    } else {
        conscious_indices(f.drop_last())
    }
}

/// Extending a prefix by one element appends its index to the conscious
/// index list exactly when that element reaches the threshold.
pub proof fn lemma_conscious_indices_take_step(f: Seq<int>, n: int)
    requires
        0 <= n < f.len(),
    ensures
        conscious_indices(f.take(n + 1)) == (if f[n] >= INTEGRATION_THRESHOLD {
            conscious_indices(f.take(n)).push(n)
        } else {
            conscious_indices(f.take(n))
        }),
{
    assert(f.take(n + 1).drop_last() =~= f.take(n));
    assert(f.take(n + 1).last() == f[n]);
}

/// There are exactly as many conscious indices as conscious cells.
pub proof fn lemma_conscious_indices_count(f: Seq<int>)
    ensures
        conscious_indices(f).len() == count_conscious(f),
    decreases f.len(),
{
    if f.len() == 0 {
    } else {
        lemma_conscious_indices_count(f.drop_last());
    }
}

/// Compute the normalized activity of one density.
pub fn activity_of(v: u64) -> (r: u64)
    requires
        v <= MAX_INFORMATION,
    ensures
        r == activity_fp(v as int),
{
    if v > INTEGRATION_THRESHOLD {
        proof {
            assert(0 <= ((v - INTEGRATION_THRESHOLD) as int) * (SCALE as int)
                <= 16_000_000_000_000) by (nonlinear_arith)
                requires
                    0 < (v - INTEGRATION_THRESHOLD) as int <= 16_000_000,
                    SCALE == 1_000_000u64,
            ;
        }
        (v - INTEGRATION_THRESHOLD) * SCALE / (MAX_INFORMATION - INTEGRATION_THRESHOLD)
    } else {
        0
    }
}

/// Compute the one-step update of cell `n` from the pre-step field: the
/// clamped stencil update for an interior cell, the unchanged density for a
/// boundary-shell cell.
pub fn next_information(field: &Vec<Information>, n: usize, res: usize, d: u64, dt: u64) -> (r:
    Information)
    requires
        2 <= res <= MAX_RESOLUTION,
        field@.len() == res * res * res,
        cells_bounded(densities(field@)),
        n < field@.len(),
        d <= MAX_DIFFUSION,
        dt <= MAX_TIME_STEP,
    ensures
        r@ == step_cell(densities(field@), res as int, d as int, dt as int, n as int),
        0 <= r@ <= MAX_INFORMATION,
{
    let f = Ghost(densities(field@));
    proof {
        assert(4 <= res * res <= 1_048_576 && res * res * res <= 1_073_741_824)
            by (nonlinear_arith)
            requires
                2 <= res <= 1_024,
        ;
    }
    let rr: usize = res * res;
    let i: usize = n % res;
    let j: usize = (n / res) % res;
    let k: usize = n / rr;
    proof {
        lemma_flat_index_encode(n as int, res as int);
        assert(i == cell_i(n as int, res as int));
        assert(j == cell_j(n as int, res as int));
        assert(k == cell_k(n as int, res as int));
        assert forall|m: int| 0 <= m < field@.len() implies (0 <= #[trigger] field@[m]@
            <= MAX_INFORMATION) by {
            assert(densities(field@)[m] == field@[m]@);
        }
    }
    if 1 <= i && i + 2 <= res && 1 <= j && j + 2 <= res && 1 <= k && k + 2 <= res {
        proof {
            assert(interior_cell(n as int, res as int));
            assert(res >= 3);
            assert(n >= 1 && n >= res && n >= rr && n + 1 < field@.len() && n + res
                < field@.len() && n + rr < field@.len()) by (nonlinear_arith)
                requires
                    n == k * res * res + j * res + i,
                    rr == res * res,
                    field@.len() == res * res * res,
                    1 <= i <= res - 2,
                    1 <= j <= res - 2,
                    1 <= k <= res - 2,
                    res >= 3,
            ;
        }
        let center: Information = field[n];
        let sum_nb: u64 = field[n - 1].density() + field[n + 1].density() + field[n
            - res].density() + field[n + res].density() + field[n - rr].density() + field[n
            + rr].density();
        let lap: i128 = sum_nb as i128 - 6 * center.density() as i128;
        let rate: i64 = center.intrinsic_rate();
        proof {
            assert(lap == laplacian_at(f@, res as int, n as int));
            assert(-100_000_000 <= lap <= 100_000_000);
            assert((d as i128) * lap <= 100_000_000_000_000_000_000 && (d as i128) * lap
                >= -100_000_000_000_000_000_000) by (nonlinear_arith)
                requires
                    0 <= d <= 1_000_000_000_000u64,
                    -100_000_000 <= lap <= 100_000_000,
            ;
        }
        proof {
            assert(-16_000_000_000_000 <= (rate as int) * (SCALE as int) <= 16_000_000_000_000)
                by (nonlinear_arith)
                requires
                    -16_000_000 <= rate <= 16_000_000,
                    SCALE == 1_000_000u64,
            ;
        }
        let drive: i128 = (d as i128) * lap + (rate as i128) * (SCALE as i128);
        proof {
            assert((dt as i128) * drive <= 200_000_000_000_000_000_000_000_000_000_000 && (
            dt as i128) * drive >= -200_000_000_000_000_000_000_000_000_000_000)
                by (nonlinear_arith)
                requires
                    0 <= dt <= 1_000_000_000_000u64,
                    -200_000_000_000_000_000_000 <= drive <= 200_000_000_000_000_000_000,
            ;
        }
        proof {
            assert(center@ == field@[n as int]@);
            assert(0 <= (center@) * (SCALE_SQ as int) <= 16_000_000_000_000_000_000)
                by (nonlinear_arith)
                requires
                    0 <= center@ <= 16_000_000,
                    SCALE_SQ == 1_000_000_000_000u64,
            ;
        }
        let scaled_center: i128 = (center.density() as i128) * (SCALE_SQ as i128);
        let change: i128 = (dt as i128) * drive;
        let raw: i128 = scaled_center + change;
        proof {
            assert(raw == raw_next(f@, res as int, d as int, dt as int, n as int));
        }
        if raw <= 0 {
            proof {
                assert((raw as int) / (SCALE_SQ as int) <= 0) by (nonlinear_arith)
                    requires
                        raw <= 0,
                ;
            }
            Information::new(0)
        } else {
            let q: u128 = (raw as u128) / (SCALE_SQ as u128);
            assert(q == (raw as int) / (SCALE_SQ as int));
            if q >= MAX_INFORMATION as u128 {
                Information::new(MAX_INFORMATION as i64)
            } else {
                Information::new(q as i64)
            }
        }
    } else {
        proof {
            assert(!interior_cell(n as int, res as int));
        }
        field[n]
    }
}

/// Summing cell-wise differences measures the change of the total: for two
/// fields of one shape, the sum of the second minus the sum of the first is
/// the sum of the pointwise differences.
pub proof fn lemma_sum_pointwise_diff(a: Seq<int>, b: Seq<int>)
    requires
        a.len() == b.len(),
    ensures
        sum_cells(b) - sum_cells(a) == sum_cells(
            Seq::new(a.len(), |n: int| b[n] - a[n]),
        ),
    decreases a.len(),
{
    let diff = Seq::new(a.len(), |n: int| b[n] - a[n]);
    if a.len() == 0 {
        assert(diff.len() == 0);
    } else {
        lemma_sum_pointwise_diff(a.drop_last(), b.drop_last());
        assert(diff.drop_last() =~= Seq::new(
            a.drop_last().len(),
            |n: int| b.drop_last()[n] - a.drop_last()[n],
        ));
        assert(diff.last() == b.last() - a.last());
    }
}

/// One evolution step keeps the shape of the field and every density in the
/// representable range.
pub proof fn lemma_step_field_bounded(f: Seq<int>, res: int, d: int, dt: int)
    requires
        cells_bounded(f),
    ensures
        step_field(f, res, d, dt).len() == f.len(),
        cells_bounded(step_field(f, res, d, dt)),
{
    let g = step_field(f, res, d, dt);
    assert forall|m: int| 0 <= m < g.len() implies (0 <= #[trigger] g[m] <= MAX_INFORMATION) by {
        assert(g[m] == step_cell(f, res, d, dt, m));
    }
}

/// Whether the one-step update of interior cell `n` stays inside the
/// representable range on its own, so that clamping does not bind.
pub open spec fn update_unclamped(f: Seq<int>, res: int, d: int, dt: int, n: int) -> bool {
    &&& 0 <= raw_next(f, res, d, dt, n)
    &&& raw_next(f, res, d, dt, n) / (SCALE_SQ as int) <= MAX_INFORMATION
}

/// Mass accounting: as long as no interior update is clamped, the total
/// density after one step equals the total before it plus the sum, over
/// interior cells only, of the realized change `dt * (D * laplacian + rate)`;
/// boundary-shell cells contribute zero change.
pub proof fn lemma_mass_accounting(f: Seq<int>, res: int, d: int, dt: int)
    requires
        forall|n: int|
            0 <= n < f.len() && interior_cell(n, res) ==> update_unclamped(f, res, d, dt, n),
    ensures
        sum_cells(step_field(f, res, d, dt)) == sum_cells(f) + sum_cells(
            Seq::new(
                f.len(),
                |n: int|
                    if interior_cell(n, res) {
                        step_delta(f, res, d, dt, n)
                    } else {
                        0
                    },
            ),
        ),
{
    let g = step_field(f, res, d, dt);
    lemma_sum_pointwise_diff(f, g);
    let diff = Seq::new(f.len(), |n: int| g[n] - f[n]);
    let deltas = Seq::new(
        f.len(),
        |n: int|
            if interior_cell(n, res) {
                step_delta(f, res, d, dt, n)
            } else {
                0
            },
    );
    assert forall|n: int| 0 <= n < f.len() implies diff[n] == deltas[n] by {
        assert(g[n] == step_cell(f, res, d, dt, n));
        if interior_cell(n, res) {
            assert(update_unclamped(f, res, d, dt, n));
            let num = dt * (d * laplacian_at(f, res, n) + intrinsic_rate_fp(f[n]) * SCALE);
            lemma_hoist_over_denominator(num, f[n], SCALE_SQ as nat);
            assert(raw_next(f, res, d, dt, n) == num + f[n] * (SCALE_SQ as nat));
            assert(raw_next(f, res, d, dt, n) / (SCALE_SQ as int) == f[n] + step_delta(
                f,
                res,
                d,
                dt,
                n,
            ));
            assert(0 <= raw_next(f, res, d, dt, n) / (SCALE_SQ as int)) by (nonlinear_arith)
                requires
                    0 <= raw_next(f, res, d, dt, n),
            ;
        }
    }
    assert(diff =~= deltas);
}

/// Cells on the outermost index shell are never touched: after any number of
/// evolution steps each boundary cell retains its original density.
pub proof fn lemma_boundary_freeze(f: Seq<int>, res: int, d: int, dt: int, steps: nat, n: int)
    requires
        0 <= n < f.len(),
        !interior_cell(n, res),
    ensures
        iterate_field(f, res, d, dt, steps).len() == f.len(),
        iterate_field(f, res, d, dt, steps)[n] == f[n],
    decreases steps,
{
    if steps == 0 {
    } else {
        lemma_boundary_freeze(f, res, d, dt, (steps - 1) as nat, n);
    }
}

/// Evolution is deterministic: the field after any number of steps is a
/// function of the starting densities and the grid parameters alone, so two
/// structurally identical grids evolve identically. Both the sequential and
/// the data-parallel stepper realize the same `step_field`, so the two
/// execution strategies agree exactly, not merely within a tolerance.
pub proof fn lemma_step_determinism(
    f: Seq<int>,
    g: Seq<int>,
    res: int,
    d: int,
    dt: int,
    steps: nat,
)
    requires
        f == g,
    ensures
        iterate_field(f, res, d, dt, steps) == iterate_field(g, res, d, dt, steps),
{
}

} // verus!
