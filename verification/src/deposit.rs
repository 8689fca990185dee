//! The perturbation injector's kernel: a fixed-spread Gaussian weight table
//! over squared index distance, the per-cell deposit update, and the
//! monotonicity facts that make a deposit fall off with distance.

use vstd::prelude::*;
use vstd::arithmetic::div_mod::{lemma_div_is_ordered, lemma_fundamental_div_mod};
use vstd::arithmetic::mul::{lemma_mul_inequality, lemma_mul_nonnegative, lemma_mul_unary_negation,
    lemma_mul_upper_bound};
use crate::constants::{MAX_INFORMATION, MAX_RESOLUTION};
use crate::grid::{cell_i, cell_j, cell_k, lemma_flat_index_encode};
use crate::dynamics::{cells_bounded, densities};
use crate::scalar::{clamp_fp, Information};

verus! {

/// The deposit strategy: a degenerate single-cell kernel, or the
/// fixed-spread Gaussian kernel over the three-cell support box.
#[derive(Clone, Copy, Debug, PartialEq, Eq, Structural)]
pub enum DepositKernel {
    /// All of the amplitude lands on the nearest cell.
    Point,
    /// The amplitude falls off with distance under the Gaussian weight
    /// table, over a support box of three cells per axis.
    Gaussian,
}

/// Scale of the deposit kernel weights: the weight of the target cell
/// itself, so the target receives the full amplitude.
pub const KERNEL_WEIGHT_SCALE: u64 = 65_536;

/// The Gaussian kernel weight at squared index distance `d2`, for a fixed
/// spread of one cell: `65536 * exp(-d2 / 2)`, rounded; zero from squared
/// distance 24 on, which the three-cell support box never exceeds anyway.
pub open spec fn kernel_weight(d2: int) -> int {
    if d2 <= 0 {
        65_536
    } else if d2 == 1 {
        39_750
    } else if d2 == 2 {
        24_109
    } else if d2 == 3 {
        14_623
    } else if d2 == 4 {
        8_869
    } else if d2 == 5 {
        5_380
    } else if d2 == 6 {
        3_263
    } else if d2 == 7 {
        1_979
    } else if d2 == 8 {
        1_200
    } else if d2 == 9 {
        728
    } else if d2 == 10 {
        442
    } else if d2 == 11 {
        268
    } else if d2 == 12 {
        162
    } else if d2 == 13 {
        99
    } else if d2 == 14 {
        60
    } else if d2 == 15 {
        36
    } else if d2 == 16 {
        22
    } else if d2 == 17 {
        13
    } else if d2 == 18 {
        8
    } else if d2 == 19 {
        5
    } else if d2 == 20 {
        3
    } else if d2 == 21 {
        2
    } else if d2 == 22 {
        1
    } else if d2 == 23 {
        1
    } else {
        0
    }
}

/// Whether cell `n` lies in the support box of a deposit at cell `t`: at
/// most three cells away on every axis.
pub open spec fn in_kernel_box(n: int, t: int, res: int) -> bool {
    &&& -3 <= cell_i(n, res) - cell_i(t, res) <= 3
    &&& -3 <= cell_j(n, res) - cell_j(t, res) <= 3
    &&& -3 <= cell_k(n, res) - cell_k(t, res) <= 3
}

/// Squared index distance between cells `n` and `t`.
pub open spec fn kernel_d2(n: int, t: int, res: int) -> int {
    (cell_i(n, res) - cell_i(t, res)) * (cell_i(n, res) - cell_i(t, res)) + (cell_j(n, res)
        - cell_j(t, res)) * (cell_j(n, res) - cell_j(t, res)) + (cell_k(n, res) - cell_k(t, res))
        * (cell_k(n, res) - cell_k(t, res))
}

/// The amount a deposit of `amplitude` adds at squared distance `d2`: the
/// amplitude scaled by the kernel weight, floored.
pub open spec fn kernel_add(amplitude: int, d2: int) -> int {
    amplitude * kernel_weight(d2) / (KERNEL_WEIGHT_SCALE as int)
}

/// The field after a kernel deposit of `amplitude` at target cell `t`:
/// every cell of the support box takes its weighted share, re-clamped;
/// every cell outside the box is untouched.
pub open spec fn deposit_field(f: Seq<int>, res: int, t: int, amplitude: int) -> Seq<int> {
    Seq::new(
        f.len(),
        |n: int|
            if in_kernel_box(n, t, res) {
                clamp_fp(f[n] + kernel_add(amplitude, kernel_d2(n, t, res)))
            } else {
                f[n]
            },
    )
}

/// The kernel weight never increases with distance.
pub proof fn lemma_kernel_weight_monotone(d2a: int, d2b: int)
    requires
        d2a <= d2b,
    ensures
        kernel_weight(d2a) >= kernel_weight(d2b) >= 0,
{
}

/// Deposit locality: for a non-negative amplitude the added share never
/// increases with distance from the target, the target receives the whole
/// amplitude, and nothing is taken away anywhere.
pub proof fn lemma_kernel_add_monotone(amplitude: int, d2a: int, d2b: int)
    requires
        amplitude >= 0,
        d2a <= d2b,
    ensures
        kernel_add(amplitude, d2a) >= kernel_add(amplitude, d2b) >= 0,
        kernel_add(amplitude, 0) == amplitude,
{
    lemma_kernel_weight_monotone(d2a, d2b);
    lemma_mul_inequality(kernel_weight(d2b), kernel_weight(d2a), amplitude);
    assert(amplitude * kernel_weight(d2a) == kernel_weight(d2a) * amplitude)
        by (nonlinear_arith);
    assert(amplitude * kernel_weight(d2b) == kernel_weight(d2b) * amplitude)
        by (nonlinear_arith);
    lemma_div_is_ordered(
        amplitude * kernel_weight(d2b),
        amplitude * kernel_weight(d2a),
        KERNEL_WEIGHT_SCALE as int,
    );
    assert(amplitude * kernel_weight(d2b) >= 0) by (nonlinear_arith)
        requires
            amplitude >= 0,
            kernel_weight(d2b) >= 0,
    ;
    assert(amplitude * kernel_weight(d2b) / (KERNEL_WEIGHT_SCALE as int) >= 0)
        by (nonlinear_arith)
        requires
            amplitude * kernel_weight(d2b) >= 0,
    ;
    assert(amplitude * 65_536 / 65_536int == amplitude) by (nonlinear_arith);
}

/// Compute the kernel weight at squared index distance `d2`.
fn kernel_weight_of(d2: u64) -> (r: u64)
    ensures
        r == kernel_weight(d2 as int),
        r <= 65_536,
{
    if d2 >= 24 {
        0
    } else {
        let table: [u64; 24] = [65_536, 39_750, 24_109, 14_623, 8_869, 5_380, 3_263, 1_979,
            1_200, 728, 442, 268, 162, 99, 60, 36, 22, 13, 8, 5, 3, 2, 1, 1];
        table[d2 as usize]
    }
}

/// Compute the one-cell result of a kernel deposit of `amplitude` at target
/// cell `t`: the weighted, clamped share for a cell in the support box, the
/// unchanged density outside it.
pub fn deposit_cell(field: &Vec<Information>, n: usize, res: usize, t: usize, amplitude: i64) -> (r:
    Information)
    requires
        2 <= res <= MAX_RESOLUTION,
        field@.len() == res * res * res,
        cells_bounded(densities(field@)),
        n < field@.len(),
        t < field@.len(),
    ensures
        r@ == deposit_field(densities(field@), res as int, t as int, amplitude as int)[n as int],
        0 <= r@ <= MAX_INFORMATION,
{
    proof {
        assert(4 <= res * res <= 1_048_576 && res * res * res <= 1_073_741_824)
            by (nonlinear_arith)
            requires
                2 <= res <= 1_024,
        ;
        lemma_flat_index_encode(n as int, res as int);
        lemma_flat_index_encode(t as int, res as int);
        assert forall|m: int| 0 <= m < field@.len() implies (0 <= #[trigger] field@[m]@
            <= MAX_INFORMATION) by {
            assert(densities(field@)[m] == field@[m]@);
        }
    }
    let rr: usize = res * res;
    let di: i64 = (n % res) as i64 - (t % res) as i64;
    let dj: i64 = ((n / res) % res) as i64 - ((t / res) % res) as i64;
    let dk: i64 = (n / rr) as i64 - (t / rr) as i64;
    if -3 <= di && di <= 3 && -3 <= dj && dj <= 3 && -3 <= dk && dk <= 3 {
        proof {
            assert(0 <= di * di <= 9 && 0 <= dj * dj <= 9 && 0 <= dk * dk <= 9)
                by (nonlinear_arith)
                requires
                    -3 <= di <= 3,
                    -3 <= dj <= 3,
                    -3 <= dk <= 3,
            ;
        }
        let d2: u64 = (di * di + dj * dj + dk * dk) as u64;
        let w: u64 = kernel_weight_of(d2);
        proof {
            let a = amplitude as int;
            let ww = w as int;
            if a >= 0 {
                lemma_mul_upper_bound(a, 0x7fff_ffff_ffff_ffff, ww, 65_536);
                lemma_mul_nonnegative(a, ww);
            } else {
                lemma_mul_upper_bound(-a, 0x8000_0000_0000_0000, ww, 65_536);
                lemma_mul_nonnegative(-a, ww);
                lemma_mul_unary_negation(a, ww);
            }
        }
        let num: i128 = (amplitude as i128) * (w as i128);
        let share: i128 = if num >= 0 {
            ((num as u128) / (KERNEL_WEIGHT_SCALE as u128)) as i128
        } else {
            let flipped: u128 = (-num) as u128;
            -((((flipped + (KERNEL_WEIGHT_SCALE as u128)) - 1) / (KERNEL_WEIGHT_SCALE as u128))
                as i128)
        };
        proof {
            if num < 0 {
                lemma_fundamental_div_mod(num as int, KERNEL_WEIGHT_SCALE as int);
                assert(share == (num as int) / (KERNEL_WEIGHT_SCALE as int)) by (nonlinear_arith)
                    requires
                        num < 0,
                        share == -(((-(num as int)) + 65_535) / 65_536),
                        (num as int) == 65_536 * ((num as int) / 65_536) + (num as int) % 65_536,
                        0 <= (num as int) % 65_536 < 65_536,
                ;
            }
        }
        let raised: i128 = (field[n].density() as i128) + share;
        let clamped: i64 = if raised < 0 {
            0
        } else if raised > MAX_INFORMATION as i128 {
            MAX_INFORMATION as i64
        } else {
            raised as i64
        };
        Information::new(clamped)
    } else {
        field[n]
    }
}

} // verus!
