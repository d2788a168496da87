//! Escape-time evaluator: how many iterations of `z <- z*z + c` (starting at
//! `z = 0`) a plane point `c` survives before `|z|` exceeds the escape radius
//! 2, capped at `ITERATION_CAP`.
//!
//! The returned count is 0-based: a point whose very first iterate already
//! escapes yields 0. A point still inside the radius after `ITERATION_CAP`
//! iterations yields `ITERATION_CAP` and is treated as a member of the set.

use vstd::prelude::*;
use crate::SCALE;
use crate::fixed::{tdiv, lemma_tdiv_bound, lemma_tdiv_zero, tdiv_scale_i128};

verus! {

/// Upper bound on the number of iterations per point.
pub const ITERATION_CAP: u32 = 1000;

/// Real part of `z*z + c` in fixed point: `(zr^2 - zi^2) / SCALE + cr`.
pub open spec fn step_re(zr: int, zi: int, cr: int) -> int {
    tdiv(zr * zr - zi * zi, SCALE as int) + cr
}

/// Imaginary part of `z*z + c` in fixed point: `2 * zr * zi / SCALE + ci`.
pub open spec fn step_im(zr: int, zi: int, ci: int) -> int {
    tdiv(2 * zr * zi, SCALE as int) + ci
}

/// The point `z` lies outside the escape radius: `|z| > 2`, compared by
/// squared magnitude so the test is exact in fixed point.
pub open spec fn is_escaped(zr: int, zi: int) -> bool {
    zr * zr + zi * zi > 4 * (SCALE as int) * (SCALE as int)
}

/// Number of further iterations, at most `fuel`, until the orbit of `c`
/// starting at `z` escapes; `fuel` if it never does within `fuel` steps.
/// The step that lands outside the radius is not counted, so a state whose
/// immediate successor escapes yields 0.
pub open spec fn escape_from(zr: int, zi: int, cr: int, ci: int, fuel: nat) -> nat
    decreases fuel,
{
    if fuel == 0 {
        0
    } else {
        let zr2 = step_re(zr, zi, cr);
        let zi2 = step_im(zr, zi, ci);
        if is_escaped(zr2, zi2) {
            0
        } else {
            1 + escape_from(zr2, zi2, cr, ci, (fuel - 1) as nat)
        }
    }
}

/// Escape iteration count of the plane point `c = cr + i*ci` (raw fixed-point
/// coordinates), capped at `ITERATION_CAP`.
pub open spec fn escape_iterations(cr: int, ci: int) -> nat {
    escape_from(0, 0, cr, ci, ITERATION_CAP as nat)
}

/// The count never exceeds the fuel.
pub proof fn lemma_escape_from_le_fuel(zr: int, zi: int, cr: int, ci: int, fuel: nat)
    ensures
        escape_from(zr, zi, cr, ci, fuel) <= fuel,
    decreases fuel,
{
    if fuel > 0 {
        let zr2 = step_re(zr, zi, cr);
        let zi2 = step_im(zr, zi, ci);
        if !is_escaped(zr2, zi2) {
            lemma_escape_from_le_fuel(zr2, zi2, cr, ci, (fuel - 1) as nat);
        }
    }
}

/// Escape counts are non-negative and never exceed `ITERATION_CAP`, for
/// every plane point.
pub proof fn lemma_escape_iterations_in_range(cr: int, ci: int)
    ensures
        0 <= escape_iterations(cr, ci) <= ITERATION_CAP,
{
    lemma_escape_from_le_fuel(0, 0, cr, ci, ITERATION_CAP as nat);
}

/// The escape count is a function of the point alone: equal inputs give
/// equal counts, whenever and however often they are evaluated.
pub proof fn lemma_escape_iterations_deterministic(cr1: int, ci1: int, cr2: int, ci2: int)
    requires
        cr1 == cr2,
        ci1 == ci2,
    ensures
        escape_iterations(cr1, ci1) == escape_iterations(cr2, ci2),
{
}

/// The orbit of the origin stays at the origin, so the origin exhausts any
/// amount of fuel.
pub proof fn lemma_origin_exhausts_fuel(fuel: nat)
    ensures
        escape_from(0, 0, 0, 0, fuel) == fuel,
    decreases fuel,
{
    if fuel > 0 {
        lemma_tdiv_zero(SCALE as int);
        assert(step_re(0, 0, 0) == 0);
        assert(step_im(0, 0, 0) == 0);
        assert(!is_escaped(0, 0));
        lemma_origin_exhausts_fuel((fuel - 1) as nat);
    }
}

/// The origin is a member of the Mandelbrot set: its count is the cap.
pub proof fn lemma_origin_reaches_cap()
    ensures
        escape_iterations(0, 0) == ITERATION_CAP,
{
    lemma_origin_exhausts_fuel(ITERATION_CAP as nat);
}

/// Escape iteration count of the plane point `c = cr + i*ci`, given as raw
/// fixed-point coordinates. Total on all inputs; the result equals the
/// mathematical `escape_iterations` exactly, so repeated calls with the same
/// arguments return the same count.
pub fn iterations_to_escape(cr: i64, ci: i64) -> (r: u32)
    ensures
        r as nat == escape_iterations(cr as int, ci as int),
        r <= ITERATION_CAP,
{
    let two_s: i64 = 2 * SCALE;
    let four_s2: i128 = 4 * (SCALE as i128) * (SCALE as i128);
    let mut zr: i64 = 0;
    let mut zi: i64 = 0;
    let mut k: u32 = 0;
    while k < ITERATION_CAP
        invariant
            two_s == 2 * SCALE,
            four_s2 == 4 * (SCALE as int) * (SCALE as int),
            0 <= k <= ITERATION_CAP,
            escape_iterations(cr as int, ci as int) == k + escape_from(
                zr as int,
                zi as int,
                cr as int,
                ci as int,
                (ITERATION_CAP - k) as nat,
            ),
            k == 0 ==> zr == 0 && zi == 0,
            k >= 1 ==> !is_escaped(zr as int, zi as int),
            k >= 1 ==> !is_escaped(cr as int, ci as int),
        decreases ITERATION_CAP - k,
    {
        proof {
            if k >= 1 {
                assert(zr * zr <= 4 * (SCALE as int) * (SCALE as int) && zi * zi <= 4 * (
                SCALE as int) * (SCALE as int)) by (nonlinear_arith)
                    requires
                        zr * zr + zi * zi <= 4 * (SCALE as int) * (SCALE as int),
                ;
                assert(-(2 * (SCALE as int)) <= zr <= 2 * (SCALE as int) && -(2 * (SCALE as int))
                    <= zi <= 2 * (SCALE as int)) by (nonlinear_arith)
                    requires
                        zr * zr <= 4 * (SCALE as int) * (SCALE as int),
                        zi * zi <= 4 * (SCALE as int) * (SCALE as int),
                        SCALE == 1_000_000,
                ;
                assert(-(2 * (SCALE as int)) <= cr <= 2 * (SCALE as int) && -(2 * (SCALE as int))
                    <= ci <= 2 * (SCALE as int)) by (nonlinear_arith)
                    requires
                        cr * cr + ci * ci <= 4 * (SCALE as int) * (SCALE as int),
                        SCALE == 1_000_000,
                ;
            }
        }
        let zr_w: i128 = zr as i128;
        let zi_w: i128 = zi as i128;
        proof {
            assert(0 <= zr_w * zr_w <= 4 * (SCALE as int) * (SCALE as int) && 0 <= zi_w * zi_w <= 4
                * (SCALE as int) * (SCALE as int) && -(8 * (SCALE as int) * (SCALE as int)) <= 2
                * zr_w * zi_w <= 8 * (SCALE as int) * (SCALE as int)) by (nonlinear_arith)
                requires
                    -(2 * (SCALE as int)) <= zr_w <= 2 * (SCALE as int),
                    -(2 * (SCALE as int)) <= zi_w <= 2 * (SCALE as int),
                    SCALE == 1_000_000,
            ;
        }
        let t_re: i128 = zr_w * zr_w - zi_w * zi_w;
        let t_im: i128 = 2 * zr_w * zi_w;
        let q_re: i128 = tdiv_scale_i128(t_re);
        let q_im: i128 = tdiv_scale_i128(t_im);
        proof {
            lemma_tdiv_bound(t_re as int, SCALE as int, 4 * (SCALE as int));
            lemma_tdiv_bound(t_im as int, SCALE as int, 8 * (SCALE as int));
            if k == 0 {
                assert(t_re == 0 && t_im == 0);
                lemma_tdiv_zero(SCALE as int);
                assert(q_re == 0 && q_im == 0);
            }
        }
        let sum_re: i128 = q_re + (cr as i128);
        let sum_im: i128 = q_im + (ci as i128);
        proof {
            assert(i64::MIN <= sum_re <= i64::MAX);
            assert(i64::MIN <= sum_im <= i64::MAX);
        }
        let new_zr: i64 = sum_re as i64;
        let new_zi: i64 = sum_im as i64;
        proof {
            assert(new_zr as int == step_re(zr as int, zi as int, cr as int));
            assert(new_zi as int == step_im(zr as int, zi as int, ci as int));
        }
        let esc: bool = if new_zr > two_s || new_zr < -two_s || new_zi > two_s || new_zi
            < -two_s {
            proof {
                assert(is_escaped(new_zr as int, new_zi as int)) by (nonlinear_arith)
                    requires
                        new_zr > 2 * (SCALE as int) || new_zr < -(2 * (SCALE as int)) || new_zi > 2
                            * (SCALE as int) || new_zi < -(2 * (SCALE as int)),
                        SCALE == 1_000_000,
                ;
            }
            true
        } else {
            let nr: i128 = new_zr as i128;
            let ni: i128 = new_zi as i128;
            proof {
                assert(0 <= nr * nr <= 4 * (SCALE as int) * (SCALE as int) && 0 <= ni * ni <= 4 * (
                SCALE as int) * (SCALE as int)) by (nonlinear_arith)
                    requires
                        -(2 * (SCALE as int)) <= nr <= 2 * (SCALE as int),
                        -(2 * (SCALE as int)) <= ni <= 2 * (SCALE as int),
                        SCALE == 1_000_000,
                ;
            }
            nr * nr + ni * ni > four_s2
        };
        proof {
            assert(esc == is_escaped(new_zr as int, new_zi as int));
        }
        if esc {
            proof {
                assert(escape_from(
                    zr as int,
                    zi as int,
                    cr as int,
                    ci as int,
                    (ITERATION_CAP - k) as nat,
                ) == 0);
            }
            return k;
        }
        proof {
            assert(escape_from(
                zr as int,
                zi as int,
                cr as int,
                ci as int,
                (ITERATION_CAP - k) as nat,
            ) == 1 + escape_from(
                new_zr as int,
                new_zi as int,
                cr as int,
                ci as int,
                (ITERATION_CAP - k - 1) as nat,
            ));
            if k == 0 {
                lemma_tdiv_zero(SCALE as int);
                assert(new_zr == cr && new_zi == ci);
            }
        }
        zr = new_zr;
        zi = new_zi;
        k = k + 1;
    }
    proof {
        assert(escape_from(zr as int, zi as int, cr as int, ci as int, 0) == 0);
    }
    k
}

} // verus!
