//! Truncated (toward zero) integer division, the rounding rule used by all
//! fixed-point operations in this crate.

use vstd::prelude::*;
use crate::SCALE;

verus! {

/// Quotient of `a / b` rounded toward zero. The rounding rule of every
/// fixed-point operation in this crate.
pub open spec fn tdiv(a: int, b: int) -> int
    recommends
        b > 0,
{
    if a >= 0 {
        a / b
    } else {
        -((-a) / b)
    }
}

/// Magnitude bound: if `|a| <= m * b` then `|tdiv(a, b)| <= m`.
pub proof fn lemma_tdiv_bound(a: int, b: int, m: int)
    requires
        b > 0,
        m >= 0,
        -m * b <= a <= m * b,
    ensures
        -m <= tdiv(a, b) <= m,
{
    assert((-m) * b == -(m * b)) by (nonlinear_arith);
    if a >= 0 {
        assert(a / b <= m) by (nonlinear_arith)
            requires
                b > 0,
                m >= 0,
                a <= m * b,
                a >= 0,
        ;
        assert(a / b >= 0) by (nonlinear_arith)
            requires
                b > 0,
                a >= 0,
        ;
    } else {
        assert((-a) / b <= m) by (nonlinear_arith)
            requires
                b > 0,
                m >= 0,
                -a <= m * b,
                -a >= 0,
        ;
        assert((-a) / b >= 0) by (nonlinear_arith)
            requires
                b > 0,
                -a >= 0,
        ;
    }
}

/// Exact division: `tdiv(q * b, b) == q`.
pub proof fn lemma_tdiv_exact(q: int, b: int)
    requires
        b > 0,
    ensures
        tdiv(q * b, b) == q,
{
    if q >= 0 {
        assert(q * b >= 0) by (nonlinear_arith)
            requires
                q >= 0,
                b > 0,
        ;
        assert((q * b) / b == q) by (nonlinear_arith)
            requires
                b > 0,
        ;
    } else {
        assert(q * b < 0) by (nonlinear_arith)
            requires
                q < 0,
                b > 0,
        ;
        assert(-(q * b) == (-q) * b) by (nonlinear_arith);
        assert(((-q) * b) / b == -q) by (nonlinear_arith)
            requires
                b > 0,
        ;
    }
}

/// Truncated division keeps the sign of the dividend.
pub proof fn lemma_tdiv_sign(a: int, b: int)
    requires
        b > 0,
    ensures
        a >= 0 ==> tdiv(a, b) >= 0,
        a <= 0 ==> tdiv(a, b) <= 0,
{
    if a >= 0 {
        assert(a / b >= 0) by (nonlinear_arith)
            requires
                a >= 0,
                b > 0,
        ;
    } else {
        assert((-a) / b >= 0) by (nonlinear_arith)
            requires
                -a >= 0,
                b > 0,
        ;
    }
}

/// `tdiv(0, b) == 0`.
pub proof fn lemma_tdiv_zero(b: int)
    requires
        b > 0,
    ensures
        tdiv(0, b) == 0,
{
    assert(0int / b == 0) by (nonlinear_arith)
        requires
            b > 0,
    ;
}

/// Truncated division of an `i128` by a positive `i128`, exactly `tdiv`.
pub fn tdiv_i128(a: i128, b: i128) -> (r: i128)
    requires
        b > 0,
        a > i128::MIN,
    ensures
        r as int == tdiv(a as int, b as int),
{
    if a >= 0 {
        let q: u128 = (a as u128) / (b as u128);
        proof {
            assert((a as u128) as int == a as int);
            assert(q as int <= a as int) by (nonlinear_arith)
                requires
                    q == (a as u128) as int / (b as u128) as int,
                    (a as u128) as int == a as int,
                    a >= 0,
                    b > 0,
            ;
        }
        q as i128
    } else {
        let neg: i128 = -a;
        let q: u128 = (neg as u128) / (b as u128);
        proof {
            assert((neg as u128) as int == neg as int);
            assert(q as int <= neg as int) by (nonlinear_arith)
                requires
                    q == (neg as u128) as int / (b as u128) as int,
                    (neg as u128) as int == neg as int,
                    neg >= 0,
                    b > 0,
            ;
        }
        -(q as i128)
    }
}

/// Truncated division of an `i128` by `SCALE`, exactly `tdiv(a, SCALE)`.
pub fn tdiv_scale_i128(a: i128) -> (r: i128)
    requires
        a > i128::MIN,
    ensures
        r as int == tdiv(a as int, SCALE as int),
{
    tdiv_i128(a, SCALE as i128)
}

} // verus!
