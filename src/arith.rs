//! Integer helpers: Euclidean remainder, floor division and rounding division.
use vstd::prelude::*;

verus! {

/// Division of `a` by `b` rounded to the nearest integer, halves rounded up.
pub open spec fn round_div(a: int, b: int) -> int {
    (a + b / 2) / b
}

/// Euclidean remainder of `x` by `m`: always in `[0, m)`.
pub fn modulus(x: i128, m: i128) -> (r: i128)
    requires
        m > 0,
    ensures
        r as int == x as int % m as int,
        0 <= r < m,
{
    if x >= 0 {
        ((x as u128) % (m as u128)) as i128
    } else {
        let y: u128 = (-(x + 1)) as u128;
        let q: u128 = y % (m as u128);
        proof {
            let yi = y as int;
            let mi = m as int;
            assert(yi == (yi / mi) * mi + q) by (nonlinear_arith)
                requires
                    q as int == yi % mi,
                    mi > 0,
            ;
            assert((-yi - 1) == (-(yi / mi) - 1) * mi + (mi - 1 - q)) by (nonlinear_arith)
                requires
                    yi == (yi / mi) * mi + q,
            ;
            vstd::arithmetic::div_mod::lemma_fundamental_div_mod_converse(
                -yi - 1,
                mi,
                -(yi / mi) - 1,
                mi - 1 - q,
            );
        }
        m - 1 - (q as i128)
    }
}

/// Floor division of `a` by a positive `b`.
pub fn floor_div(a: i128, b: i128) -> (r: i128)
    requires
        b > 0,
    ensures
        r as int == a as int / b as int,
{
    if a >= 0 {
        ((a as u128) / (b as u128)) as i128
    } else {
        let y: u128 = (-(a + 1)) as u128;
        let q: u128 = y / (b as u128);
        proof {
            let yi = y as int;
            let bi = b as int;
            vstd::arithmetic::div_mod::lemma_fundamental_div_mod(yi, bi);
            vstd::arithmetic::div_mod::lemma_mod_bound(yi, bi);
            assert((-yi - 1) == (-(q as int) - 1) * bi + (bi - 1 - yi % bi)) by (nonlinear_arith)
                requires
                    yi == bi * (yi / bi) + yi % bi,
                    q as int == yi / bi,
            ;
            vstd::arithmetic::div_mod::lemma_fundamental_div_mod_converse(
                -yi - 1,
                bi,
                -(q as int) - 1,
                bi - 1 - yi % bi,
            );
            assert(q <= y);
        }
        -(q as i128) - 1
    }
}

/// Rounding division on non-negative operands.
pub fn round_div_exec(a: u128, b: u128) -> (r: u128)
    requires
        b > 0,
        a + b / 2 <= u128::MAX,
    ensures
        r as int == round_div(a as int, b as int),
{
    (a + b / 2) / b
}

/// Rounding division is monotone in its dividend.
pub proof fn lemma_round_div_monotone(a1: int, a2: int, b: int)
    requires
        a1 <= a2,
        b > 0,
    ensures
        round_div(a1, b) <= round_div(a2, b),
{
    vstd::arithmetic::div_mod::lemma_div_is_ordered(a1 + b / 2, a2 + b / 2, b);
}

/// Adding `k` whole divisors to the dividend adds `k` to the rounded quotient.
pub proof fn lemma_round_div_shift(a: int, b: int, k: int)
    requires
        b > 0,
    ensures
        round_div(a + k * b, b) == round_div(a, b) + k,
{
    let x = a + b / 2;
    vstd::arithmetic::div_mod::lemma_fundamental_div_mod(x, b);
    vstd::arithmetic::div_mod::lemma_mod_bound(x, b);
    assert(x + k * b == b * (x / b + k) + x % b) by (nonlinear_arith)
        requires
            x == b * (x / b) + x % b,
    ;
    vstd::arithmetic::div_mod::lemma_fundamental_div_mod_converse(x + k * b, b, x / b + k, x % b);
    assert(a + k * b + b / 2 == x + k * b);
}

/// A rounded fraction `a * n / d` with `a <= d` stays within `[0, n]`.
pub proof fn lemma_round_div_fraction_bound(a: int, n: int, d: int)
    requires
        0 <= a <= d,
        d > 0,
        n >= 0,
    ensures
        0 <= round_div(a * n, d) <= n,
{
    let x = a * n + d / 2;
    assert(0 <= a * n <= d * n) by (nonlinear_arith)
        requires
            0 <= a <= d,
            n >= 0,
    ;
    vstd::arithmetic::div_mod::lemma_fundamental_div_mod(x, d);
    vstd::arithmetic::div_mod::lemma_mod_bound(x, d);
    assert(0 <= x / d <= n) by (nonlinear_arith)
        requires
            x == d * (x / d) + x % d,
            0 <= x % d < d,
            0 <= x < d * n + d,
            d > 0,
    ;
}

} // verus!
