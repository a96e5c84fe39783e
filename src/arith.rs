//! Integer models of the rounding operations that the grid search uses.
use vstd::prelude::*;

verus! {

/// `a / b` rounded up, for `a >= 0` and `b > 0`.
pub open spec fn ceil_div(a: int, b: int) -> int {
    (a + b - 1) / b
}

/// `a / b` rounded to the nearest integer, halves upward, for `a >= 0` and `b > 0`.
pub open spec fn round_div(a: int, b: int) -> int {
    (2 * a + b) / (2 * b)
}

/// `q * d <= n` whenever `q` is the floor of `n / d`, and `n < (q + 1) * d`.
pub proof fn lemma_floor_bounds(n: int, d: int)
    requires
        n >= 0,
        d > 0,
    ensures
        (n / d) * d <= n,
        n < (n / d + 1) * d,
        n / d >= 0,
{
    let q = n / d;
    let r = n % d;
    assert(n == d * q + r && 0 <= r < d) by {
        vstd::arithmetic::div_mod::lemma_fundamental_div_mod(n, d);
    }
    assert(q * d == d * q) by (nonlinear_arith);
    assert((q + 1) * d == d * q + d) by (nonlinear_arith);
    vstd::arithmetic::div_mod::lemma_div_pos_is_pos(n, d);
}

/// `ceil_div(a, b) * b` is the least multiple of `b` not below `a`.
pub proof fn lemma_ceil_div_bounds(a: int, b: int)
    requires
        a >= 0,
        b > 0,
    ensures
        a <= ceil_div(a, b) * b,
        ceil_div(a, b) * b < a + b,
        ceil_div(a, b) >= 0,
        a > 0 ==> ceil_div(a, b) >= 1,
{
    lemma_floor_bounds(a + b - 1, b);
    let q = ceil_div(a, b);
    assert((q + 1) * b == q * b + b) by (nonlinear_arith);
    if a > 0 {
        if q <= 0 {
            assert(q * b <= 0) by (nonlinear_arith)
                requires
                    q <= 0,
                    b > 0,
            ;
        }
    }
}

/// The nearest integer is within half a unit: `2 * n - d <= 2 * q * d <= 2 * n + d`.
pub proof fn lemma_round_div_bounds(n: int, d: int)
    requires
        n >= 0,
        d > 0,
    ensures
        2 * n - d < 2 * round_div(n, d) * d,
        2 * round_div(n, d) * d <= 2 * n + d,
        round_div(n, d) >= 0,
{
    lemma_floor_bounds(2 * n + d, 2 * d);
    let q = round_div(n, d);
    assert(q * (2 * d) == 2 * q * d) by (nonlinear_arith);
    assert((q + 1) * (2 * d) == 2 * q * d + 2 * d) by (nonlinear_arith);
}

/// `q <= n / d` as soon as `q * d <= n`.
pub proof fn lemma_le_floor(q: int, n: int, d: int)
    requires
        n >= 0,
        d > 0,
        q * d <= n,
    ensures
        q <= n / d,
{
    lemma_floor_bounds(n, d);
    if q > n / d {
        assert(q * d >= (n / d + 1) * d) by (nonlinear_arith)
            requires
                q >= n / d + 1,
                d > 0,
        ;
    }
}

/// Floor division never shrinks as its numerator grows.
pub proof fn lemma_floor_monotone(n1: int, n2: int, d: int)
    requires
        0 <= n1 <= n2,
        d > 0,
    ensures
        n1 / d <= n2 / d,
{
    lemma_floor_bounds(n1, d);
    lemma_le_floor(n1 / d, n2, d);
}

/// Rounding `n / d` to the nearest integer never grows with `d`.
pub proof fn lemma_round_div_antitone(n: int, d1: int, d2: int)
    requires
        n >= 0,
        0 < d1 <= d2,
    ensures
        round_div(n, d2) <= round_div(n, d1),
{
    let q = round_div(n, d2);
    lemma_round_div_bounds(n, d2);
    // 2 * q * d2 <= 2 * n + d2, so (2q - 1) * d2 <= 2n, hence (2q - 1) * d1 <= 2n.
    if q >= 1 {
        assert((2 * q - 1) * d1 <= (2 * q - 1) * d2) by (nonlinear_arith)
            requires
                q >= 1,
                d1 <= d2,
        ;
        assert(q * (2 * d1) <= 2 * n + d1) by (nonlinear_arith)
            requires
                (2 * q - 1) * d1 <= (2 * q - 1) * d2,
                2 * q * d2 <= 2 * n + d2,
        ;
        lemma_le_floor(q, 2 * n + d1, 2 * d1);
    } else {
        lemma_round_div_bounds(n, d1);
    }
}

/// Rounding up `n / d` never shrinks as `n` grows.
pub proof fn lemma_ceil_div_monotone(n1: int, n2: int, d: int)
    requires
        0 <= n1 <= n2,
        d > 0,
    ensures
        ceil_div(n1, d) <= ceil_div(n2, d),
{
    lemma_floor_monotone(n1 + d - 1, n2 + d - 1, d);
}

} // verus!
