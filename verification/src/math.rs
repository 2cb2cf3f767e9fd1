//! Integer square root, used to price the very first liquidity deposit.

use vstd::prelude::*;
use vstd::arithmetic::div_mod::lemma_div_by_self;
use vstd::arithmetic::div_mod::lemma_fundamental_div_mod;

verus! {

/// `r` is the integer square root of `n`, truncated toward zero.
pub open spec fn is_isqrt(n: int, r: int) -> bool {
    &&& 0 <= r
    &&& r * r <= n
    &&& n < (r + 1) * (r + 1)
}

/// The quotient of two positive numbers is at most the dividend and at
/// least zero, and dividend and divisor together put `x + n / x` at 2 or
/// more.
proof fn lemma_quotient_bounds(n: int, x: int, q: int)
    by (nonlinear_arith)
    requires
        1 <= x,
        1 <= n,
        n == x * q + n % x,
        0 <= n % x < x,
    ensures
        0 <= q <= n,
        2 <= x + q,
{
}

/// The integer square root of a perfect square is its root: a first
/// deposit of equal amounts `(x, x)` therefore mints exactly `x` shares.
pub proof fn lemma_isqrt_perfect_square(a: int)
    by (nonlinear_arith)
    requires
        0 <= a,
    ensures
        is_isqrt(a * a, a),
{
}

/// There is only one integer square root, so a contract stated with
/// `is_isqrt` pins the result exactly.
pub proof fn lemma_isqrt_unique(n: int, r1: int, r2: int)
    by (nonlinear_arith)
    requires
        is_isqrt(n, r1),
        is_isqrt(n, r2),
    ensures
        r1 == r2,
{
}

/// One Newton step from `x` lands at or above the square root again:
/// by the arithmetic-geometric mean inequality, `(x + n/x) / 2` squared
/// still exceeds `n` once rounding is accounted for.
proof fn lemma_newton_step_stays_above(n: int, x: int, q: int, y: int)
    by (nonlinear_arith)
    requires
        1 <= x,
        1 <= n,
        n == x * q + n % x,
        0 <= n % x < x,
        2 * y + 1 >= x + q,
    ensures
        n < (y + 1) * (y + 1),
{
    assert(n < x * (q + 1));
    assert((x + q + 1) * (x + q + 1) - 4 * (x * (q + 1)) == (x - q - 1) * (x - q - 1));
    assert(2 * (y + 1) >= x + q + 1);
    assert(4 * ((y + 1) * (y + 1)) >= (x + q + 1) * (x + q + 1));
}

/// Once a Newton step no longer decreases, the current iterate is at or
/// below the square root.
proof fn lemma_newton_fixpoint_is_root(n: int, x: int, q: int)
    by (nonlinear_arith)
    requires
        1 <= x,
        n == x * q + n % x,
        0 <= n % x < x,
        q >= x,
    ensures
        x * x <= n,
{
}

/// Integer square root by Newton's method, truncated toward zero.
pub fn isqrt(n: i128) -> (r: i128)
    requires
        0 <= n <= i128::MAX / 2,
    ensures
        is_isqrt(n as int, r as int),
{
    if n == 0 {
        return 0;
    }
    let mut x: i128 = n;
    let mut y: i128 = (x + 1) / 2;
    proof {
        lemma_div_by_self(n as int);
        lemma_fundamental_div_mod(n as int, n as int);
        lemma_newton_step_stays_above(n as int, n as int, 1, y as int);
        assert(n < (n + 1) * (n + 1)) by (nonlinear_arith)
            requires 1 <= n;
    }
    while y < x
        invariant
            1 <= n <= i128::MAX / 2,
            1 <= x <= n,
            1 <= y,
            n < (x + 1) * (x + 1),
            n < (y + 1) * (y + 1),
            y == (x + n / x) / 2,
        decreases x,
    {
        x = y;
        let q = n / x;
        proof {
            lemma_fundamental_div_mod(n as int, x as int);
            lemma_quotient_bounds(n as int, x as int, q as int);
            lemma_newton_step_stays_above(n as int, x as int, q as int, ((x + q) / 2) as int);
        }
        y = (x + q) / 2;
    }
    proof {
        lemma_fundamental_div_mod(n as int, x as int);
        lemma_newton_fixpoint_is_root(n as int, x as int, (n / x) as int);
    }
    x
}

} // verus!
