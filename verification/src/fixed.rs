//! Fixed-point scalar arithmetic: truncating division, saturation and
//! integer square root, the primitives the vector and intersection code
//! is built from.

use vstd::prelude::*;

verus! {

/// Steps per world unit: every scalar in the crate counts in 1/SCALE units.
pub const SCALE: i64 = 1_000_000;

/// Bound on world coordinates (cube corners, plane points, camera pose).
pub const COORD_MAX: i64 = 0x100_0000_0000;

/// Bound on ray origins: a world point nudged by at most one unit.
pub const ORIGIN_MAX: i64 = 0x100_0000_0000 + 1_000_000;

/// Division that truncates toward zero, the rounding every scalar
/// computation of this crate uses.
pub open spec fn div_trunc(a: int, b: int) -> int
    recommends
        b > 0,
{
    if a >= 0 {
        a / b
    } else {
        -((-a) / b)
    }
}

/// Clamp an exact value into the i64-representable coordinate range.
pub open spec fn sat_coord(a: int) -> int {
    if a > COORD_MAX {
        COORD_MAX as int
    } else if a < -COORD_MAX {
        -COORD_MAX as int
    } else {
        a
    }
}

/// Truncating division of a wide scalar by a positive wide scalar.
pub fn div_trunc_i128(a: i128, b: i128) -> (r: i128)
    requires
        0 < b,
        i128::MIN < a,
    ensures
        r == div_trunc(a as int, b as int),
{
    if a >= 0 {
        a / b
    } else {
        let q: i128 = (-a) / b;
        -q
    }
}

/// Truncating division never exceeds `c` once the numerator is at most `c * b`.
pub proof fn lemma_div_trunc_le(a: int, b: int, c: int)
    requires
        0 < b,
        a <= c * b,
    ensures
        div_trunc(a, b) <= c,
{
    if a >= 0 {
        vstd::arithmetic::div_mod::lemma_div_is_ordered(a, c * b, b);
        vstd::arithmetic::div_mod::lemma_div_multiples_vanish(c, b);
        assert(c * b == b * c) by (nonlinear_arith);
    } else {
        assert((-c) * b == -(c * b)) by (nonlinear_arith);
        vstd::arithmetic::div_mod::lemma_div_is_ordered((-c) * b, -a, b);
        vstd::arithmetic::div_mod::lemma_div_multiples_vanish(-c, b);
        assert((-c) * b == b * (-c)) by (nonlinear_arith);
    }
}

/// Truncating division stays at least `c` once the numerator is at least `c * b`.
pub proof fn lemma_div_trunc_ge(a: int, b: int, c: int)
    requires
        0 < b,
        c * b <= a,
    ensures
        c <= div_trunc(a, b),
{
    if a >= 0 {
        if c >= 0 {
            vstd::arithmetic::div_mod::lemma_div_is_ordered(c * b, a, b);
            vstd::arithmetic::div_mod::lemma_div_multiples_vanish(c, b);
            assert(c * b == b * c) by (nonlinear_arith);
        } else {
            vstd::arithmetic::div_mod::lemma_div_pos_is_pos(a, b);
        }
    } else {
        assert((-c) * b == -(c * b)) by (nonlinear_arith);
        vstd::arithmetic::div_mod::lemma_div_is_ordered(-a, (-c) * b, b);
        vstd::arithmetic::div_mod::lemma_div_multiples_vanish(-c, b);
        assert((-c) * b == b * (-c)) by (nonlinear_arith);
    }
}

/// Truncating an exact multiple loses nothing.
pub proof fn lemma_div_trunc_exact(c: int, b: int)
    requires
        0 < b,
    ensures
        div_trunc(c * b, b) == c,
{
    lemma_div_trunc_le(c * b, b, c);
    lemma_div_trunc_ge(c * b, b, c);
}

proof fn lemma_square_monotone(a: int, b: int)
    by (nonlinear_arith)
    requires
        0 <= a,
        0 <= b,
        a <= b,
    ensures
        a * a <= b * b,
{
}

/// Bound on both factors of `mul_fixed`.
pub const MUL_FIXED_MAX: i64 = 0x40_0000_0000;

/// Fixed-point multiplication: the product of two scalars, truncated back
/// to SCALE steps.
pub fn mul_fixed(a: i64, b: i64) -> (r: i64)
    requires
        -MUL_FIXED_MAX <= a <= MUL_FIXED_MAX,
        -MUL_FIXED_MAX <= b <= MUL_FIXED_MAX,
    ensures
        r == div_trunc(a * b, SCALE as int),
        a >= 0 && b >= 0 ==> r >= 0,
{
    proof {
        assert(-(MUL_FIXED_MAX as int * MUL_FIXED_MAX as int) <= (a as int) * (b as int)
            <= MUL_FIXED_MAX as int * MUL_FIXED_MAX as int) by (nonlinear_arith)
            requires
                -MUL_FIXED_MAX <= a <= MUL_FIXED_MAX,
                -MUL_FIXED_MAX <= b <= MUL_FIXED_MAX,
        ;
        lemma_div_trunc_le((a as int) * (b as int), SCALE as int, 0x7000_0000_0000_0000);
        lemma_div_trunc_ge((a as int) * (b as int), SCALE as int, -0x7000_0000_0000_0000);
        if a >= 0 && b >= 0 {
            assert((a as int) * (b as int) >= 0) by (nonlinear_arith)
                requires
                    a >= 0,
                    b >= 0,
            ;
            lemma_div_trunc_ge((a as int) * (b as int), SCALE as int, 0);
        }
    }
    let p: i128 = (a as i128) * (b as i128);
    let q: i128 = div_trunc_i128(p, SCALE as i128);
    q as i64
}

/// Every non-negative number below the square root input cap has an
/// integer square root, so `sqrt_of` denotes a genuine witness.
pub proof fn lemma_sqrt_exists(n: int)
    requires
        0 <= n,
    ensures
        is_sqrt(n, sqrt_of(n)),
    decreases n,
{
    if n == 0 {
        assert(is_sqrt(0, 0));
        lemma_sqrt_of(0, 0);
    } else {
        lemma_sqrt_exists(n - 1);
        let r = sqrt_of(n - 1);
        if (r + 1) * (r + 1) <= n {
            assert(is_sqrt(n, r + 1)) by (nonlinear_arith)
                requires
                    is_sqrt(n - 1, r),
                    (r + 1) * (r + 1) <= n,
            ;
            lemma_sqrt_of(n, r + 1);
        } else {
            assert(is_sqrt(n, r));
            lemma_sqrt_of(n, r);
        }
    }
}

/// `r` is the integer square root of `n`.
pub open spec fn is_sqrt(n: int, r: int) -> bool {
    0 <= r && r * r <= n && n < (r + 1) * (r + 1)
}

/// The integer square root as a spec-level value.
pub open spec fn sqrt_of(n: int) -> int {
    choose|r: int| is_sqrt(n, r)
}

pub proof fn lemma_sqrt_unique(n: int, r1: int, r2: int)
    by (nonlinear_arith)
    requires
        is_sqrt(n, r1),
        is_sqrt(n, r2),
    ensures
        r1 == r2,
{
}

/// Any witness of `is_sqrt` is the value `sqrt_of` denotes.
pub proof fn lemma_sqrt_of(n: int, r: int)
    requires
        is_sqrt(n, r),
    ensures
        sqrt_of(n) == r,
{
    assert(exists|q: int| is_sqrt(n, q)) by {
        assert(is_sqrt(n, r));
    }
    assert(is_sqrt(n, sqrt_of(n)));
    lemma_sqrt_unique(n, sqrt_of(n), r);
}

/// Largest input the square root accepts, 2^100.
pub const ISQRT_IN_MAX: u128 = 0x10_0000_0000_0000_0000_0000_0000;

/// Integer square root: the largest `r` with `r * r <= n`.
pub fn isqrt(n: u128) -> (r: u64)
    requires
        n < ISQRT_IN_MAX,
    ensures
        r * r <= n < (r + 1) * (r + 1),
        r < 0x8_0000_0000_0000,
{
    if n == 0 {
        return 0;
    }
    let mut lo: u64 = 0;
    let mut hi: u64 = 0x8_0000_0000_0000;
    proof {
        assert((hi as int) * (hi as int) == 0x40_0000_0000_0000_0000_0000_0000);
    }
    while lo + 1 < hi
        invariant
            lo < hi <= 0x8_0000_0000_0000,
            (lo as nat) * (lo as nat) <= n as nat,
            n < (hi as nat) * (hi as nat),
        decreases hi - lo,
    {
        let mid: u64 = lo + (hi - lo) / 2;
        proof {
            lemma_square_monotone(mid as int, 0x8_0000_0000_0000);
        }
        let sq: u128 = (mid as u128) * (mid as u128);
        if sq <= n {
            lo = mid;
        } else {
            hi = mid;
        }
    }
    lo
}

} // verus!
