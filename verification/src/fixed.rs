//! Fixed-point scalar arithmetic.
//!
//! Every physical quantity (position, velocity, force, mass, time) is an
//! `i64` holding thousandths of its unit.  Multiplication and division
//! rescale by `SCALE` and truncate toward zero, which is stated exactly by
//! the spec functions `fmul` and `fdiv` below.

use vstd::prelude::*;

verus! {

/// Fixed-point fractions per whole unit: scalars hold thousandths.
pub const SCALE: i64 = 1000;

/// Bound on every scalar stored in an entity (positions, velocities,
/// accelerations, masses, times): one million world units.
pub const MAX_SCALAR: i64 = 1_000_000_000;

/// Bound on the operands accepted by `fx_mul`.
pub const MAX_OP: i64 = 3_000_000_000;

/// Bound on each component of a stored force, and on the numerator
/// accepted by `fx_div`.
pub const MAX_FORCE: i64 = 4_000_000_000_000_000;

/// Bound on the numerator accepted by `fx_div`.
pub const MAX_WIDE: i64 = 9_000_000_000_000_000;

/// Bound on the squared length accepted by `fx_sqrt`.
pub const MAX_SQUARE: i64 = 16_000_000_000_000_000;

pub open spec fn in_scalar(a: int) -> bool {
    -MAX_SCALAR <= a <= MAX_SCALAR
}

pub open spec fn in_force(a: int) -> bool {
    -MAX_FORCE <= a <= MAX_FORCE
}

/// Division truncating toward zero, as the executable operations below
/// perform it on magnitudes.
pub open spec fn tdiv(a: int, b: int) -> int
    recommends
        b >= 1,
{
    if a >= 0 {
        a / b
    } else {
        -((-a) / b)
    }
}

/// Fixed-point product: the mathematical product rescaled by `SCALE`.
pub open spec fn fmul(a: int, b: int) -> int {
    tdiv(a * b, SCALE as int)
}

/// Fixed-point quotient: the mathematical quotient rescaled by `SCALE`.
pub open spec fn fdiv(a: int, b: int) -> int
    recommends
        b >= 1,
{
    tdiv(a * SCALE, b)
}

/// Exact integer square root.
pub open spec fn isqrt(n: nat) -> nat
    decreases n,
{
    if n == 0 {
        0
    } else {
        let r = isqrt((n - 1) as nat);
        if (r + 1) * (r + 1) <= n {
            r + 1
        } else {
            r
        }
    }
}

pub proof fn lemma_isqrt_bounds(n: nat)
    ensures
        isqrt(n) * isqrt(n) <= n,
        n < (isqrt(n) + 1) * (isqrt(n) + 1),
    decreases n,
{
    let s = isqrt(n);
    if n == 0 {
        assert(s == 0);
        assert(n < (s + 1) * (s + 1)) by (nonlinear_arith)
            requires
                s == 0,
                n == 0,
        ;
    } else {
        lemma_isqrt_bounds((n - 1) as nat);
        let r = isqrt((n - 1) as nat);
        if (r + 1) * (r + 1) <= n {
            assert(s == r + 1);
            assert(s * s <= n && n < (s + 1) * (s + 1)) by (nonlinear_arith)
                requires
                    s == r + 1,
                    r >= 0,
                    (r + 1) * (r + 1) <= n,
                    n - 1 < (r + 1) * (r + 1),
            ;
        } else {
            assert(s == r);
            assert(s * s <= n && n < (s + 1) * (s + 1)) by (nonlinear_arith)
                requires
                    s == r,
                    r >= 0,
                    n >= 1,
                    r * r <= n - 1,
                    !((r + 1) * (r + 1) <= n),
            ;
        }
    }
}

pub proof fn lemma_isqrt_unique(n: nat, r: nat)
    requires
        r * r <= n,
        n < (r + 1) * (r + 1),
    ensures
        r == isqrt(n),
{
    lemma_isqrt_bounds(n);
    let s = isqrt(n);
    if r < s {
        assert((r + 1) * (r + 1) <= s * s) by (nonlinear_arith)
            requires
                r + 1 <= s,
        ;
    }
    if s < r {
        assert((s + 1) * (s + 1) <= r * r) by (nonlinear_arith)
            requires
                s + 1 <= r,
        ;
    }
}

/// Fixed-point product of two scalars, truncating toward zero.
pub fn fx_mul(a: i64, b: i64) -> (r: i64)
    requires
        -MAX_OP <= a <= MAX_OP,
        -MAX_OP <= b <= MAX_OP,
    ensures
        r == fmul(a as int, b as int),
        -MAX_WIDE <= r <= MAX_WIDE,
        (-2_000_000_000 <= a <= 2_000_000_000 && -2_000_000_000 <= b <= 2_000_000_000)
            ==> -MAX_FORCE <= r <= MAX_FORCE,
{
    let neg: bool = (a < 0) != (b < 0);
    let am: u64 = if a < 0 {
        (-a) as u64
    } else {
        a as u64
    };
    let bm: u64 = if b < 0 {
        (-b) as u64
    } else {
        b as u64
    };
    proof {
        assert((am as int) * (bm as int) <= 9_000_000_000_000_000_000) by (nonlinear_arith)
            requires
                0 <= am as int <= 3_000_000_000,
                0 <= bm as int <= 3_000_000_000,
        ;
    }
    let p: u128 = (am as u128) * (bm as u128);
    let q: u128 = p / (SCALE as u128);
    proof {
        let ai = a as int;
        let bi = b as int;
        let ami = am as int;
        let bmi = bm as int;
        if !neg {
            assert(ai * bi == ami * bmi) by (nonlinear_arith)
                requires
                    (ai >= 0 && bi >= 0 && ami == ai && bmi == bi) || (ai < 0 && bi < 0 && ami
                        == -ai && bmi == -bi),
            ;
        } else {
            assert(ai * bi == -(ami * bmi)) by (nonlinear_arith)
                requires
                    (ai < 0 && bi >= 0 && ami == -ai && bmi == bi) || (ai >= 0 && bi < 0 && ami
                        == ai && bmi == -bi),
            ;
        }
        assert(q == (ami * bmi) / 1000);
        if -2_000_000_000 <= ai <= 2_000_000_000 && -2_000_000_000 <= bi <= 2_000_000_000 {
            assert(ami * bmi <= 4_000_000_000_000_000_000) by (nonlinear_arith)
                requires
                    0 <= ami <= 2_000_000_000,
                    0 <= bmi <= 2_000_000_000,
            ;
            vstd::arithmetic::div_mod::lemma_fundamental_div_mod(ami * bmi, 1000);
            vstd::arithmetic::div_mod::lemma_mod_bound(ami * bmi, 1000);
        }
    }
    if neg {
        -(q as i64)
    } else {
        q as i64
    }
}

/// Fixed-point quotient of a scalar by a positive scalar, truncating
/// toward zero.
pub fn fx_div(a: i64, b: i64) -> (r: i64)
    requires
        -MAX_WIDE <= a <= MAX_WIDE,
        1 <= b,
    ensures
        r == fdiv(a as int, b as int),
        b >= SCALE ==> (if a >= 0 {
            0 <= r <= a
        } else {
            a <= r <= 0
        }),
{
    let neg: bool = a < 0;
    let am: u64 = if a < 0 {
        (-a) as u64
    } else {
        a as u64
    };
    proof {
        assert((am as int) * (SCALE as int) <= 9_000_000_000_000_000_000) by (nonlinear_arith)
            requires
                0 <= am as int <= 9_000_000_000_000_000,
                SCALE as int == 1000,
        ;
    }
    let p: u128 = (am as u128) * (SCALE as u128);
    let q: u128 = p / (b as u128);
    proof {
        let ai = a as int;
        let ami = am as int;
        let bi = b as int;
        assert(q == (ami * 1000) / bi);
        assert((ami * 1000) / bi <= ami * 1000) by (nonlinear_arith)
            requires
                bi >= 1,
                ami >= 0,
        ;
        if neg {
            assert(ai * 1000 == -(ami * 1000)) by (nonlinear_arith)
                requires
                    ai < 0,
                    ami == -ai,
            ;
        }
        if bi >= SCALE as int {
            vstd::arithmetic::div_mod::lemma_div_is_ordered_by_denominator(ami * 1000, 1000, bi);
            vstd::arithmetic::div_mod::lemma_div_multiples_vanish(ami, 1000);
            assert(ami * 1000 == 1000 * ami);
        }
    }
    if neg {
        -(q as i64)
    } else {
        q as i64
    }
}

/// Integer square root of a fixed-point square: for a squared length `a`
/// in fixed-point units this returns the fixed-point length.
pub fn fx_sqrt(a: i64) -> (r: i64)
    requires
        0 <= a <= MAX_SQUARE,
    ensures
        0 <= r <= 4_100_000_000,
        r == isqrt((a * SCALE) as nat),
{
    proof {
        assert((a as int) * (SCALE as int) <= 16_000_000_000_000_000_000) by (nonlinear_arith)
            requires
                0 <= a as int <= 16_000_000_000_000_000,
                SCALE as int == 1000,
        ;
    }
    let n: u128 = (a as u128) * (SCALE as u128);
    let mut lo: u64 = 0;
    let mut hi: u64 = 4_100_000_000;
    proof {
        assert((hi as int) * (hi as int) == 16_810_000_000_000_000_000) by (nonlinear_arith)
            requires
                hi == 4_100_000_000,
        ;
    }
    while lo + 1 < hi
        invariant
            lo < hi <= 4_100_000_000,
            (lo as int) * (lo as int) <= n as int,
            (n as int) < (hi as int) * (hi as int),
            n == (a as int) * (SCALE as int),
        decreases hi - lo,
    {
        let mid: u64 = lo + (hi - lo) / 2;
        proof {
            assert((mid as int) * (mid as int) <= 16_810_000_000_000_000_000) by (nonlinear_arith)
                requires
                    0 <= mid as int <= 4_100_000_000,
            ;
        }
        let m2: u128 = (mid as u128) * (mid as u128);
        if m2 <= n {
            lo = mid;
        } else {
            hi = mid;
        }
    }
    proof {
        lemma_isqrt_unique((a * SCALE) as nat, lo as nat);
    }
    lo as i64
}

} // verus!
