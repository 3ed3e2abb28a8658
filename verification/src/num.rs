//! Fixed-point scalar arithmetic for the layout engine.
//!
//! A world coordinate is an `i64` counted in units of `1 / FIXED_ONE`
//! of a world unit.  All engine arithmetic widens to `i128`, divides
//! with truncation towards zero (`sdiv_spec`), and clamps results back
//! into symmetric ranges (`clip_spec`), so no operation can overflow
//! and every intermediate quantity stays bounded.

use vstd::prelude::*;

verus! {

use vstd::arithmetic::div_mod::{
    lemma_div_of0, lemma_div_pos_is_pos, lemma_div_nonincreasing,
};

/// Fixed-point sub-units per world unit.
pub const FIXED_ONE: i64 = 1000;

/// Minimum distance floor (0.01 world units): keeps force magnitudes
/// finite when two nodes coincide.
pub const EPSILON: i64 = 10;

/// Bound on the absolute value of a position coordinate (2^40 sub-units).
pub const COORD_LIMIT: i64 = 0x100_0000_0000;

/// Bound on the absolute value of a displacement coordinate (2^62 sub-units).
pub const DISP_LIMIT: i64 = 0x4000_0000_0000_0000;

/// Clamp `v` into the symmetric interval `[-lim, lim]`.
pub open spec fn clip_spec(v: int, lim: int) -> int {
    if v < -lim {
        -lim
    } else if v > lim {
        lim
    } else {
        v
    }
}

/// Division of `a` by a positive `b`, truncating towards zero,
/// as Rust's integer division does.
pub open spec fn sdiv_spec(a: int, b: int) -> int
    recommends
        b > 0,
{
    if a >= 0 {
        a / b
    } else {
        -((-a) / b)
    }
}

/// `r` is the integer square root of `n`, rounded down.
pub open spec fn is_floor_sqrt(n: nat, r: nat) -> bool {
    r * r <= n < (r + 1) * (r + 1)
}

/// The integer square root of `n`, rounded down.
/// `lemma_floor_sqrt_exists` shows the `choose` is inhabited,
/// `lemma_floor_sqrt_unique` that it is a function.
pub open spec fn floor_sqrt(n: nat) -> nat {
    choose|r: nat| is_floor_sqrt(n, r)
}

pub proof fn lemma_floor_sqrt_exists(n: nat)
    ensures
        is_floor_sqrt(n, floor_sqrt(n)),
    decreases n,
{
    if n == 0 {
        assert(is_floor_sqrt(0, 0)) by (nonlinear_arith);
        assert(exists|r: nat| is_floor_sqrt(0, r));
    } else {
        lemma_floor_sqrt_exists((n - 1) as nat);
        let r = floor_sqrt((n - 1) as nat);
        if (r + 1) * (r + 1) <= n {
            // n - 1 < (r + 1) * (r + 1) <= n forces n == (r + 1) * (r + 1).
            assert(is_floor_sqrt(n, r + 1)) by (nonlinear_arith)
                requires
                    r * r <= n - 1 < (r + 1) * (r + 1),
                    (r + 1) * (r + 1) <= n,
            ;
            assert(exists|s: nat| is_floor_sqrt(n, s));
        } else {
            assert(is_floor_sqrt(n, r));
            assert(exists|s: nat| is_floor_sqrt(n, s));
        }
    }
}

pub proof fn lemma_floor_sqrt_unique(n: nat, r: nat)
    requires
        is_floor_sqrt(n, r),
    ensures
        r == floor_sqrt(n),
{
    lemma_floor_sqrt_exists(n);
    let s = floor_sqrt(n);
    assert(r == s) by (nonlinear_arith)
        requires
            r * r <= n < (r + 1) * (r + 1),
            s * s <= n < (s + 1) * (s + 1),
    ;
}

/// Bounds on the integer square root, derived from its defining window.
pub proof fn lemma_floor_sqrt_le(n: nat, b: nat)
    requires
        n < (b + 1) * (b + 1),
    ensures
        floor_sqrt(n) <= b,
{
    lemma_floor_sqrt_exists(n);
    let r = floor_sqrt(n);
    assert(r <= b) by (nonlinear_arith)
        requires
            r * r <= n < (b + 1) * (b + 1),
    ;
}

/// No coordinate of a vector exceeds the vector's Euclidean length.
pub proof fn lemma_abs_le_sqrt(a: int, n: nat, r: nat)
    requires
        a * a <= n,
        is_floor_sqrt(n, r),
    ensures
        -(r as int) <= a <= r as int,
{
    assert(-(r as int) <= a <= r as int) by (nonlinear_arith)
        requires
            a * a <= n,
            r * r <= n < (r + 1) * (r + 1),
    ;
}

/// Truncating division negates with its numerator, which is what makes
/// the repulsive force contributions of a node pair exactly antisymmetric.
pub proof fn lemma_sdiv_neg(a: int, b: int)
    requires
        b > 0,
    ensures
        sdiv_spec(-a, b) == -sdiv_spec(a, b),
{
    if a == 0 {
        lemma_div_of0(b);
    }
}

/// Multiply two `i128` values whose magnitudes are known to be small
/// enough that the product fits; the ghost bounds carry that knowledge.
pub fn mul_i128(a: i128, b: i128, Ghost(bound_a): Ghost<int>, Ghost(bound_b): Ghost<int>) -> (r: i128)
    requires
        -bound_a <= a <= bound_a,
        -bound_b <= b <= bound_b,
        0 <= bound_a,
        0 <= bound_b,
        bound_a * bound_b < 0x4000_0000_0000_0000_0000_0000_0000_0000,
    ensures
        r == a * b,
        -(bound_a * bound_b) <= r <= bound_a * bound_b,
{
    proof {
        assert(-(bound_a * bound_b) <= a * b <= bound_a * bound_b) by (nonlinear_arith)
            requires
                -bound_a <= a <= bound_a,
                -bound_b <= b <= bound_b,
                0 <= bound_a,
                0 <= bound_b,
        ;
    }
    a * b
}

/// Clamp an `i128` into `[-lim, lim]`.
pub fn clip_i128(v: i128, lim: i64) -> (r: i64)
    requires
        0 < lim,
    ensures
        r == clip_spec(v as int, lim as int),
{
    if v < -(lim as i128) {
        -lim
    } else if v > lim as i128 {
        lim
    } else {
        v as i64
    }
}

/// Truncating division never grows the numerator's magnitude.
pub proof fn lemma_sdiv_magnitude(a: int, b: int)
    requires
        b > 0,
    ensures
        a >= 0 ==> 0 <= sdiv_spec(a, b) <= a,
        a < 0 ==> a <= sdiv_spec(a, b) <= 0,
{
    if a >= 0 {
        lemma_div_pos_is_pos(a, b);
        lemma_div_nonincreasing(a, b);
    } else {
        lemma_div_pos_is_pos(-a, b);
        lemma_div_nonincreasing(-a, b);
    }
}

/// Division truncating towards zero, for a positive divisor.
pub fn sdiv_i128(a: i128, b: i128) -> (r: i128)
    requires
        0 < b,
        i128::MIN < a,
    ensures
        r == sdiv_spec(a as int, b as int),
        0 <= a ==> 0 <= r <= a,
        a < 0 ==> a <= r <= 0,
{
    proof {
        lemma_sdiv_magnitude(a as int, b as int);
    }
    if a >= 0 {
        ((a as u128) / (b as u128)) as i128
    } else {
        let m: u128 = (-a) as u128;
        -((m / (b as u128)) as i128)
    }
}

/// Integer square root of `x`, rounded down, by bisection.
pub fn isqrt_u128(x: u128) -> (r: u64)
    requires
        x < 1u128 << 126,
    ensures
        r == floor_sqrt(x as nat),
{
    let mut lo: u128 = 0;
    let mut hi: u128 = 1u128 << 63;
    proof {
        assert((1u128 << 63) * (1u128 << 63) == 1u128 << 126) by (bit_vector);
        assert(1u128 << 63 > 1) by (bit_vector);
    }
    while lo + 1 < hi
        invariant
            lo < hi,
            hi <= 1u128 << 63,
            lo * lo <= x,
            hi * hi > x,
        decreases hi - lo,
    {
        let mid = lo + (hi - lo) / 2;
        assert(lo < mid < hi);
        proof {
            assert((1u128 << 63) * (1u128 << 63) == 1u128 << 126) by (bit_vector);
            assert(mid * mid < (1u128 << 63) * (1u128 << 63)) by (nonlinear_arith)
                requires
                    mid < 1u128 << 63,
            ;
        }
        if mid * mid <= x {
            lo = mid;
        } else {
            hi = mid;
        }
    }
    proof {
        assert(hi == lo + 1);
        lemma_floor_sqrt_unique(x as nat, lo as nat);
        assert(lo < 1u128 << 63 ==> lo <= u64::MAX) by (bit_vector);
    }
    lo as u64
}

} // verus!
