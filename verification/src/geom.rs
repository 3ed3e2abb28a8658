//! Two-dimensional fixed-point vectors.

use vstd::prelude::*;

verus! {

use crate::num::{
    floor_sqrt, isqrt_u128, mul_i128, lemma_floor_sqrt_exists, lemma_floor_sqrt_le,
    lemma_abs_le_sqrt,
};

/// A point or displacement in simulation space, in fixed-point
/// sub-units (see [`crate::num::FIXED_ONE`]).
#[derive(Clone, Copy, Debug, PartialEq, Eq, Structural)]
pub struct Vec2 {
    pub x: i64,
    pub y: i64,
}

impl Vec2 {
    pub open spec fn spec_zero() -> Vec2 {
        Vec2 { x: 0, y: 0 }
    }

    pub fn zero() -> (r: Vec2)
        ensures
            r == Self::spec_zero(),
    {
        Vec2 { x: 0, y: 0 }
    }

    /// Squared Euclidean length.
    pub open spec fn norm_sq(self) -> int {
        self.x * self.x + self.y * self.y
    }

    /// Euclidean length, rounded down to an integer.
    pub open spec fn mag_spec(self) -> int {
        floor_sqrt(self.norm_sq() as nat) as int
    }

    /// Both coordinates lie in `[-lim, lim]`.
    pub open spec fn bounded(self, lim: int) -> bool {
        -lim <= self.x <= lim && -lim <= self.y <= lim
    }

    /// Euclidean length, rounded down.
    pub fn magnitude(self) -> (m: i64)
        requires
            self.bounded(0x4000_0000_0000_0000),
        ensures
            m == self.mag_spec(),
            0 <= m,
            -m <= self.x <= m,
            -m <= self.y <= m,
            m * m <= self.norm_sq(),
    {
        let b: Ghost<int> = Ghost(0x4000_0000_0000_0000);
        let xx: i128 = mul_i128(self.x as i128, self.x as i128, b, b);
        let yy: i128 = mul_i128(self.y as i128, self.y as i128, b, b);
        proof {
            assert(0 <= self.x * self.x && 0 <= self.y * self.y) by (nonlinear_arith);
            assert((1u128 << 126) == 0x4000_0000_0000_0000_0000_0000_0000_0000u128) by (bit_vector);
        }
        let n: u128 = (xx as u128) + (yy as u128);
        let r: u64 = isqrt_u128(n);
        proof {
            // the root fits an i64 and dominates both coordinates
            lemma_floor_sqrt_exists(n as nat);
            assert((0x7fff_ffff_ffff_ffffnat + 1) * (0x7fff_ffff_ffff_ffffnat + 1)
                == 0x4000_0000_0000_0000_0000_0000_0000_0000nat) by (nonlinear_arith);
            lemma_floor_sqrt_le(n as nat, 0x7fff_ffff_ffff_ffffnat);
            lemma_abs_le_sqrt(self.x as int, n as nat, r as nat);
            lemma_abs_le_sqrt(self.y as int, n as nat, r as nat);
        }
        r as i64
    }
}

} // verus!
