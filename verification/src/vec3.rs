//! Three-component vectors over fixed-point scalars, with the exact
//! integer specifications of every geometric operation the solver uses.
//!
//! A direction is "unit-scaled" when its components are fixed-point values
//! of a vector of length about 1.0, that is about `SCALE` in stored units.
//! `normalize_unit` produces such directions and falls back to the world +Y
//! axis on degenerate (zero-length) input, the convention used everywhere.

use vstd::prelude::*;
use crate::fixed;
use crate::fixed::{LEN_MAX, SCALE};

verus! {

/// A point or direction in world space, components scaled by `SCALE`.
#[derive(Clone, Copy, PartialEq, Eq, Structural, Debug)]
pub struct Vec3Fx {
    pub x: i64,
    pub y: i64,
    pub z: i64,
}

impl Vec3Fx {
    /// Every component within `[-b, b]`.
    pub open spec fn bounded(self, b: int) -> bool {
        -b <= self.x <= b && -b <= self.y <= b && -b <= self.z <= b
    }

    /// Squared Euclidean norm, as an unbounded integer.
    pub open spec fn norm_sq(self) -> int {
        (self.x as int) * (self.x as int) + (self.y as int) * (self.y as int)
            + (self.z as int) * (self.z as int)
    }

    /// Dot product, as an unbounded integer.
    pub open spec fn dot_spec(self, o: Vec3Fx) -> int {
        (self.x as int) * (o.x as int) + (self.y as int) * (o.y as int)
            + (self.z as int) * (o.z as int)
    }

    pub open spec fn spec_add(self, o: Vec3Fx) -> Vec3Fx {
        Vec3Fx { x: (self.x + o.x) as i64, y: (self.y + o.y) as i64, z: (self.z + o.z) as i64 }
    }

    pub open spec fn spec_sub(self, o: Vec3Fx) -> Vec3Fx {
        Vec3Fx { x: (self.x - o.x) as i64, y: (self.y - o.y) as i64, z: (self.z - o.z) as i64 }
    }

    /// The unit +Y direction, the fallback for degenerate normalization.
    pub open spec fn spec_unit_y() -> Vec3Fx {
        Vec3Fx { x: 0, y: SCALE as i64, z: 0 }
    }

    /// Floor of the Euclidean norm.
    pub open spec fn spec_length(self) -> int {
        fixed::sqrt_floor(self.norm_sq())
    }

    /// Unit-scaled direction of `self`: each component is
    /// `component * SCALE / |self|` rounded toward zero; +Y when degenerate.
    pub open spec fn spec_normalize(self) -> Vec3Fx {
        let n = self.spec_length();
        if n == 0 {
            Vec3Fx::spec_unit_y()
        } else {
            Vec3Fx {
                x: fixed::tdiv(self.x * SCALE, n) as i64,
                y: fixed::tdiv(self.y * SCALE, n) as i64,
                z: fixed::tdiv(self.z * SCALE, n) as i64,
            }
        }
    }

    /// A unit-scaled direction stretched to length `len`:
    /// `component * len / SCALE` rounded toward zero.
    pub open spec fn spec_scale_dir(self, len: i64) -> Vec3Fx {
        Vec3Fx {
            x: fixed::tdiv(self.x * len, SCALE as int) as i64,
            y: fixed::tdiv(self.y * len, SCALE as int) as i64,
            z: fixed::tdiv(self.z * len, SCALE as int) as i64,
        }
    }

    /// Cross product; the components stay at the product of the two input
    /// scales (callers normalize afterwards).
    pub open spec fn spec_cross(self, o: Vec3Fx) -> Vec3Fx {
        Vec3Fx {
            x: (self.y * o.z - self.z * o.y) as i64,
            y: (self.z * o.x - self.x * o.z) as i64,
            z: (self.x * o.y - self.y * o.x) as i64,
        }
    }

    /// Squared distance between two points, as an unbounded integer.
    pub open spec fn spec_dist_sq(self, o: Vec3Fx) -> int {
        (self.x - o.x) * (self.x - o.x) + (self.y - o.y) * (self.y - o.y)
            + (self.z - o.z) * (self.z - o.z)
    }

    pub fn unit_y() -> (r: Vec3Fx)
        ensures
            r == Vec3Fx::spec_unit_y(),
            r.bounded(SCALE as int),
    {
        Vec3Fx { x: 0, y: SCALE, z: 0 }
    }

    pub fn add(self, o: Vec3Fx) -> (r: Vec3Fx)
        requires
            self.bounded(0x2000_0000_0000_0000),
            o.bounded(0x2000_0000_0000_0000),
        ensures
            r == self.spec_add(o),
            r.x as int == self.x + o.x,
            r.y as int == self.y + o.y,
            r.z as int == self.z + o.z,
    {
        Vec3Fx { x: self.x + o.x, y: self.y + o.y, z: self.z + o.z }
    }

    pub fn sub(self, o: Vec3Fx) -> (r: Vec3Fx)
        requires
            self.bounded(0x2000_0000_0000_0000),
            o.bounded(0x2000_0000_0000_0000),
        ensures
            r == self.spec_sub(o),
            r.x as int == self.x - o.x,
            r.y as int == self.y - o.y,
            r.z as int == self.z - o.z,
    {
        Vec3Fx { x: self.x - o.x, y: self.y - o.y, z: self.z - o.z }
    }

    /// Dot product over an `i64` result; inputs stay small enough that the
    /// three products cannot overflow.
    pub fn dot(self, o: Vec3Fx) -> (r: i64)
        requires
            self.bounded(0x4000_0000),
            o.bounded(0x4000_0000),
        ensures
            r as int == self.dot_spec(o),
    {
        proof {
            lemma_prod_bound(self.x as int, o.x as int, 0x4000_0000);
            lemma_prod_bound(self.y as int, o.y as int, 0x4000_0000);
            lemma_prod_bound(self.z as int, o.z as int, 0x4000_0000);
        }
        self.x * o.x + self.y * o.y + self.z * o.z
    }

    pub fn cross(self, o: Vec3Fx) -> (r: Vec3Fx)
        requires
            self.bounded(0x4000_0000),
            o.bounded(0x4000_0000),
        ensures
            r == self.spec_cross(o),
            r.bounded(0x2000_0000_0000_0000),
    {
        proof {
            lemma_prod_bound(self.y as int, o.z as int, 0x4000_0000);
            lemma_prod_bound(self.z as int, o.y as int, 0x4000_0000);
            lemma_prod_bound(self.z as int, o.x as int, 0x4000_0000);
            lemma_prod_bound(self.x as int, o.z as int, 0x4000_0000);
            lemma_prod_bound(self.x as int, o.y as int, 0x4000_0000);
            lemma_prod_bound(self.y as int, o.x as int, 0x4000_0000);
        }
        Vec3Fx {
            x: self.y * o.z - self.z * o.y,
            y: self.z * o.x - self.x * o.z,
            z: self.x * o.y - self.y * o.x,
        }
    }

    /// Floor of the Euclidean norm; also pins each component's magnitude
    /// below the returned length plus one.
    pub fn length(self) -> (r: i64)
        requires
            self.bounded(0x2000_0000_0000_0000),
        ensures
            r as int == self.spec_length(),
            0 <= r,
            (r as int) * (r as int) <= self.norm_sq(),
            self.norm_sq() < (r as int + 1) * (r as int + 1),
            self.bounded(r as int),
    {
        let n2: i128 = self.norm_sq128();
        let r64: u64 = fixed::isqrt(n2 as u128);
        proof {
            lemma_comp_sq_le_norm_sq(self);
            fixed::lemma_abs_le_of_sq_lt(self.x as int, r64 as int);
            fixed::lemma_abs_le_of_sq_lt(self.y as int, r64 as int);
            fixed::lemma_abs_le_of_sq_lt(self.z as int, r64 as int);
        }
        r64 as i64
    }

    /// Squared norm over `i128`, exact.
    pub fn norm_sq128(self) -> (r: i128)
        requires
            self.bounded(0x2000_0000_0000_0000),
        ensures
            r as int == self.norm_sq(),
            0 <= r,
            (r as int) < 0x4000_0000_0000_0000_0000_0000_0000_0000,
    {
        proof {
            lemma_sq_range(self.x as int, 0x2000_0000_0000_0000);
            lemma_sq_range(self.y as int, 0x2000_0000_0000_0000);
            lemma_sq_range(self.z as int, 0x2000_0000_0000_0000);
        }
        (self.x as i128) * (self.x as i128) + (self.y as i128) * (self.y as i128)
            + (self.z as i128) * (self.z as i128)
    }

    /// Squared distance, exact over `i128`.
    pub fn dist_sq(self, o: Vec3Fx) -> (r: i128)
        requires
            self.bounded(0x1000_0000_0000_0000),
            o.bounded(0x1000_0000_0000_0000),
        ensures
            r as int == self.spec_dist_sq(o),
            0 <= r,
    {
        let dx: i128 = (self.x as i128) - (o.x as i128);
        let dy: i128 = (self.y as i128) - (o.y as i128);
        let dz: i128 = (self.z as i128) - (o.z as i128);
        proof {
            lemma_sq_range(dx as int, 0x2000_0000_0000_0000);
            lemma_sq_range(dy as int, 0x2000_0000_0000_0000);
            lemma_sq_range(dz as int, 0x2000_0000_0000_0000);
        }
        dx * dx + dy * dy + dz * dz
    }

    /// Unit-scaled direction of `self`, +Y on zero input. The result's
    /// components never exceed `SCALE` in magnitude.
    pub fn normalize_unit(self) -> (r: Vec3Fx)
        requires
            self.bounded(0x2000_0000_0000_0000),
        ensures
            r == self.spec_normalize(),
            r.bounded(SCALE as int),
    {
        let n = self.length();
        if n == 0 {
            Vec3Fx::unit_y()
        } else {
            proof {
                lemma_prod_le(self.x as int, SCALE as int, n as int);
                lemma_prod_le(self.y as int, SCALE as int, n as int);
                lemma_prod_le(self.z as int, SCALE as int, n as int);
                fixed::lemma_tdiv_mul_le((self.x as int) * (SCALE as int), n as int, SCALE as int);
                fixed::lemma_tdiv_mul_le((self.y as int) * (SCALE as int), n as int, SCALE as int);
                fixed::lemma_tdiv_mul_le((self.z as int) * (SCALE as int), n as int, SCALE as int);
            }
            Vec3Fx {
                x: fixed::mul_div(self.x, SCALE, n),
                y: fixed::mul_div(self.y, SCALE, n),
                z: fixed::mul_div(self.z, SCALE, n),
            }
        }
    }

    /// Stretch a direction of scale at most `32 * SCALE` to length `len`.
    /// Components of the result stay within `32 * len`.
    pub fn scale_dir(self, len: i64) -> (r: Vec3Fx)
        requires
            self.bounded(32 * SCALE as int),
            0 <= len <= LEN_MAX as int,
        ensures
            r == self.spec_scale_dir(len),
            r.bounded(32 * len as int),
    {
        proof {
            lemma_prod_le(self.x as int, len as int, 32 * SCALE as int);
            lemma_prod_le(self.y as int, len as int, 32 * SCALE as int);
            lemma_prod_le(self.z as int, len as int, 32 * SCALE as int);
            assert(32 * (SCALE as int) * (len as int) == (32 * (len as int)) * (SCALE as int))
                by (nonlinear_arith);
            fixed::lemma_tdiv_mul_le((self.x as int) * (len as int), SCALE as int, 32 * len as int);
            fixed::lemma_tdiv_mul_le((self.y as int) * (len as int), SCALE as int, 32 * len as int);
            fixed::lemma_tdiv_mul_le((self.z as int) * (len as int), SCALE as int, 32 * len as int);
        }
        Vec3Fx {
            x: fixed::mul_div(self.x, len, SCALE),
            y: fixed::mul_div(self.y, len, SCALE),
            z: fixed::mul_div(self.z, len, SCALE),
        }
    }
}

/// `|a|, |b| <= m` pins `a * b` within `m * m`.
pub proof fn lemma_prod_bound(a: int, b: int, m: int)
    by (nonlinear_arith)
    requires
        0 <= m,
        -m <= a <= m,
        -m <= b <= m,
    ensures
        -(m * m) <= a * b <= m * m,
{
}

/// `|a| <= c` pins `a * s` within `c * s` for `s >= 0`.
pub proof fn lemma_prod_le(a: int, s: int, c: int)
    by (nonlinear_arith)
    requires
        0 <= s,
        0 <= c,
        -c <= a <= c,
    ensures
        -(c * s) <= a * s <= c * s,
{
}

/// A square of a value within `m` stays within `m * m`, and is nonnegative.
pub proof fn lemma_sq_range(a: int, m: int)
    by (nonlinear_arith)
    requires
        0 <= m,
        -m <= a <= m,
    ensures
        0 <= a * a <= m * m,
{
}

/// Each component's square is at most the squared norm.
pub proof fn lemma_comp_sq_le_norm_sq(v: Vec3Fx)
    by (nonlinear_arith)
    ensures
        (v.x as int) * (v.x as int) <= v.norm_sq(),
        (v.y as int) * (v.y as int) <= v.norm_sq(),
        (v.z as int) * (v.z as int) <= v.norm_sq(),
{
}

} // verus!
