//! Quaternions over fixed-point scalars: Hamilton product, normalization,
//! swing–twist decomposition about the local forward axis, the spherical
//! cone constraint, and rotation of vectors.
//!
//! A rotation is "unit-scaled" when its components are those of a unit
//! quaternion times `SCALE`. `normalize` produces such values and every
//! rotation the solver stores is normalized. The local forward axis of a
//! joint is -Z, so the twist component of a rotation is the part about -Z;
//! projecting the vector part onto that axis keeps exactly the z component,
//! which makes the decomposition exact.

use vstd::prelude::*;
use crate::fixed;
use crate::fixed::SCALE;
use crate::vec3::{lemma_prod_le, lemma_sq_range, Vec3Fx};

verus! {

/// A rotation, components scaled by `SCALE`.
#[derive(Clone, Copy, PartialEq, Eq, Structural, Debug)]
pub struct QuatFx {
    pub x: i64,
    pub y: i64,
    pub z: i64,
    pub w: i64,
}

impl QuatFx {
    /// Every component within `[-b, b]`.
    pub open spec fn bounded(self, b: int) -> bool {
        -b <= self.x <= b && -b <= self.y <= b && -b <= self.z <= b && -b <= self.w <= b
    }

    /// Squared norm over all four components.
    pub open spec fn qnorm_sq(self) -> int {
        (self.x as int) * (self.x as int) + (self.y as int) * (self.y as int)
            + (self.z as int) * (self.z as int) + (self.w as int) * (self.w as int)
    }

    /// Squared norm of the vector (x, y, z) part alone.
    pub open spec fn vec_norm_sq(self) -> int {
        (self.x as int) * (self.x as int) + (self.y as int) * (self.y as int)
            + (self.z as int) * (self.z as int)
    }

    /// The identity rotation at unit scale.
    pub open spec fn spec_identity() -> QuatFx {
        QuatFx { x: 0, y: 0, z: 0, w: SCALE as i64 }
    }

    /// The conjugate; for a unit-scaled rotation this is its inverse.
    pub open spec fn spec_conj(self) -> QuatFx {
        QuatFx {
            x: (-self.x) as i64,
            y: (-self.y) as i64,
            z: (-self.z) as i64,
            w: self.w,
        }
    }

    /// Hamilton product at fixed-point scale: each component is the exact
    /// integer product sum divided by `SCALE`, rounded toward zero.
    pub open spec fn spec_mul(p: QuatFx, q: QuatFx) -> QuatFx {
        QuatFx {
            x: fixed::tdiv(p.w * q.x + p.x * q.w + p.y * q.z - p.z * q.y, SCALE as int) as i64,
            y: fixed::tdiv(p.w * q.y - p.x * q.z + p.y * q.w + p.z * q.x, SCALE as int) as i64,
            z: fixed::tdiv(p.w * q.z + p.x * q.y - p.y * q.x + p.z * q.w, SCALE as int) as i64,
            w: fixed::tdiv(p.w * q.w - p.x * q.x - p.y * q.y - p.z * q.z, SCALE as int) as i64,
        }
    }

    /// Rescale to a unit-scaled rotation; identity on degenerate input.
    pub open spec fn spec_normalize(self) -> QuatFx {
        let n = fixed::sqrt_floor(self.qnorm_sq());
        if n == 0 {
            QuatFx::spec_identity()
        } else {
            QuatFx {
                x: fixed::tdiv(self.x * SCALE, n) as i64,
                y: fixed::tdiv(self.y * SCALE, n) as i64,
                z: fixed::tdiv(self.z * SCALE, n) as i64,
                w: fixed::tdiv(self.w * SCALE, n) as i64,
            }
        }
    }

    /// Swing–twist decomposition about the local forward axis (-Z),
    /// returned as `(twist, swing)` with `self = swing * twist`. Projecting
    /// the vector part onto the axis keeps exactly the z component.
    pub open spec fn spec_decompose(self) -> (QuatFx, QuatFx) {
        let twist = (QuatFx { x: 0, y: 0, z: self.z, w: self.w }).spec_normalize();
        let swing = QuatFx::spec_mul(self, twist.spec_conj());
        (twist, swing)
    }

    /// Spherical cone constraint: clamp the vector part to magnitude `m`
    /// (`m` is `SCALE` times the sine of half the cone angle). Inside the
    /// cone the rotation is returned unchanged; outside, the vector part is
    /// rescaled to magnitude `m` and the scalar part rebuilt so the result
    /// stays unit-scaled, keeping the sign of `w`.
    pub open spec fn spec_constrain(self, m: i64) -> QuatFx {
        let n2 = self.vec_norm_sq();
        if n2 <= (m as int) * (m as int) {
            self
        } else {
            let n = fixed::sqrt_floor(n2);
            let wmag = fixed::sqrt_floor(
                (SCALE as int) * (SCALE as int) - (m as int) * (m as int),
            );
            QuatFx {
                x: fixed::tdiv(self.x * m, n) as i64,
                y: fixed::tdiv(self.y * m, n) as i64,
                z: fixed::tdiv(self.z * m, n) as i64,
                w: if self.w >= 0 {
                    wmag as i64
                } else {
                    (-wmag) as i64
                },
            }
        }
    }

    /// The rotation carrying unit direction `a` onto unit direction `b`:
    /// the quaternion `(a x b, 1 + a . b)` normalized. In the antiparallel
    /// case that quaternion vanishes, and the result is instead a half-turn
    /// about an axis orthogonal to `a`.
    pub open spec fn spec_rotation_arc(a: Vec3Fx, b: Vec3Fx) -> QuatFx {
        let d = a.dot_spec(b);
        if d <= -(SCALE as int) * (SCALE as int) + (SCALE as int) {
            QuatFx::spec_half_turn_orthogonal(a)
        } else {
            let c = a.spec_cross(b);
            (QuatFx {
                x: c.x,
                y: c.y,
                z: c.z,
                w: ((SCALE as int) * (SCALE as int) + d) as i64,
            }).spec_normalize()
        }
    }

    /// A half-turn about an axis orthogonal to `a`: the axis is `a x X`
    /// normalized, or `a x Y` when `a` is parallel to the X axis.
    pub open spec fn spec_half_turn_orthogonal(a: Vec3Fx) -> QuatFx {
        let c = a.spec_cross(Vec3Fx { x: SCALE as i64, y: 0, z: 0 });
        let axis = if c.x == 0 && c.y == 0 && c.z == 0 {
            a.spec_cross(Vec3Fx { x: 0, y: SCALE as i64, z: 0 }).spec_normalize()
        } else {
            c.spec_normalize()
        };
        QuatFx { x: axis.x, y: axis.y, z: axis.z, w: 0 }
    }

    /// Rotation of a vector: the vector part of `q * (v, 0) * conj(q)`.
    pub open spec fn spec_rotate(self, v: Vec3Fx) -> Vec3Fx {
        let t = QuatFx::spec_mul(self, QuatFx { x: v.x, y: v.y, z: v.z, w: 0 });
        let u = QuatFx::spec_mul(t, self.spec_conj());
        Vec3Fx { x: u.x, y: u.y, z: u.z }
    }

    pub fn identity() -> (r: QuatFx)
        ensures
            r == QuatFx::spec_identity(),
            r.bounded(SCALE as int),
    {
        QuatFx { x: 0, y: 0, z: 0, w: SCALE }
    }

    pub fn conjugate(self) -> (r: QuatFx)
        requires
            self.bounded(0x2000_0000_0000_0000),
        ensures
            r == self.spec_conj(),
    {
        QuatFx { x: -self.x, y: -self.y, z: -self.z, w: self.w }
    }

    /// Hamilton product for rotation-scale inputs (components within 2^23).
    pub fn mul(self, o: QuatFx) -> (r: QuatFx)
        requires
            self.bounded(0x80_0000),
            o.bounded(0x80_0000),
        ensures
            r == QuatFx::spec_mul(self, o),
            r.bounded(0x1_0000_0000),
    {
        mul_impl(self, o)
    }

    /// Rescale to unit scale; identity when all components are zero.
    /// The result's components never exceed `SCALE` in magnitude.
    pub fn normalize(self) -> (r: QuatFx)
        requires
            self.bounded(0x2000_0000_0000_0000),
        ensures
            r == self.spec_normalize(),
            r.bounded(SCALE as int),
    {
        let n2: i128 = qnorm_sq128(self);
        let n64: u64 = fixed::isqrt(n2 as u128);
        proof {
            lemma_qcomp_sq_le_qnorm_sq(self);
            fixed::lemma_abs_le_of_sq_lt(self.x as int, n64 as int);
            fixed::lemma_abs_le_of_sq_lt(self.y as int, n64 as int);
            fixed::lemma_abs_le_of_sq_lt(self.z as int, n64 as int);
            fixed::lemma_abs_le_of_sq_lt(self.w as int, n64 as int);
        }
        let n: i64 = n64 as i64;
        if n == 0 {
            QuatFx::identity()
        } else {
            proof {
                lemma_prod_le(self.x as int, SCALE as int, n as int);
                lemma_prod_le(self.y as int, SCALE as int, n as int);
                lemma_prod_le(self.z as int, SCALE as int, n as int);
                lemma_prod_le(self.w as int, SCALE as int, n as int);
                fixed::lemma_tdiv_mul_le((self.x as int) * (SCALE as int), n as int, SCALE as int);
                fixed::lemma_tdiv_mul_le((self.y as int) * (SCALE as int), n as int, SCALE as int);
                fixed::lemma_tdiv_mul_le((self.z as int) * (SCALE as int), n as int, SCALE as int);
                fixed::lemma_tdiv_mul_le((self.w as int) * (SCALE as int), n as int, SCALE as int);
            }
            QuatFx {
                x: fixed::mul_div(self.x, SCALE, n),
                y: fixed::mul_div(self.y, SCALE, n),
                z: fixed::mul_div(self.z, SCALE, n),
                w: fixed::mul_div(self.w, SCALE, n),
            }
        }
    }

    /// Swing–twist decomposition about the local forward axis (-Z). The
    /// input is a near-unit rotation (a product of two unit-scaled ones).
    pub fn decompose(self) -> (r: (QuatFx, QuatFx))
        requires
            self.bounded(0x4_0000),
        ensures
            r == self.spec_decompose(),
            r.0.bounded(SCALE as int),
            r.1.bounded(0x10_0000),
    {
        let twist = (QuatFx { x: 0, y: 0, z: self.z, w: self.w }).normalize();
        let swing = self.mul(twist.conjugate());
        proof {
            lemma_spec_mul_bound(self, twist.spec_conj(), 0x4_0000, SCALE as int);
        }
        (twist, swing)
    }

    /// Spherical cone constraint; see `spec_constrain`. Past the limit the
    /// vector part is clamped so its squared magnitude stays within
    /// `(m + 1)^2`, one rounding unit above the cone's own bound.
    pub fn constrain(self, m: i64) -> (r: QuatFx)
        requires
            0 <= m <= SCALE as int,
            self.bounded(0x2000_0000_0000_0000),
        ensures
            r == self.spec_constrain(m),
            self.vec_norm_sq() <= (m as int) * (m as int) ==> r == self,
            self.vec_norm_sq() > (m as int) * (m as int) ==> r.vec_norm_sq() <= (m as int + 1) * (
            m as int + 1),
            self.vec_norm_sq() > (m as int) * (m as int) ==> r.bounded(SCALE as int),
    {
        let v = Vec3Fx { x: self.x, y: self.y, z: self.z };
        let n2: i128 = v.norm_sq128();
        proof {
            lemma_sq_range(m as int, SCALE as int);
        }
        let m2: i128 = (m as i128) * (m as i128);
        proof {
            assert(m2 as int == (m as int) * (m as int));
            assert(0 <= m2);
        }
        if n2 <= m2 {
            self
        } else {
            let n: i64 = v.length();
            proof {
                assert(v.norm_sq() >= 1);
                if n == 0 {
                    assert(v.norm_sq() < (n as int + 1) * (n as int + 1));
                    assert((n as int + 1) * (n as int + 1) == 1) by (nonlinear_arith)
                        requires
                            n == 0;
                }
                assert(1 <= n);
                lemma_prod_le(self.x as int, m as int, n as int);
                lemma_prod_le(self.y as int, m as int, n as int);
                lemma_prod_le(self.z as int, m as int, n as int);
                assert((n as int) * (m as int) <= 0x7fff_ffff_ffff_ffff * (n as int))
                    by (nonlinear_arith)
                    requires
                        0 <= n,
                        0 <= m <= 0x7fff_ffff_ffff_ffff;
                fixed::lemma_tdiv_mul_le((self.x as int) * (m as int), n as int, m as int);
                fixed::lemma_tdiv_mul_le((self.y as int) * (m as int), n as int, m as int);
                fixed::lemma_tdiv_mul_le((self.z as int) * (m as int), n as int, m as int);
            }
            let rx = fixed::mul_div(self.x, m, n);
            let ry = fixed::mul_div(self.y, m, n);
            let rz = fixed::mul_div(self.z, m, n);
            let diff: i64 = SCALE * SCALE - m * m;
            let wmag64: u64 = fixed::isqrt(diff as u128);
            proof {
                fixed::lemma_abs_le_of_sq_lt(wmag64 as int, SCALE as int);
            }
            let wmag: i64 = wmag64 as i64;
            let rw: i64 = if self.w >= 0 {
                wmag
            } else {
                -wmag
            };
            proof {
                lemma_clamped_vec_norm(self, m, n as int, rx as int, ry as int, rz as int);
            }
            QuatFx { x: rx, y: ry, z: rz, w: rw }
        }
    }

    /// The rotation carrying unit direction `a` onto unit direction `b`.
    pub fn from_rotation_arc(a: Vec3Fx, b: Vec3Fx) -> (r: QuatFx)
        requires
            a.bounded(2 * SCALE as int),
            b.bounded(2 * SCALE as int),
        ensures
            r == QuatFx::spec_rotation_arc(a, b),
            r.bounded(SCALE as int),
    {
        let d: i64 = a.dot(b);
        proof {
            lemma_prod_in(a.x as int, b.x as int, 131072, 131072);
            lemma_prod_in(a.y as int, b.y as int, 131072, 131072);
            lemma_prod_in(a.z as int, b.z as int, 131072, 131072);
            assert(-51539607552 <= d as int <= 51539607552);
        }
        if d <= -(SCALE * SCALE) + SCALE {
            QuatFx::half_turn_orthogonal(a)
        } else {
            let c = a.cross(b);
            (QuatFx { x: c.x, y: c.y, z: c.z, w: SCALE * SCALE + d }).normalize()
        }
    }

    /// A half-turn about an axis orthogonal to `a`.
    pub fn half_turn_orthogonal(a: Vec3Fx) -> (r: QuatFx)
        requires
            a.bounded(2 * SCALE as int),
        ensures
            r == QuatFx::spec_half_turn_orthogonal(a),
            r.bounded(SCALE as int),
    {
        let c = a.cross(Vec3Fx { x: SCALE, y: 0, z: 0 });
        let axis = if c.x == 0 && c.y == 0 && c.z == 0 {
            a.cross(Vec3Fx { x: 0, y: SCALE, z: 0 }).normalize_unit()
        } else {
            c.normalize_unit()
        };
        QuatFx { x: axis.x, y: axis.y, z: axis.z, w: 0 }
    }

    /// Rotate a vector by a unit-scaled rotation.
    pub fn rotate(self, v: Vec3Fx) -> (r: Vec3Fx)
        requires
            self.bounded(2 * SCALE as int),
            v.bounded(0x400_0000_0000),
        ensures
            r == self.spec_rotate(v),
    {
        let t = mul_wide_ls(self, QuatFx { x: v.x, y: v.y, z: v.z, w: 0 });
        let u = mul_wide_sl(t, self.conjugate());
        Vec3Fx { x: u.x, y: u.y, z: u.z }
    }
}

/// Squared norm of all four components, exact over `i128`.
fn qnorm_sq128(q: QuatFx) -> (r: i128)
    requires
        q.bounded(0x2000_0000_0000_0000),
    ensures
        r as int == q.qnorm_sq(),
        0 <= r,
        (r as int) < 0x4000_0000_0000_0000_0000_0000_0000_0000,
{
    proof {
        lemma_sq_range(q.x as int, 0x2000_0000_0000_0000);
        lemma_sq_range(q.y as int, 0x2000_0000_0000_0000);
        lemma_sq_range(q.z as int, 0x2000_0000_0000_0000);
        lemma_sq_range(q.w as int, 0x2000_0000_0000_0000);
    }
    (q.x as i128) * (q.x as i128) + (q.y as i128) * (q.y as i128) + (q.z as i128) * (q.z as i128)
        + (q.w as i128) * (q.w as i128)
}

/// Hamilton product over `i128` sums. One body serves both the
/// rotation-scale entry point and the wide one used for rotating vectors;
/// the requires here admit both.
fn mul_raw(p: QuatFx, q: QuatFx, pb: Ghost<int>, qb: Ghost<int>) -> (r: QuatFx)
    requires
        0 <= pb@,
        0 <= qb@,
        p.bounded(pb@),
        q.bounded(qb@),
        4 * (pb@ * qb@) <= 0x7fff_ffff_ffff_ffff * (SCALE as int),
    ensures
        r == QuatFx::spec_mul(p, q),
        r.bounded(4 * (pb@ * qb@) / (SCALE as int)),
{
    proof {
        lemma_prod_in(p.w as int, q.x as int, pb@, qb@);
        lemma_prod_in(p.x as int, q.w as int, pb@, qb@);
        lemma_prod_in(p.y as int, q.z as int, pb@, qb@);
        lemma_prod_in(p.z as int, q.y as int, pb@, qb@);
        lemma_prod_in(p.w as int, q.y as int, pb@, qb@);
        lemma_prod_in(p.x as int, q.z as int, pb@, qb@);
        lemma_prod_in(p.y as int, q.w as int, pb@, qb@);
        lemma_prod_in(p.z as int, q.x as int, pb@, qb@);
        lemma_prod_in(p.w as int, q.z as int, pb@, qb@);
        lemma_prod_in(p.x as int, q.y as int, pb@, qb@);
        lemma_prod_in(p.y as int, q.x as int, pb@, qb@);
        lemma_prod_in(p.z as int, q.w as int, pb@, qb@);
        lemma_prod_in(p.w as int, q.w as int, pb@, qb@);
        lemma_prod_in(p.x as int, q.x as int, pb@, qb@);
        lemma_prod_in(p.y as int, q.y as int, pb@, qb@);
        lemma_prod_in(p.z as int, q.z as int, pb@, qb@);
    }
    let sx: i128 = (p.w as i128) * (q.x as i128) + (p.x as i128) * (q.w as i128) + (p.y as i128)
        * (q.z as i128) - (p.z as i128) * (q.y as i128);
    let sy: i128 = (p.w as i128) * (q.y as i128) - (p.x as i128) * (q.z as i128) + (p.y as i128)
        * (q.w as i128) + (p.z as i128) * (q.x as i128);
    let sz: i128 = (p.w as i128) * (q.z as i128) + (p.x as i128) * (q.y as i128) - (p.y as i128)
        * (q.x as i128) + (p.z as i128) * (q.w as i128);
    let sw: i128 = (p.w as i128) * (q.w as i128) - (p.x as i128) * (q.x as i128) - (p.y as i128)
        * (q.y as i128) - (p.z as i128) * (q.z as i128);
    proof {
        lemma_scaled_cap(pb@, qb@);
        fixed::lemma_tdiv_mono_abs(sx as int, SCALE as int, 4 * (pb@ * qb@));
        fixed::lemma_tdiv_mono_abs(sy as int, SCALE as int, 4 * (pb@ * qb@));
        fixed::lemma_tdiv_mono_abs(sz as int, SCALE as int, 4 * (pb@ * qb@));
        fixed::lemma_tdiv_mono_abs(sw as int, SCALE as int, 4 * (pb@ * qb@));
    }
    let rx = fixed::tdiv_i128(sx, SCALE as i128);
    let ry = fixed::tdiv_i128(sy, SCALE as i128);
    let rz = fixed::tdiv_i128(sz, SCALE as i128);
    let rw = fixed::tdiv_i128(sw, SCALE as i128);
    QuatFx { x: rx as i64, y: ry as i64, z: rz as i64, w: rw as i64 }
}

/// Rotation-scale entry to the Hamilton product.
fn mul_impl(p: QuatFx, q: QuatFx) -> (r: QuatFx)
    requires
        p.bounded(0x80_0000),
        q.bounded(0x80_0000),
    ensures
        r == QuatFx::spec_mul(p, q),
        r.bounded(0x1_0000_0000),
{
    mul_raw(p, q, Ghost(0x80_0000), Ghost(0x80_0000))
}

/// Wide entry: a unit-scaled rotation times a quaternion carrying a large
/// vector (the first product when rotating a position).
fn mul_wide_ls(p: QuatFx, q: QuatFx) -> (r: QuatFx)
    requires
        p.bounded(0x2_0000),
        q.bounded(0x400_0000_0000),
    ensures
        r == QuatFx::spec_mul(p, q),
        r.bounded(0x2000_0000_0000),
{
    mul_raw(p, q, Ghost(0x2_0000), Ghost(0x400_0000_0000))
}

/// Wide entry with the large factor first (the second product when
/// rotating a position).
fn mul_wide_sl(p: QuatFx, q: QuatFx) -> (r: QuatFx)
    requires
        p.bounded(0x2000_0000_0000),
        q.bounded(0x2_0000),
    ensures
        r == QuatFx::spec_mul(p, q),
        r.bounded(0x100_0000_0000_0000),
{
    mul_raw(p, q, Ghost(0x2000_0000_0000), Ghost(0x2_0000))
}

/// The Hamilton product of quaternions bounded by `a` and `b` is bounded
/// by `4 * a * b / SCALE`: each component is a four-product sum divided by
/// `SCALE`.
pub proof fn lemma_spec_mul_bound(p: QuatFx, q: QuatFx, a: int, b: int)
    requires
        0 <= a,
        0 <= b,
        p.bounded(a),
        q.bounded(b),
        4 * (a * b) <= 0x7fff_ffff_ffff_ffff * (SCALE as int),
    ensures
        QuatFx::spec_mul(p, q).bounded(4 * (a * b) / (SCALE as int)),
{
    lemma_prod_in(p.w as int, q.x as int, a, b);
    lemma_prod_in(p.x as int, q.w as int, a, b);
    lemma_prod_in(p.y as int, q.z as int, a, b);
    lemma_prod_in(p.z as int, q.y as int, a, b);
    lemma_prod_in(p.w as int, q.y as int, a, b);
    lemma_prod_in(p.x as int, q.z as int, a, b);
    lemma_prod_in(p.y as int, q.w as int, a, b);
    lemma_prod_in(p.z as int, q.x as int, a, b);
    lemma_prod_in(p.w as int, q.z as int, a, b);
    lemma_prod_in(p.x as int, q.y as int, a, b);
    lemma_prod_in(p.y as int, q.x as int, a, b);
    lemma_prod_in(p.z as int, q.w as int, a, b);
    lemma_prod_in(p.w as int, q.w as int, a, b);
    lemma_prod_in(p.x as int, q.x as int, a, b);
    lemma_prod_in(p.y as int, q.y as int, a, b);
    lemma_prod_in(p.z as int, q.z as int, a, b);
    lemma_scaled_cap(a, b);
    fixed::lemma_tdiv_mono_abs(
        (p.w as int) * (q.x as int) + (p.x as int) * (q.w as int) + (p.y as int) * (q.z as int)
            - (p.z as int) * (q.y as int),
        SCALE as int,
        4 * (a * b),
    );
    fixed::lemma_tdiv_mono_abs(
        (p.w as int) * (q.y as int) - (p.x as int) * (q.z as int) + (p.y as int) * (q.w as int)
            + (p.z as int) * (q.x as int),
        SCALE as int,
        4 * (a * b),
    );
    fixed::lemma_tdiv_mono_abs(
        (p.w as int) * (q.z as int) + (p.x as int) * (q.y as int) - (p.y as int) * (q.x as int)
            + (p.z as int) * (q.w as int),
        SCALE as int,
        4 * (a * b),
    );
    fixed::lemma_tdiv_mono_abs(
        (p.w as int) * (q.w as int) - (p.x as int) * (q.x as int) - (p.y as int) * (q.y as int)
            - (p.z as int) * (q.z as int),
        SCALE as int,
        4 * (a * b),
    );
}

/// Rotating a unit-scaled vector by a unit-scaled rotation keeps every
/// component within `16 * SCALE`.
pub proof fn lemma_rotate_unit_bound(q: QuatFx, v: Vec3Fx)
    requires
        q.bounded(SCALE as int),
        v.bounded(SCALE as int),
    ensures
        q.spec_rotate(v).bounded(16 * SCALE as int),
{
    let vq = QuatFx { x: v.x, y: v.y, z: v.z, w: 0 };
    lemma_spec_mul_bound(q, vq, SCALE as int, SCALE as int);
    let t = QuatFx::spec_mul(q, vq);
    assert(q.spec_conj().bounded(SCALE as int));
    lemma_spec_mul_bound(t, q.spec_conj(), 4 * SCALE as int, SCALE as int);
}

/// `|x| <= a` and `|y| <= b` pin `x * y` within `a * b`.
pub proof fn lemma_prod_in(x: int, y: int, a: int, b: int)
    by (nonlinear_arith)
    requires
        0 <= a,
        0 <= b,
        -a <= x <= a,
        -b <= y <= b,
    ensures
        -(a * b) <= x * y <= a * b,
{
}

/// The product-sum cap divided by `SCALE` is nonnegative and fits `i64`
/// (needed to cast the Hamilton product's components down).
proof fn lemma_scaled_cap(a: int, b: int)
    requires
        0 <= a,
        0 <= b,
        4 * (a * b) <= 0x7fff_ffff_ffff_ffff * (SCALE as int),
    ensures
        0 <= 4 * (a * b) / (SCALE as int),
        4 * (a * b) / (SCALE as int) <= 0x7fff_ffff_ffff_ffff,
{
    vstd::arithmetic::mul::lemma_mul_nonnegative(a, b);
    vstd::arithmetic::div_mod::lemma_div_pos_is_pos(4 * (a * b), SCALE as int);
    vstd::arithmetic::div_mod::lemma_div_is_ordered(
        4 * (a * b),
        0x7fff_ffff_ffff_ffff * (SCALE as int),
        SCALE as int,
    );
    vstd::arithmetic::div_mod::lemma_div_by_multiple(0x7fff_ffff_ffff_ffff, SCALE as int);
}

/// Each component's square is at most the four-component squared norm.
proof fn lemma_qcomp_sq_le_qnorm_sq(q: QuatFx)
    by (nonlinear_arith)
    ensures
        (q.x as int) * (q.x as int) <= q.qnorm_sq(),
        (q.y as int) * (q.y as int) <= q.qnorm_sq(),
        (q.z as int) * (q.z as int) <= q.qnorm_sq(),
        (q.w as int) * (q.w as int) <= q.qnorm_sq(),
{
}

/// `0 <= u <= v` or `v <= u <= 0` gives `u^2 <= v^2`.
proof fn lemma_sq_le_of_between(u: int, v: int)
    by (nonlinear_arith)
    requires
        (0 <= u && u <= v) || (v <= u && u <= 0),
    ensures
        u * u <= v * v,
{
}

/// Core of the cone constraint's bound: the clamped vector components
/// `r_i = tdiv(q_i * m, n)` with `n = sqrt_floor(vec_norm_sq)` keep the
/// squared vector magnitude within `(m + 1)^2`.
proof fn lemma_clamped_vec_norm(q: QuatFx, m: i64, n: int, rx: int, ry: int, rz: int)
    requires
        0 <= m,
        1 <= n,
        q.vec_norm_sq() > (m as int) * (m as int),
        n * n <= q.vec_norm_sq(),
        q.vec_norm_sq() < (n + 1) * (n + 1),
        rx == fixed::tdiv(q.x * m, n),
        ry == fixed::tdiv(q.y * m, n),
        rz == fixed::tdiv(q.z * m, n),
    ensures
        rx * rx + ry * ry + rz * rz <= (m as int + 1) * (m as int + 1),
{
    let mi = m as int;
    let n2 = q.vec_norm_sq();
    fixed::lemma_tdiv_close(q.x * mi, n);
    fixed::lemma_tdiv_close(q.y * mi, n);
    fixed::lemma_tdiv_close(q.z * mi, n);
    lemma_sq_le_of_between(n * rx, q.x * mi);
    lemma_sq_le_of_between(n * ry, q.y * mi);
    lemma_sq_le_of_between(n * rz, q.z * mi);
    assert(n * n * (rx * rx) <= (mi * mi) * ((q.x as int) * (q.x as int))) by (nonlinear_arith)
        requires
            (n * rx) * (n * rx) <= ((q.x as int) * mi) * ((q.x as int) * mi);
    assert(n * n * (ry * ry) <= (mi * mi) * ((q.y as int) * (q.y as int))) by (nonlinear_arith)
        requires
            (n * ry) * (n * ry) <= ((q.y as int) * mi) * ((q.y as int) * mi);
    assert(n * n * (rz * rz) <= (mi * mi) * ((q.z as int) * (q.z as int))) by (nonlinear_arith)
        requires
            (n * rz) * (n * rz) <= ((q.z as int) * mi) * ((q.z as int) * mi);
    assert(n * n * (rx * rx + ry * ry + rz * rz) <= mi * mi * n2) by (nonlinear_arith)
        requires
            n * n * (rx * rx) <= (mi * mi) * ((q.x as int) * (q.x as int)),
            n * n * (ry * ry) <= (mi * mi) * ((q.y as int) * (q.y as int)),
            n * n * (rz * rz) <= (mi * mi) * ((q.z as int) * (q.z as int)),
            n2 == (q.x as int) * (q.x as int) + (q.y as int) * (q.y as int) + (q.z as int) * (
            q.z as int);
    fixed::lemma_abs_le_of_sq_lt(mi, n);
    assert(mi * mi * n2 <= n * n * ((mi + 1) * (mi + 1))) by (nonlinear_arith)
        requires
            0 <= mi <= n,
            n2 < (n + 1) * (n + 1),
            0 <= n2;
    assert(rx * rx + ry * ry + rz * rz <= (mi + 1) * (mi + 1)) by (nonlinear_arith)
        requires
            1 <= n,
            n * n * (rx * rx + ry * ry + rz * rz) <= n * n * ((mi + 1) * (mi + 1));
}

} // verus!
