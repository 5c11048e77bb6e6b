//! Three-dimensional vectors over fixed-point scalars.

use vstd::prelude::*;
use crate::fixed::{Fx, SCALE, EPS_RAW, RAW_LIMIT, mag, is_sqrt_floor, lemma_sqrt_floor_exists};

verus! {

/// A point or direction in space, one fixed-point scalar per axis.
#[derive(Clone, Copy, Debug, PartialEq, Eq, Structural)]
pub struct Vec3 {
    pub x: Fx,
    pub y: Fx,
    pub z: Fx,
}

impl Vec3 {
    /// The vector with the given components.
    pub fn new(x: Fx, y: Fx, z: Fx) -> (v: Vec3)
        ensures
            v == (Vec3 { x, y, z }),
    {
        Vec3 { x, y, z }
    }

    /// First component.
    pub fn x(&self) -> (r: Fx)
        ensures
            r == self.x,
    {
        self.x
    }

    /// Second component.
    pub fn y(&self) -> (r: Fx)
        ensures
            r == self.y,
    {
        self.y
    }

    /// Third component.
    pub fn z(&self) -> (r: Fx)
        ensures
            r == self.z,
    {
        self.z
    }

    /// What `add` returns.
    pub open spec fn add_v(self, o: Vec3) -> Vec3 {
        Vec3 { x: self.x.add_v(o.x), y: self.y.add_v(o.y), z: self.z.add_v(o.z) }
    }

    /// Component-wise sum.
    pub fn add(self, o: Vec3) -> (r: Vec3)
        ensures
            r == self.add_v(o),
    {
        Vec3 { x: self.x.add(o.x), y: self.y.add(o.y), z: self.z.add(o.z) }
    }

    /// What `add_scalar` returns.
    pub open spec fn add_scalar_v(self, k: Fx) -> Vec3 {
        Vec3 { x: self.x.add_v(k), y: self.y.add_v(k), z: self.z.add_v(k) }
    }

    /// The same scalar added to every component.
    pub fn add_scalar(self, k: Fx) -> (r: Vec3)
        ensures
            r == self.add_scalar_v(k),
    {
        Vec3 { x: self.x.add(k), y: self.y.add(k), z: self.z.add(k) }
    }

    /// What `sub` returns.
    pub open spec fn sub_v(self, o: Vec3) -> Vec3 {
        Vec3 { x: self.x.sub_v(o.x), y: self.y.sub_v(o.y), z: self.z.sub_v(o.z) }
    }

    /// Component-wise difference.
    pub fn sub(self, o: Vec3) -> (r: Vec3)
        ensures
            r == self.sub_v(o),
    {
        Vec3 { x: self.x.sub(o.x), y: self.y.sub(o.y), z: self.z.sub(o.z) }
    }

    /// What `mul` returns.
    pub open spec fn mul_v(self, o: Vec3) -> Vec3 {
        Vec3 { x: self.x.mul_v(o.x), y: self.y.mul_v(o.y), z: self.z.mul_v(o.z) }
    }

    /// Component-wise product.
    pub fn mul(self, o: Vec3) -> (r: Vec3)
        ensures
            r == self.mul_v(o),
    {
        Vec3 { x: self.x.mul(o.x), y: self.y.mul(o.y), z: self.z.mul(o.z) }
    }

    /// What `mul_scalar` returns.
    pub open spec fn mul_scalar_v(self, k: Fx) -> Vec3 {
        Vec3 { x: self.x.mul_v(k), y: self.y.mul_v(k), z: self.z.mul_v(k) }
    }

    /// Every component scaled by the same factor.
    pub fn mul_scalar(self, k: Fx) -> (r: Vec3)
        ensures
            r == self.mul_scalar_v(k),
    {
        Vec3 { x: self.x.mul(k), y: self.y.mul(k), z: self.z.mul(k) }
    }

    /// What `div` returns.
    pub open spec fn div_vec_v(self, o: Vec3) -> Vec3
        recommends
            o.x@ != 0,
            o.y@ != 0,
            o.z@ != 0,
    {
        Vec3 { x: self.x.div_v(o.x), y: self.y.div_v(o.y), z: self.z.div_v(o.z) }
    }

    /// Component-wise quotient.
    pub fn div(self, o: Vec3) -> (r: Vec3)
        requires
            o.x@ != 0,
            o.y@ != 0,
            o.z@ != 0,
        ensures
            r == self.div_vec_v(o),
    {
        Vec3 { x: self.x.div(o.x), y: self.y.div(o.y), z: self.z.div(o.z) }
    }

    /// What `div_scalar` returns.
    pub open spec fn div_scalar_v(self, k: Fx) -> Vec3
        recommends
            k@ != 0,
    {
        Vec3 { x: self.x.div_v(k), y: self.y.div_v(k), z: self.z.div_v(k) }
    }

    /// Every component divided by the same non-zero scalar.
    pub fn div_scalar(self, k: Fx) -> (r: Vec3)
        requires
            k@ != 0,
        ensures
            r == self.div_scalar_v(k),
    {
        Vec3 { x: self.x.div(k), y: self.y.div(k), z: self.z.div(k) }
    }

    /// What `neg` returns.
    pub open spec fn neg_v(self) -> Vec3 {
        Vec3 { x: self.x.neg_v(), y: self.y.neg_v(), z: self.z.neg_v() }
    }

    /// Component-wise negation.
    pub fn neg(self) -> (r: Vec3)
        ensures
            r == self.neg_v(),
    {
        Vec3 { x: self.x.neg(), y: self.y.neg(), z: self.z.neg() }
    }

    /// What `dot` returns.
    pub open spec fn dot_v(self, o: Vec3) -> Fx {
        self.x.mul_v(o.x).add_v(self.y.mul_v(o.y)).add_v(self.z.mul_v(o.z))
    }

    /// Dot product, accumulated left to right.
    pub fn dot(&self, o: &Vec3) -> (r: Fx)
        ensures
            r == self.dot_v(*o),
    {
        self.x.mul(o.x).add(self.y.mul(o.y)).add(self.z.mul(o.z))
    }

    /// What `cross` returns.
    pub open spec fn cross_v(self, o: Vec3) -> Vec3 {
        Vec3 {
            x: self.y.mul_v(o.z).sub_v(self.z.mul_v(o.y)),
            y: self.z.mul_v(o.x).sub_v(self.x.mul_v(o.z)),
            z: self.x.mul_v(o.y).sub_v(self.y.mul_v(o.x)),
        }
    }

    /// Cross product.
    pub fn cross(&self, o: &Vec3) -> (r: Vec3)
        ensures
            r == self.cross_v(*o),
    {
        Vec3 {
            x: self.y.mul(o.z).sub(self.z.mul(o.y)),
            y: self.z.mul(o.x).sub(self.x.mul(o.z)),
            z: self.x.mul(o.y).sub(self.y.mul(o.x)),
        }
    }

    /// What `length_squared` returns.
    pub open spec fn len_sq_v(self) -> Fx {
        self.dot_v(self)
    }

    /// Squared Euclidean length: the vector dotted with itself.
    pub fn length_squared(&self) -> (r: Fx)
        ensures
            r == self.len_sq_v(),
            r@ >= 0,
    {
        proof {
            lemma_len_sq_nonneg(*self);
        }
        self.dot(self)
    }

    /// What `length` returns.
    pub open spec fn len_v(self) -> Fx {
        self.len_sq_v().sqrt_v()
    }

    /// Euclidean length.
    pub fn length(&self) -> (r: Fx)
        ensures
            r == self.len_v(),
            r@ >= 0,
    {
        let ls = self.length_squared();
        let r = ls.sqrt();
        proof {
            lemma_sqrt_floor_exists(ls@ * SCALE);
        }
        r
    }

    /// What `unit_vector` returns.
    pub open spec fn unit_v(self) -> Vec3
        recommends
            self.len_v()@ != 0,
    {
        self.div_scalar_v(self.len_v())
    }

    /// The vector scaled to unit length; the caller guarantees it is not zero.
    pub fn unit_vector(self) -> (r: Vec3)
        requires
            self.len_sq_v()@ != 0,
        ensures
            r == self.unit_v(),
    {
        let len = self.length();
        proof {
            lemma_len_pos(self);
        }
        self.div_scalar(len)
    }

    /// What `near_zero` returns: every component smaller than one raw step.
    pub open spec fn near_zero_v(self) -> bool {
        mag(self.x@) < EPS_RAW && mag(self.y@) < EPS_RAW && mag(self.z@) < EPS_RAW
    }

    /// Whether every component is below the representation's epsilon in magnitude.
    pub fn near_zero(&self) -> (r: bool)
        ensures
            r == self.near_zero_v(),
    {
        let ax = self.x.abs();
        let ay = self.y.abs();
        let az = self.z.abs();
        ax.raw < EPS_RAW && ay.raw < EPS_RAW && az.raw < EPS_RAW
    }

    /// A vector whose components are each drawn uniformly from `[min, max)`.
    fn random_vec3_minmax(min: Fx, max: Fx, rng: &mut rand::rngs::StdRng) -> (v: Vec3)
        requires
            min@ < max@,
        ensures
            min@ <= v.x@ < max@,
            min@ <= v.y@ < max@,
            min@ <= v.z@ < max@,
    {
        Vec3 {
            x: Fx { raw: crate::rng::rng_range(rng, min.raw, max.raw) },
            y: Fx { raw: crate::rng::rng_range(rng, min.raw, max.raw) },
            z: Fx { raw: crate::rng::rng_range(rng, min.raw, max.raw) },
        }
    }

    /// Rejection sampling: draw from the cube `[-1, 1)^3` until the draw lies
    /// strictly inside the unit ball and no closer to zero than one half a
    /// unit, so that normalizing it cannot magnify the rounding (this
    /// representation has no gradual underflow to hide behind). The retry
    /// count is bounded; after that the fixed interior point `(1/2, 0, 0)`
    /// stands in, which every caller accepts under the same contract.
    fn random_vec3_unit_sphere(rng: &mut rand::rngs::StdRng) -> (v: Vec3)
        ensures
            4 * v.len_sq_v()@ >= SCALE,
            v.len_sq_v()@ < SCALE,
            mag(v.x@) <= SCALE && mag(v.y@) <= SCALE && mag(v.z@) <= SCALE,
    {
        let neg_one = Fx::from_int(-1);
        let one = Fx::one();
        let mut tries: u32 = 64;
        while tries > 0
            invariant
                neg_one@ == -(SCALE as int),
                one@ == SCALE,
            decreases tries,
        {
            let vector = Vec3::random_vec3_minmax(neg_one, one, rng);
            let ls = vector.length_squared();
            if 16384 <= ls.raw && ls.raw < SCALE {
                return vector;
            }
            tries = tries - 1;
        }
        let fallback = Vec3 { x: Fx { raw: SCALE / 2 }, y: Fx { raw: 0 }, z: Fx { raw: 0 } };
        proof {
            lemma_half_axis_len_sq(fallback);
        }
        fallback
    }

    /// A direction of unit length, uniform over the sphere: a rejection-sampled
    /// interior point, normalized. The squared length of the result is one to
    /// within a few raw steps.
    pub fn random_unit_vec3(rng: &mut rand::rngs::StdRng) -> (v: Vec3)
        ensures
            unit_sample_v(v),
            SCALE - 10 <= v.len_sq_v()@ <= SCALE + 24,
    {
        let u = Vec3::random_vec3_unit_sphere(rng);
        let r = u.unit_vector();
        proof {
            assert(4 * u.len_sq_v()@ >= SCALE && u.len_sq_v()@ < SCALE && r == u.unit_v());
            lemma_unit_length_near_one(u);
        }
        r
    }

    /// A unit direction in the same half-space as `normal`: the sampled unit
    /// direction itself or its exact negation, whichever has a non-negative
    /// dot product with `normal`.
    pub fn random_vec3_on_hemisphere(normal: &Vec3, rng: &mut rand::rngs::StdRng) -> (v: Vec3)
        ensures
            v.dot_v(*normal)@ >= 0,
            (exists|u: Vec3| unit_sample_v(u) && (v == u || v == u.neg_v())),
            SCALE - 10 <= v.len_sq_v()@ <= SCALE + 24,
    {
        let unit_sphere_vec3 = Vec3::random_unit_vec3(rng);
        let d = unit_sphere_vec3.dot(normal);
        if d.raw > 0 {
            unit_sphere_vec3
        } else {
            let flipped = unit_sphere_vec3.mul_scalar(Fx::from_int(-1));
            proof {
                let u = unit_sphere_vec3;
                lemma_in_range(u);
                crate::fixed::lemma_mul_neg_one(u.x);
                crate::fixed::lemma_mul_neg_one(u.y);
                crate::fixed::lemma_mul_neg_one(u.z);
                assert(flipped == u.neg_v());
                lemma_dot_neg_left(u, *normal);
                lemma_len_sq_neg(u);
            }
            flipped
        }
    }
}

impl Default for Vec3 {
    /// The zero vector.
    fn default() -> (v: Vec3)
        ensures
            v.x@ == 0 && v.y@ == 0 && v.z@ == 0,
    {
        Vec3 { x: Fx { raw: 0 }, y: Fx { raw: 0 }, z: Fx { raw: 0 } }
    }
}

/// The vectors `random_unit_vec3` can hand back: the normalization of some
/// accepted interior sample.
pub open spec fn unit_sample_v(v: Vec3) -> bool {
    exists|w: Vec3|
        4 * w.len_sq_v()@ >= SCALE && w.len_sq_v()@ < SCALE && v == w.unit_v()
}

/// A scalar times itself, scaled down, is never negative.
pub proof fn lemma_sq_term_nonneg(a: Fx)
    ensures
        a.mul_v(a)@ >= 0,
{
    assert(a@ * a@ >= 0) by (nonlinear_arith);
    vstd::arithmetic::div_mod::lemma_div_pos_is_pos(mag(a@ * a@), SCALE as int);
}

/// A vector dotted with itself is never negative.
pub proof fn lemma_len_sq_nonneg(v: Vec3)
    ensures
        v.len_sq_v()@ >= 0,
{
    lemma_sq_term_nonneg(v.x);
    lemma_sq_term_nonneg(v.y);
    lemma_sq_term_nonneg(v.z);
}

/// A vector with non-zero squared length has non-zero length.
pub proof fn lemma_len_pos(v: Vec3)
    requires
        v.len_sq_v()@ != 0,
    ensures
        v.len_v()@ >= 1,
{
    lemma_len_sq_nonneg(v);
    let q = v.len_sq_v()@;
    let n = q * SCALE;
    assert(q >= 1);
    assert(q * SCALE >= 1 * SCALE) by (nonlinear_arith)
        requires
            q >= 1,
            SCALE > 0,
    ;
    lemma_sqrt_floor_exists(n);
    let s = crate::fixed::sqrt_floor(n);
    assert(is_sqrt_floor(n, s));
    if s == 0 {
        assert((s + 1) * (s + 1) == 1) by (nonlinear_arith)
            requires
                s == 0,
        ;
        assert(n < 1);
        assert(false);
    }
}

/// Concrete squared length of the fallback sample.
proof fn lemma_half_axis_len_sq(v: Vec3)
    requires
        v.x@ == SCALE / 2,
        v.y@ == 0,
        v.z@ == 0,
    ensures
        0 < v.len_sq_v()@ < SCALE,
{
    assert(v.x@ == 32768);
    assert(v.x@ * v.x@ == 1073741824) by (nonlinear_arith)
        requires
            v.x@ == 32768,
    ;
    assert(mag(1073741824int) / (SCALE as int) == 16384);
    assert(v.x.mul_v(v.x)@ == 16384);
}

/// Multiplication of scalars is commutative.
proof fn lemma_fx_mul_comm(a: Fx, b: Fx)
    ensures
        a.mul_v(b) == b.mul_v(a),
{
    assert(a@ * b@ == b@ * a@) by (nonlinear_arith);
}

/// Swapping the arguments of an in-range difference negates it.
proof fn lemma_fx_sub_neg_swap(p: Fx, q: Fx)
    requires
        -(crate::fixed::RAW_LIMIT as int) <= p@ <= crate::fixed::RAW_LIMIT as int,
        -(crate::fixed::RAW_LIMIT as int) <= q@ <= crate::fixed::RAW_LIMIT as int,
    ensures
        p.sub_v(q) == q.sub_v(p).neg_v(),
{
}

/// The cross product is anti-commutative: swapping its arguments negates it,
/// component for component, saturation included.
pub proof fn lemma_cross_antisymmetric(a: Vec3, b: Vec3)
    ensures
        a.cross_v(b) == b.cross_v(a).neg_v(),
{
    lemma_fx_mul_comm(a.y, b.z);
    lemma_fx_mul_comm(a.z, b.y);
    lemma_fx_mul_comm(a.z, b.x);
    lemma_fx_mul_comm(a.x, b.z);
    lemma_fx_mul_comm(a.x, b.y);
    lemma_fx_mul_comm(a.y, b.x);
    lemma_fx_sub_neg_swap(a.y.mul_v(b.z), a.z.mul_v(b.y));
    lemma_fx_sub_neg_swap(a.z.mul_v(b.x), a.x.mul_v(b.z));
    lemma_fx_sub_neg_swap(a.x.mul_v(b.y), a.y.mul_v(b.x));
}

/// A non-zero vector along the first axis with a whole-number length
/// normalizes to the exact unit axis vector, and that unit vector's length is
/// exactly one.
pub proof fn lemma_unit_axis_exact(k: i64)
    requires
        1 <= k <= 32767,
    ensures
        ({
            let v = Vec3 { x: Fx { raw: (k as int * SCALE) as i64 }, y: Fx { raw: 0 }, z: Fx { raw: 0 } };
            v.unit_v() == (Vec3 { x: Fx { raw: SCALE }, y: Fx { raw: 0 }, z: Fx { raw: 0 } })
                && v.unit_v().len_v()@ == SCALE
        }),
{
    let s = SCALE as int;
    let kk = k as int;
    let xr = kk * s;
    let ls = (kk * kk) * s;
    let v = Vec3 { x: Fx { raw: xr as i64 }, y: Fx { raw: 0 }, z: Fx { raw: 0 } };
    assert(0 < xr <= 32767 * s) by (nonlinear_arith)
        requires
            1 <= kk <= 32767,
            s == 65536,
            xr == kk * s,
    ;

    // Squared length: (k S)^2 / S == k^2 S, exactly.
    assert(xr * xr == ls * s) by (nonlinear_arith)
        requires
            xr == kk * s,
            ls == (kk * kk) * s,
    ;
    crate::fixed::lemma_tdiv_multiple(ls, s);
    assert(0 < ls <= RAW_LIMIT as int) by (nonlinear_arith)
        requires
            1 <= kk <= 32767,
            s == 65536,
            ls == (kk * kk) * s,
            RAW_LIMIT == 0x400000000000,
    ;
    vstd::arithmetic::div_mod::lemma_div_of0(s);
    assert(crate::fixed::tdiv(0, s) == 0);
    assert(v.x@ == xr);
    assert(v.x@ * v.x@ == ls * s);
    assert(v.x.mul_v(v.x)@ == ls);
    assert(v.y@ * v.y@ == 0 && v.z@ * v.z@ == 0) by (nonlinear_arith)
        requires
            v.y@ == 0,
            v.z@ == 0,
    ;
    assert(v.y.mul_v(v.y)@ == 0);
    assert(v.z.mul_v(v.z)@ == 0);
    assert(v.len_sq_v()@ == ls);

    // Length: the square root of (k S)^2 is exactly k S.
    assert(is_sqrt_floor(xr * xr, xr)) by (nonlinear_arith)
        requires
            xr > 0,
    ;
    crate::fixed::lemma_sqrt_floor_unique(ls * s, xr);
    assert(v.len_v()@ == xr);

    // Normalization: (k S) S / (k S) == S, and zero components stay zero.
    assert(xr * s == s * xr) by (nonlinear_arith);
    crate::fixed::lemma_tdiv_multiple(s, xr);
    assert(crate::fixed::tdiv(xr * s, xr) == s);
    vstd::arithmetic::div_mod::lemma_div_of0(xr);
    assert(crate::fixed::tdiv(0, xr) == 0);
    let u = v.unit_v();
    assert(u.x@ == s && u.y@ == 0 && u.z@ == 0);

    // The unit vector's own length: 1 * 1 == 1 exactly.
    crate::fixed::lemma_tdiv_multiple(s, s);
    assert(u.len_sq_v()@ == s);
    assert(is_sqrt_floor(s * s, s)) by (nonlinear_arith)
        requires
            s == 65536,
    ;
    crate::fixed::lemma_sqrt_floor_unique(s * s, s);
    assert(u.len_v()@ == s);
}

/// The quotient of one normalization step: for a component magnitude at most
/// two past the length, the scaled quotient stays within two past one, and
/// multiplies back to within one divisor.
proof fn lemma_mu_facts(m: int, len: int)
    requires
        0 <= m <= len + 3,
        SCALE <= 2 * len,
    ensures
        0 <= crate::fixed::tdiv(m * (SCALE as int), len) <= SCALE + 6,
        len * crate::fixed::tdiv(m * (SCALE as int), len) <= m * (SCALE as int),
        m * (SCALE as int) < len * crate::fixed::tdiv(m * (SCALE as int), len) + len,
{
    let s = SCALE as int;
    let mu = crate::fixed::tdiv(m * s, len);
    assert(m * s >= 0) by (nonlinear_arith)
        requires
            m >= 0,
            s > 0,
    ;
    crate::fixed::lemma_tdiv_bounds(m * s, len);
    crate::fixed::lemma_tdiv_nonneg(m * s, len);
    assert(m * s <= (len + 3) * s) by (nonlinear_arith)
        requires
            m <= len + 3,
            s > 0,
    ;
    assert((len + 3) * s <= len * (s + 6)) by (nonlinear_arith)
        requires
            s <= 2 * len,
    ;
    assert(len * mu <= len * (s + 6));
    assert(mu <= s + 6) by (nonlinear_arith)
        requires
            len > 0,
            len * mu <= len * (s + 6),
    ;
}

/// For all vectors of length at least one whose components do not approach
/// the saturating range, the normalized vector's squared length is one to
/// within a few raw steps: between `1 - 10/SCALE` and `1 + 6/SCALE`.
#[verifier::rlimit(100)]
pub proof fn lemma_unit_length_near_one(v: Vec3)
    requires
        4 * v.len_sq_v()@ >= SCALE,
        mag(v.x@) <= 0x40000000,
        mag(v.y@) <= 0x40000000,
        mag(v.z@) <= 0x40000000,
    ensures
        SCALE - 10 <= v.unit_v().len_sq_v()@ <= SCALE + 24,
{
    let s = SCALE as int;
    let m1 = mag(v.x@);
    let m2 = mag(v.y@);
    let m3 = mag(v.z@);

    // Each squared component, scaled down, with its floor bounds.
    assert(v.x@ * v.x@ == m1 * m1 && v.y@ * v.y@ == m2 * m2 && v.z@ * v.z@ == m3 * m3)
        by (nonlinear_arith)
        requires
            m1 == v.x@ || m1 == -v.x@,
            m2 == v.y@ || m2 == -v.y@,
            m3 == v.z@ || m3 == -v.z@,
    ;
    let t1 = crate::fixed::tdiv(m1 * m1, s);
    let t2 = crate::fixed::tdiv(m2 * m2, s);
    let t3 = crate::fixed::tdiv(m3 * m3, s);
    assert(m1 * m1 >= 0 && m1 * m1 <= 0x1000000000000000) by (nonlinear_arith)
        requires
            0 <= m1 <= 0x40000000,
    ;
    assert(m2 * m2 >= 0 && m2 * m2 <= 0x1000000000000000) by (nonlinear_arith)
        requires
            0 <= m2 <= 0x40000000,
    ;
    assert(m3 * m3 >= 0 && m3 * m3 <= 0x1000000000000000) by (nonlinear_arith)
        requires
            0 <= m3 <= 0x40000000,
    ;
    crate::fixed::lemma_tdiv_bounds(m1 * m1, s);
    crate::fixed::lemma_tdiv_bounds(m2 * m2, s);
    crate::fixed::lemma_tdiv_bounds(m3 * m3, s);
    crate::fixed::lemma_tdiv_nonneg(m1 * m1, s);
    crate::fixed::lemma_tdiv_nonneg(m2 * m2, s);
    crate::fixed::lemma_tdiv_nonneg(m3 * m3, s);
    assert(t1 <= 0x100000000000 && t2 <= 0x100000000000 && t3 <= 0x100000000000);
    let ls = t1 + t2 + t3;
    assert(v.len_sq_v()@ == ls);
    let xx = m1 * m1 + m2 * m2 + m3 * m3;
    assert(s * ls <= xx && xx <= s * ls + 3 * s - 3);

    // The length: the floor square root of ls * s.
    let a = ls * s;
    crate::fixed::lemma_sqrt_floor_exists(a);
    let len = crate::fixed::sqrt_floor(a);
    assert(len * len <= a && a < (len + 1) * (len + 1) && len >= 0);
    assert(4 * a >= s * s) by (nonlinear_arith)
        requires
            4 * ls >= s,
            a == ls * s,
            s > 0,
    ;
    assert(2 * len >= s) by (nonlinear_arith)
        requires
            len >= 0,
            4 * a >= s * s,
            a < (len + 1) * (len + 1),
            s == 65536,
    ;
    assert(a <= 0x4000000000000000) by (nonlinear_arith)
        requires
            ls <= 3 * 0x100000000000,
            s == 65536,
            a == ls * s,
    ;
    assert(len <= 0x80000000) by (nonlinear_arith)
        requires
            len >= 0,
            len * len <= 0x4000000000000000,
    ;
    assert(v.len_v()@ == len);

    // No component magnitude runs more than three past the length.
    assert(m1 * m1 <= xx && m2 * m2 <= xx && m3 * m3 <= xx) by (nonlinear_arith)
        requires
            xx == m1 * m1 + m2 * m2 + m3 * m3,
            m1 * m1 >= 0,
            m2 * m2 >= 0,
            m3 * m3 >= 0,
    ;
    assert(xx < (len + 1) * (len + 1) + 3 * s);
    assert(m1 <= len + 3 && m2 <= len + 3 && m3 <= len + 3) by (nonlinear_arith)
        requires
            m1 >= 0,
            m2 >= 0,
            m3 >= 0,
            m1 * m1 < (len + 1) * (len + 1) + 3 * s,
            m2 * m2 < (len + 1) * (len + 1) + 3 * s,
            m3 * m3 < (len + 1) * (len + 1) + 3 * s,
            s <= 2 * len,
            s == 65536,
    ;

    // The normalized components, by magnitude.
    crate::fixed::lemma_mag_mul_pos(v.x@, s);
    crate::fixed::lemma_mag_mul_pos(v.y@, s);
    crate::fixed::lemma_mag_mul_pos(v.z@, s);
    let mu1 = crate::fixed::tdiv(m1 * s, len);
    let mu2 = crate::fixed::tdiv(m2 * s, len);
    let mu3 = crate::fixed::tdiv(m3 * s, len);
    lemma_mu_facts(m1, len);
    lemma_mu_facts(m2, len);
    lemma_mu_facts(m3, len);
    let u = v.unit_v();
    assert(crate::fixed::tdiv(v.x@ * s, len) == if v.x@ < 0 {
        -mu1
    } else {
        mu1
    });
    assert(u.x@ * u.x@ == mu1 * mu1 && u.y@ * u.y@ == mu2 * mu2 && u.z@ * u.z@ == mu3 * mu3)
        by (nonlinear_arith)
        requires
            u.x@ == mu1 || u.x@ == -mu1,
            u.y@ == mu2 || u.y@ == -mu2,
            u.z@ == mu3 || u.z@ == -mu3,
    ;

    // The normalized squared length, with its floor bounds.
    let w1 = crate::fixed::tdiv(mu1 * mu1, s);
    let w2 = crate::fixed::tdiv(mu2 * mu2, s);
    let w3 = crate::fixed::tdiv(mu3 * mu3, s);
    assert(mu1 * mu1 >= 0 && mu2 * mu2 >= 0 && mu3 * mu3 >= 0) by (nonlinear_arith)
        requires
            mu1 >= 0,
            mu2 >= 0,
            mu3 >= 0,
    ;
    crate::fixed::lemma_tdiv_bounds(mu1 * mu1, s);
    crate::fixed::lemma_tdiv_bounds(mu2 * mu2, s);
    crate::fixed::lemma_tdiv_bounds(mu3 * mu3, s);
    crate::fixed::lemma_tdiv_nonneg(mu1 * mu1, s);
    crate::fixed::lemma_tdiv_nonneg(mu2 * mu2, s);
    crate::fixed::lemma_tdiv_nonneg(mu3 * mu3, s);
    assert(mu1 * mu1 <= (s + 6) * (s + 6) && mu2 * mu2 <= (s + 6) * (s + 6) && mu3 * mu3 <= (s + 6)
        * (s + 6)) by (nonlinear_arith)
        requires
            0 <= mu1 <= s + 6,
            0 <= mu2 <= s + 6,
            0 <= mu3 <= s + 6,
    ;
    assert(w1 <= s + 13 && w2 <= s + 13 && w3 <= s + 13) by (nonlinear_arith)
        requires
            s * w1 <= mu1 * mu1,
            s * w2 <= mu2 * mu2,
            s * w3 <= mu3 * mu3,
            mu1 * mu1 <= (s + 6) * (s + 6),
            mu2 * mu2 <= (s + 6) * (s + 6),
            mu3 * mu3 <= (s + 6) * (s + 6),
            s == 65536,
    ;
    let w = w1 + w2 + w3;
    assert(u.len_sq_v()@ == w);
    let uu = mu1 * mu1 + mu2 * mu2 + mu3 * mu3;
    assert(s * w <= uu && uu <= s * w + 3 * s - 3);

    // Upper bound: len^2 uu <= xx s^2 <= (a + 3 s) s^2 <= len^2 (s^2 + 24 s).
    assert((len * mu1) * (len * mu1) <= (m1 * s) * (m1 * s)) by (nonlinear_arith)
        requires
            0 <= len * mu1,
            len * mu1 <= m1 * s,
    ;
    assert((len * mu2) * (len * mu2) <= (m2 * s) * (m2 * s)) by (nonlinear_arith)
        requires
            0 <= len * mu2,
            len * mu2 <= m2 * s,
    ;
    assert((len * mu3) * (len * mu3) <= (m3 * s) * (m3 * s)) by (nonlinear_arith)
        requires
            0 <= len * mu3,
            len * mu3 <= m3 * s,
    ;
    assert(len * mu1 >= 0 && len * mu2 >= 0 && len * mu3 >= 0) by (nonlinear_arith)
        requires
            len >= 0,
            mu1 >= 0,
            mu2 >= 0,
            mu3 >= 0,
    ;
    assert((len * len) * uu == (len * mu1) * (len * mu1) + (len * mu2) * (len * mu2) + (len * mu3)
        * (len * mu3)) by (nonlinear_arith)
        requires
            uu == mu1 * mu1 + mu2 * mu2 + mu3 * mu3,
    ;
    assert(xx * (s * s) == (m1 * s) * (m1 * s) + (m2 * s) * (m2 * s) + (m3 * s) * (m3 * s))
        by (nonlinear_arith)
        requires
            xx == m1 * m1 + m2 * m2 + m3 * m3,
    ;
    assert((len * len) * uu <= xx * (s * s));
    assert(xx * (s * s) <= (a + 3 * s) * (s * s)) by (nonlinear_arith)
        requires
            xx <= a + 3 * s,
            s > 0,
    ;
    assert(a <= len * len + 2 * len) by (nonlinear_arith)
        requires
            a < (len + 1) * (len + 1),
    ;
    assert((a + 3 * s) * (s * s) <= (len * len) * (s * s + 24 * s)) by (nonlinear_arith)
        requires
            a <= len * len + 2 * len,
            s <= 2 * len,
            s > 0,
    ;
    assert(uu <= s * s + 24 * s) by (nonlinear_arith)
        requires
            (len * len) * uu <= (len * len) * (s * s + 24 * s),
            2 * len >= s,
            s > 0,
    ;
    assert(w <= s + 24) by (nonlinear_arith)
        requires
            s * w <= uu,
            uu <= s * s + 24 * s,
            s > 0,
    ;

    // Lower bound: len^2 s^2 <= xx s^2 < len^2 (uu + 2 (mu1+mu2+mu3) + 3).
    assert(len * (mu1 + 1) == len * mu1 + len && len * (mu2 + 1) == len * mu2 + len && len * (mu3
        + 1) == len * mu3 + len) by (nonlinear_arith);
    assert((m1 * s) * (m1 * s) < (len * (mu1 + 1)) * (len * (mu1 + 1))) by (nonlinear_arith)
        requires
            0 <= m1 * s,
            m1 * s < len * mu1 + len,
            len * (mu1 + 1) == len * mu1 + len,
    ;
    assert((m2 * s) * (m2 * s) < (len * (mu2 + 1)) * (len * (mu2 + 1))) by (nonlinear_arith)
        requires
            0 <= m2 * s,
            m2 * s < len * mu2 + len,
            len * (mu2 + 1) == len * mu2 + len,
    ;
    assert((m3 * s) * (m3 * s) < (len * (mu3 + 1)) * (len * (mu3 + 1))) by (nonlinear_arith)
        requires
            0 <= m3 * s,
            m3 * s < len * mu3 + len,
            len * (mu3 + 1) == len * mu3 + len,
    ;
    let t = mu1 + mu2 + mu3;
    let ll = len * len;
    assert((len * (mu1 + 1)) * (len * (mu1 + 1)) == ll * (mu1 * mu1) + 2 * (ll * mu1) + ll)
        by (nonlinear_arith)
        requires
            ll == len * len,
    ;
    assert((len * (mu2 + 1)) * (len * (mu2 + 1)) == ll * (mu2 * mu2) + 2 * (ll * mu2) + ll)
        by (nonlinear_arith)
        requires
            ll == len * len,
    ;
    assert((len * (mu3 + 1)) * (len * (mu3 + 1)) == ll * (mu3 * mu3) + 2 * (ll * mu3) + ll)
        by (nonlinear_arith)
        requires
            ll == len * len,
    ;
    vstd::arithmetic::mul::lemma_mul_is_distributive_add(ll, uu, 2 * t + 3);
    vstd::arithmetic::mul::lemma_mul_is_distributive_add(ll, 2 * t, 3);
    vstd::arithmetic::mul::lemma_mul_is_distributive_add(ll, mu1 * mu1, mu2 * mu2 + mu3 * mu3);
    vstd::arithmetic::mul::lemma_mul_is_distributive_add(ll, mu2 * mu2, mu3 * mu3);
    vstd::arithmetic::mul::lemma_mul_is_distributive_add(ll, 2 * mu1, 2 * mu2 + 2 * mu3);
    vstd::arithmetic::mul::lemma_mul_is_distributive_add(ll, 2 * mu2, 2 * mu3);
    assert(ll * (2 * mu1) == 2 * (ll * mu1) && ll * (2 * mu2) == 2 * (ll * mu2) && ll * (2 * mu3)
        == 2 * (ll * mu3)) by (nonlinear_arith);
    assert(ll * 3 == 3 * ll) by (nonlinear_arith);
    assert(ll * (uu + 2 * t + 3) == (len * (mu1 + 1)) * (len * (mu1 + 1)) + (len * (mu2 + 1)) * (
    len * (mu2 + 1)) + (len * (mu3 + 1)) * (len * (mu3 + 1)));
    assert(xx * (s * s) < (len * len) * (uu + 2 * t + 3));
    assert((len * len) * (s * s) <= xx * (s * s)) by (nonlinear_arith)
        requires
            len * len <= a,
            a <= xx,
            s > 0,
    ;
    assert(s * s < uu + 2 * t + 3) by (nonlinear_arith)
        requires
            (len * len) * (s * s) < (len * len) * (uu + 2 * t + 3),
            len > 0,
    ;
    assert(t <= 3 * s + 18);
    assert(uu > s * s - 6 * s - 39);
    assert(s * w >= s * s - 9 * s - 35) by (nonlinear_arith)
        requires
            uu <= s * w + 3 * s - 3,
            uu >= s * s - 6 * s - 38,
    ;
    assert(w >= s - 10) by (nonlinear_arith)
        requires
            s * w >= s * s - 9 * s - 35,
            s == 65536,
    ;
}

/// Every component of a normalized vector lies in the saturating range.
proof fn lemma_in_range(u: Vec3)
    requires
        unit_sample_v(u),
    ensures
        -(crate::fixed::RAW_LIMIT as int) <= u.x@ <= crate::fixed::RAW_LIMIT as int,
        -(crate::fixed::RAW_LIMIT as int) <= u.y@ <= crate::fixed::RAW_LIMIT as int,
        -(crate::fixed::RAW_LIMIT as int) <= u.z@ <= crate::fixed::RAW_LIMIT as int,
{
    let w = choose|w: Vec3|
        4 * w.len_sq_v()@ >= SCALE && w.len_sq_v()@ < SCALE && u == w.unit_v();
    assert(u == w.unit_v());
}

/// Negating every component keeps the squared length, component for
/// component, for vectors within the saturating range.
proof fn lemma_len_sq_neg(u: Vec3)
    requires
        -(crate::fixed::RAW_LIMIT as int) <= u.x@ <= crate::fixed::RAW_LIMIT as int,
        -(crate::fixed::RAW_LIMIT as int) <= u.y@ <= crate::fixed::RAW_LIMIT as int,
        -(crate::fixed::RAW_LIMIT as int) <= u.z@ <= crate::fixed::RAW_LIMIT as int,
    ensures
        u.neg_v().len_sq_v() == u.len_sq_v(),
{
    assert((-u.x@) * (-u.x@) == u.x@ * u.x@ && (-u.y@) * (-u.y@) == u.y@ * u.y@ && (-u.z@) * (
    -u.z@) == u.z@ * u.z@) by (nonlinear_arith);
}

/// Negating the left argument negates a dot product exactly.
proof fn lemma_dot_neg_left(u: Vec3, n: Vec3)
    requires
        -(crate::fixed::RAW_LIMIT as int) <= u.x@ <= crate::fixed::RAW_LIMIT as int,
        -(crate::fixed::RAW_LIMIT as int) <= u.y@ <= crate::fixed::RAW_LIMIT as int,
        -(crate::fixed::RAW_LIMIT as int) <= u.z@ <= crate::fixed::RAW_LIMIT as int,
    ensures
        u.neg_v().dot_v(n)@ == crate::fixed::clip(-(u.dot_v(n)@)),
{
    crate::fixed::lemma_mul_neg_left(u.x, n.x);
    crate::fixed::lemma_mul_neg_left(u.y, n.y);
    crate::fixed::lemma_mul_neg_left(u.z, n.z);
    let t1 = u.x.mul_v(n.x)@;
    let t2 = u.y.mul_v(n.y)@;
    let t3 = u.z.mul_v(n.z)@;
    crate::fixed::lemma_clip_neg(t1 + t2);
    crate::fixed::lemma_clip_neg(crate::fixed::clip(t1 + t2) + t3);
}

} // verus!
