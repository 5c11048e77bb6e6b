//! Saturating fixed-point scalars.
//!
//! A `Fx` holds an integer `raw` and stands for the real number `raw / SCALE`.
//! Every operation computes the exact integer result in a wide intermediate,
//! truncates divisions toward zero, and saturates into `[-RAW_LIMIT, RAW_LIMIT]`,
//! so arithmetic is total and each step is described exactly by its spec mirror.

use vstd::prelude::*;

verus! {

/// Number of raw steps per unit: a `Fx` with raw value `r` stands for `r / SCALE`.
pub const SCALE: i64 = 65536;

/// Largest raw magnitude an operation will produce (2^46); results saturate here.
pub const RAW_LIMIT: i64 = 0x4000_0000_0000;

/// The representation's epsilon: one raw step.
pub const EPS_RAW: i64 = 1;

/// Magnitude of an integer.
pub open spec fn mag(v: int) -> int {
    if v < 0 {
        -v
    } else {
        v
    }
}

/// Saturate an unbounded integer result into the representable raw range.
pub open spec fn clip(v: int) -> int {
    if v > RAW_LIMIT {
        RAW_LIMIT as int
    } else if v < -(RAW_LIMIT as int) {
        -(RAW_LIMIT as int)
    } else {
        v
    }
}

/// Division truncated toward zero, as the machine divides.
pub open spec fn tdiv(n: int, d: int) -> int
    recommends
        d != 0,
{
    let q = mag(n) / mag(d);
    if (n < 0) != (d < 0) {
        -q
    } else {
        q
    }
}

/// `r` is the integer square root of `n` rounded down.
pub open spec fn is_sqrt_floor(n: int, r: int) -> bool {
    0 <= r && r * r <= n && n < (r + 1) * (r + 1)
}

/// The integer square root of `n` rounded down (for `n >= 0`).
pub open spec fn sqrt_floor(n: int) -> int
    recommends
        n >= 0,
{
    choose|r: int| is_sqrt_floor(n, r)
}

/// The scalar one, for use in specifications.
pub open spec fn fx_one() -> Fx {
    Fx { raw: SCALE }
}

/// The scalar one half, for use in specifications.
pub open spec fn fx_half() -> Fx {
    Fx { raw: (SCALE / 2) as i64 }
}

/// A fixed-point scalar: the real number `raw / SCALE`.
#[derive(Clone, Copy, Debug, PartialEq, Eq, Structural)]
pub struct Fx {
    pub raw: i64,
}

impl View for Fx {
    type V = int;

    open spec fn view(&self) -> int {
        self.raw as int
    }
}

/// Saturate a wide intermediate back into the raw range.
fn clamp_wide(v: i128) -> (r: i64)
    ensures
        r as int == clip(v as int),
{
    if v > RAW_LIMIT as i128 {
        RAW_LIMIT
    } else if v < -(RAW_LIMIT as i128) {
        -RAW_LIMIT
    } else {
        v as i64
    }
}

/// Multiply two raw values exactly in a wide intermediate.
fn mul_wide(a: i64, b: i64) -> (r: i128)
    ensures
        r as int == (a as int) * (b as int),
        -0x40000000000000000000000000000000 <= r as int <= 0x40000000000000000000000000000000,
{
    proof {
        assert((a as int) * (b as int) <= 0x40000000000000000000000000000000
            && (a as int) * (b as int) >= -0x40000000000000000000000000000000) by (nonlinear_arith)
            requires
                -0x8000000000000000 <= a as int <= 0x7fffffffffffffff,
                -0x8000000000000000 <= b as int <= 0x7fffffffffffffff,
        ;
    }
    (a as i128) * (b as i128)
}

/// Divide wide intermediates, truncating toward zero.
fn tdiv_wide(n: i128, d: i128) -> (q: i128)
    requires
        d != 0,
        n > i128::MIN,
        d > i128::MIN,
    ensures
        q as int == tdiv(n as int, d as int),
{
    let nn: u128 = if n < 0 {
        (-n) as u128
    } else {
        n as u128
    };
    let dd: u128 = if d < 0 {
        (-d) as u128
    } else {
        d as u128
    };
    let qq: u128 = nn / dd;
    assert(nn as int == mag(n as int));
    assert(dd as int == mag(d as int));
    assert(qq as int == mag(n as int) / mag(d as int)) by {
        assert(qq == nn / dd);
    }
    assert(qq <= nn) by {
        vstd::arithmetic::div_mod::lemma_div_nonincreasing(nn as int, dd as int);
    }
    if (n < 0) != (d < 0) {
        -(qq as i128)
    } else {
        qq as i128
    }
}

impl Fx {
    /// The scalar with the given raw value, saturated into range.
    pub fn from_raw(raw: i64) -> (r: Fx)
        ensures
            r@ == clip(raw as int),
    {
        Fx { raw: clamp_wide(raw as i128) }
    }

    /// The raw integer this scalar is stored as.
    pub fn raw(self) -> (r: i64)
        ensures
            r as int == self@,
    {
        self.raw
    }

    /// The scalar standing for the integer `i`.
    pub fn from_int(i: i64) -> (r: Fx)
        ensures
            r@ == clip(i * SCALE),
    {
        Fx { raw: clamp_wide(mul_wide(i, SCALE)) }
    }

    /// The scalar standing for the fraction `n / d`, truncated toward zero.
    pub fn ratio(n: i64, d: i64) -> (r: Fx)
        requires
            d != 0,
        ensures
            r@ == clip(tdiv(n * SCALE, d as int)),
    {
        let w: i128 = tdiv_wide(mul_wide(n, SCALE), d as i128);
        Fx { raw: clamp_wide(w) }
    }

    /// The scalar zero.
    pub fn zero() -> (r: Fx)
        ensures
            r@ == 0,
    {
        Fx { raw: 0 }
    }

    /// The scalar one.
    pub fn one() -> (r: Fx)
        ensures
            r == fx_one(),
    {
        Fx { raw: SCALE }
    }

    /// The scalar one half.
    pub fn half() -> (r: Fx)
        ensures
            r == fx_half(),
    {
        Fx { raw: 32768 }
    }

    /// What `add` returns.
    pub open spec fn add_v(self, o: Fx) -> Fx {
        Fx { raw: clip(self@ + o@) as i64 }
    }

    /// Saturating sum.
    pub fn add(self, o: Fx) -> (r: Fx)
        ensures
            r == self.add_v(o),
    {
        Fx { raw: clamp_wide(self.raw as i128 + o.raw as i128) }
    }

    /// What `sub` returns.
    pub open spec fn sub_v(self, o: Fx) -> Fx {
        Fx { raw: clip(self@ - o@) as i64 }
    }

    /// Saturating difference.
    pub fn sub(self, o: Fx) -> (r: Fx)
        ensures
            r == self.sub_v(o),
    {
        Fx { raw: clamp_wide(self.raw as i128 - o.raw as i128) }
    }

    /// What `neg` returns.
    pub open spec fn neg_v(self) -> Fx {
        Fx { raw: clip(-self@) as i64 }
    }

    /// Saturating negation.
    pub fn neg(self) -> (r: Fx)
        ensures
            r == self.neg_v(),
    {
        Fx { raw: clamp_wide(-(self.raw as i128)) }
    }

    /// What `mul` returns.
    pub open spec fn mul_v(self, o: Fx) -> Fx {
        Fx { raw: clip(tdiv(self@ * o@, SCALE as int)) as i64 }
    }

    /// Saturating product, truncated toward zero.
    pub fn mul(self, o: Fx) -> (r: Fx)
        ensures
            r == self.mul_v(o),
    {
        let w: i128 = tdiv_wide(mul_wide(self.raw, o.raw), SCALE as i128);
        Fx { raw: clamp_wide(w) }
    }

    /// What `div` returns.
    pub open spec fn div_v(self, o: Fx) -> Fx
        recommends
            o@ != 0,
    {
        Fx { raw: clip(tdiv(self@ * SCALE, o@)) as i64 }
    }

    /// Saturating quotient, truncated toward zero.
    pub fn div(self, o: Fx) -> (r: Fx)
        requires
            o@ != 0,
        ensures
            r == self.div_v(o),
    {
        let w: i128 = tdiv_wide(mul_wide(self.raw, SCALE), o.raw as i128);
        Fx { raw: clamp_wide(w) }
    }

    /// What `abs` returns.
    pub open spec fn abs_v(self) -> Fx {
        Fx { raw: clip(mag(self@)) as i64 }
    }

    /// Saturating magnitude.
    pub fn abs(self) -> (r: Fx)
        ensures
            r == self.abs_v(),
    {
        if self.raw < 0 {
            Fx { raw: clamp_wide(-(self.raw as i128)) }
        } else {
            Fx { raw: clamp_wide(self.raw as i128) }
        }
    }

    /// What `min` returns.
    pub open spec fn min_v(self, o: Fx) -> Fx {
        if self@ <= o@ {
            self
        } else {
            o
        }
    }

    /// The smaller of two scalars.
    pub fn min(self, o: Fx) -> (r: Fx)
        ensures
            r == self.min_v(o),
    {
        if self.raw <= o.raw {
            self
        } else {
            o
        }
    }

    /// What `sqrt` returns.
    pub open spec fn sqrt_v(self) -> Fx
        recommends
            self@ >= 0,
    {
        Fx { raw: clip(sqrt_floor(self@ * SCALE)) as i64 }
    }

    /// Square root rounded down to the representation, for non-negative scalars.
    pub fn sqrt(self) -> (r: Fx)
        requires
            self@ >= 0,
        ensures
            r == self.sqrt_v(),
    {
        proof {
            assert((self.raw as int) * (SCALE as int) < 0x100000000000000000000) by (nonlinear_arith)
                requires
                    0 <= self.raw as int <= 0x7fffffffffffffff,
            ;
        }
        let n: u128 = (self.raw as u128) * (SCALE as u128);
        let root: u128 = isqrt_wide(n);
        proof {
            lemma_sqrt_floor_unique(n as int, root as int);
        }
        Fx { raw: clamp_wide(root as i128) }
    }

    /// Whole part of the scalar, truncated toward zero.
    pub fn trunc(self) -> (r: i64)
        ensures
            r as int == tdiv(self@, SCALE as int),
    {
        let w: i128 = tdiv_wide(self.raw as i128, SCALE as i128);
        proof {
            lemma_tdiv_mag_le(self.raw as int, SCALE as int);
        }
        w as i64
    }

    /// Exact comparison.
    pub fn lt(self, o: Fx) -> (r: bool)
        ensures
            r == (self@ < o@),
    {
        self.raw < o.raw
    }

    /// Exact comparison.
    pub fn le(self, o: Fx) -> (r: bool)
        ensures
            r == (self@ <= o@),
    {
        self.raw <= o.raw
    }

    /// Exact comparison against zero.
    pub fn is_zero(self) -> (r: bool)
        ensures
            r == (self@ == 0),
    {
        self.raw == 0
    }
}

/// Integer square root of a wide intermediate, by binary search.
fn isqrt_wide(n: u128) -> (r: u128)
    requires
        n < 0x100000000000000000000,
    ensures
        is_sqrt_floor(n as int, r as int),
        r <= 0x10000000000,
{
    let mut lo: u128 = 0;
    let mut hi: u128 = 0x10000000000;
    assert((0x10000000000 as int) * (0x10000000000 as int) == 0x100000000000000000000) by (nonlinear_arith);
    while lo + 1 < hi
        invariant
            lo < hi,
            hi <= 0x10000000000,
            (lo as int) * (lo as int) <= n as int,
            (n as int) < (hi as int) * (hi as int),
        decreases hi - lo,
    {
        let mid: u128 = lo + (hi - lo) / 2;
        assert(lo < mid < hi);
        proof {
            assert((mid as int) * (mid as int) <= 0x100000000000000000000) by (nonlinear_arith)
                requires
                    0 <= mid as int <= 0x10000000000,
            ;
        }
        if mid * mid <= n {
            lo = mid;
        } else {
            hi = mid;
        }
    }
    lo
}

/// The truncated quotient's magnitude never exceeds the numerator's.
proof fn lemma_tdiv_mag_le(n: int, d: int)
    requires
        d != 0,
    ensures
        mag(tdiv(n, d)) <= mag(n),
{
    vstd::arithmetic::div_mod::lemma_div_nonincreasing(mag(n), mag(d));
    vstd::arithmetic::div_mod::lemma_div_pos_is_pos(mag(n), mag(d));
}

/// Two integers below the same square root bound are the same root.
pub proof fn lemma_sqrt_floor_unique(n: int, r: int)
    requires
        is_sqrt_floor(n, r),
    ensures
        sqrt_floor(n) == r,
{
    assert(is_sqrt_floor(n, r));
    let w = choose|x: int| is_sqrt_floor(n, x);
    assert(is_sqrt_floor(n, w));
    if w < r {
        assert((w + 1) * (w + 1) <= r * r) by (nonlinear_arith)
            requires
                0 <= w,
                0 <= r,
                w + 1 <= r,
        ;
        assert(false);
    }
    if r < w {
        assert((r + 1) * (r + 1) <= w * w) by (nonlinear_arith)
            requires
                0 <= r,
                0 <= w,
                r + 1 <= w,
        ;
        assert(false);
    }
}

/// Every non-negative integer has a square root rounded down.
pub proof fn lemma_sqrt_floor_exists(n: int)
    requires
        n >= 0,
    ensures
        is_sqrt_floor(n, sqrt_floor(n)),
    decreases n,
{
    if n == 0 {
        assert(is_sqrt_floor(0, 0));
        lemma_sqrt_floor_unique(0, 0);
    } else {
        lemma_sqrt_floor_exists(n - 1);
        let r = sqrt_floor(n - 1);
        if (r + 1) * (r + 1) <= n {
            assert(n == (r + 1) * (r + 1));
            assert((r + 2) * (r + 2) > (r + 1) * (r + 1)) by (nonlinear_arith)
                requires
                    r >= 0,
            ;
            assert(is_sqrt_floor(n, r + 1));
            lemma_sqrt_floor_unique(n, r + 1);
        } else {
            assert(is_sqrt_floor(n, r));
            lemma_sqrt_floor_unique(n, r);
        }
    }
}

/// Saturation commutes with negation: the raw range is symmetric.
pub proof fn lemma_clip_neg(v: int)
    ensures
        clip(-v) == -clip(v),
{
}

/// Truncating division commutes with negating the numerator.
pub proof fn lemma_tdiv_neg(n: int, d: int)
    requires
        d != 0,
    ensures
        tdiv(-n, d) == -tdiv(n, d),
{
    assert(mag(-n) == mag(n));
}

/// Evaluate a truncating division of non-negative values by naming its
/// quotient and remainder.
pub proof fn lemma_tdiv_eval(n: int, d: int, q: int, r: int)
    requires
        n >= 0,
        d > 0,
        0 <= r < d,
        n == q * d + r,
    ensures
        tdiv(n, d) == q,
{
    vstd::arithmetic::div_mod::lemma_fundamental_div_mod_converse(n, d, q, r);
}

/// A truncated quotient of non-negatives is the floor: it multiplies back to
/// within one divisor of the numerator.
pub proof fn lemma_tdiv_bounds(n: int, d: int)
    requires
        n >= 0,
        d > 0,
    ensures
        d * tdiv(n, d) <= n < d * tdiv(n, d) + d,
{
    vstd::arithmetic::div_mod::lemma_fundamental_div_mod(n, d);
    vstd::arithmetic::div_mod::lemma_mod_division_less_than_divisor(n, d);
}

/// Scaling by a positive factor scales the magnitude.
pub proof fn lemma_mag_mul_pos(x: int, c: int)
    requires
        c > 0,
    ensures
        mag(x * c) == mag(x) * c,
{
    if x >= 0 {
        assert(x * c >= 0) by (nonlinear_arith)
            requires
                x >= 0,
                c > 0,
        ;
    } else {
        assert(x * c < 0) by (nonlinear_arith)
            requires
                x < 0,
                c > 0,
        ;
        assert(-(x * c) == (-x) * c) by (nonlinear_arith);
    }
}

/// Truncating division of non-negatives is non-negative.
pub proof fn lemma_tdiv_nonneg(n: int, d: int)
    requires
        n >= 0,
        d > 0,
    ensures
        tdiv(n, d) >= 0,
{
    vstd::arithmetic::div_mod::lemma_div_pos_is_pos(mag(n), mag(d));
}

/// Dividing an exact multiple is exact.
pub proof fn lemma_tdiv_multiple(x: int, d: int)
    requires
        d > 0,
    ensures
        tdiv(x * d, d) == x,
{
    if x >= 0 {
        assert(x * d >= 0) by (nonlinear_arith)
            requires
                x >= 0,
                d > 0,
        ;
        assert(mag(x * d) == x * d);
        assert(x * d == d * x) by (nonlinear_arith);
        vstd::arithmetic::div_mod::lemma_div_multiples_vanish(x, d);
    } else {
        assert(x * d < 0) by (nonlinear_arith)
            requires
                x < 0,
                d > 0,
        ;
        assert(-(x * d) == (-x) * d) by (nonlinear_arith);
        assert(mag(x * d) == (-x) * d);
        assert((-x) * d == d * (-x)) by (nonlinear_arith);
        vstd::arithmetic::div_mod::lemma_div_multiples_vanish(-x, d);
    }
}

/// Multiplying by minus one negates a scalar in range exactly.
pub proof fn lemma_mul_neg_one(a: Fx)
    requires
        -(RAW_LIMIT as int) <= a@ <= RAW_LIMIT as int,
    ensures
        a.mul_v(Fx { raw: (-SCALE) as i64 }) == a.neg_v(),
{
    assert(a@ * ((-SCALE) as int) == -(a@ * (SCALE as int))) by (nonlinear_arith);
    lemma_tdiv_multiple(a@, SCALE as int);
    lemma_tdiv_neg(a@ * (SCALE as int), SCALE as int);
}

/// Negating one factor in range negates the truncated product exactly.
pub proof fn lemma_mul_neg_left(a: Fx, b: Fx)
    requires
        -(RAW_LIMIT as int) <= a@ <= RAW_LIMIT as int,
    ensures
        a.neg_v().mul_v(b)@ == -(a.mul_v(b)@),
{
    assert(a.neg_v()@ == -a@);
    assert((-a@) * b@ == -(a@ * b@)) by (nonlinear_arith);
    lemma_tdiv_neg(a@ * b@, SCALE as int);
    lemma_clip_neg(tdiv(a@ * b@, SCALE as int));
}

} // verus!

