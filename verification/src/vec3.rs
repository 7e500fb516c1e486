//! Fixed-point 3D vectors.
//!
//! An exec `Vec3` holds three `i64` coordinates, each a world value scaled
//! by `UNIT` (so `1000` is one world unit). Its ghost model `V3` uses
//! unbounded integers, and every exec operation is proved equal to the
//! corresponding ghost operation.

use vstd::prelude::*;
use crate::math::{
    lemma_sqrt_ceil_bounds,
    lemma_abs_le_of_sq_le, lemma_mul_abs_le, lemma_sdiv_contract, lemma_sdiv_mul_sq,
    lemma_sdiv_sign_abs, lemma_square_le, isqrt64_ceil, mul_div_trunc, sdiv, sqrt_ceil,
};

verus! {

/// Mathematical (unbounded) 3-vector used in specifications.
pub ghost struct V3 {
    pub x: int,
    pub y: int,
    pub z: int,
}

/// Fixed-point 3-vector: each component is a world coordinate scaled by
/// `UNIT`.
#[derive(Clone, Copy, PartialEq, Eq, Structural, Debug)]
pub struct Vec3 {
    pub x: i64,
    pub y: i64,
    pub z: i64,
}

impl View for Vec3 {
    type V = V3;

    open spec fn view(&self) -> V3 {
        V3 { x: self.x as int, y: self.y as int, z: self.z as int }
    }
}

pub open spec fn v3_zero() -> V3 {
    V3 { x: 0, y: 0, z: 0 }
}

pub open spec fn v3_add(a: V3, b: V3) -> V3 {
    V3 { x: a.x + b.x, y: a.y + b.y, z: a.z + b.z }
}

pub open spec fn v3_sub(a: V3, b: V3) -> V3 {
    V3 { x: a.x - b.x, y: a.y - b.y, z: a.z - b.z }
}

/// The squared Euclidean norm.
pub open spec fn v3_norm_sq(a: V3) -> int {
    a.x * a.x + a.y * a.y + a.z * a.z
}

/// Every component lies in `[-b, b]`.
pub open spec fn v3_bounded(a: V3, b: int) -> bool {
    &&& -b <= a.x <= b
    &&& -b <= a.y <= b
    &&& -b <= a.z <= b
}

/// Every component is representable as an `i64`.
pub open spec fn v3_fits_i64(a: V3) -> bool {
    v3_bounded(a, 0x7fff_ffff_ffff_ffff)
}

/// Componentwise comparison of magnitudes, with matching signs.
pub open spec fn v3_abs_le(a: V3, b: V3) -> bool {
    &&& if b.x >= 0 {
        0 <= a.x <= b.x
    } else {
        b.x <= a.x <= 0
    }
    &&& if b.y >= 0 {
        0 <= a.y <= b.y
    } else {
        b.y <= a.y <= 0
    }
    &&& if b.z >= 0 {
        0 <= a.z <= b.z
    } else {
        b.z <= a.z <= 0
    }
}

/// Componentwise `c * num / den`, truncated toward zero.
pub open spec fn v3_sdiv(a: V3, num: int, den: int) -> V3 {
    V3 { x: sdiv(a.x * num, den), y: sdiv(a.y * num, den), z: sdiv(a.z * num, den) }
}

/// Componentwise division by a positive count, truncated toward zero.
pub open spec fn v3_div(a: V3, den: int) -> V3 {
    V3 { x: sdiv(a.x, den), y: sdiv(a.y, den), z: sdiv(a.z, den) }
}

/// A vector rescaled so that its magnitude is (up to rounding) `t`:
/// `v * t / ceil(‖v‖)`. The zero vector stays zero.
pub open spec fn v3_scale_to(v: V3, t: int) -> V3 {
    if v3_norm_sq(v) == 0 {
        v3_zero()
    } else {
        v3_sdiv(v, t, sqrt_ceil(v3_norm_sq(v) as nat) as int)
    }
}

/// The magnitude clamp: a vector whose norm exceeds `max` is rescaled to
/// magnitude (at most) `max`; a shorter vector is returned unchanged.
pub open spec fn v3_limit(v: V3, max: int) -> V3 {
    if v3_norm_sq(v) <= max * max {
        v
    } else {
        v3_sdiv(v, max, sqrt_ceil(v3_norm_sq(v) as nat) as int)
    }
}

/// Rescaling by `t / n` keeps the squared norm within `t * t`, provided
/// the squared norm was within `n * n`.
pub proof fn lemma_sdiv_norm_le(v: V3, t: int, n: int)
    requires
        n >= 1,
        t >= 0,
        v3_norm_sq(v) <= n * n,
    ensures
        v3_norm_sq(v3_sdiv(v, t, n)) <= t * t,
{
    let q = v3_sdiv(v, t, n);
    lemma_sdiv_mul_sq(v.x * t, n);
    lemma_sdiv_mul_sq(v.y * t, n);
    lemma_sdiv_mul_sq(v.z * t, n);
    assert((v.x * t) * (v.x * t) == (v.x * v.x) * (t * t)) by (nonlinear_arith);
    assert((v.y * t) * (v.y * t) == (v.y * v.y) * (t * t)) by (nonlinear_arith);
    assert((v.z * t) * (v.z * t) == (v.z * v.z) * (t * t)) by (nonlinear_arith);
    assert(v3_norm_sq(q) * (n * n) <= v3_norm_sq(v) * (t * t)) by (nonlinear_arith)
        requires
            q.x * q.x * (n * n) <= (v.x * v.x) * (t * t),
            q.y * q.y * (n * n) <= (v.y * v.y) * (t * t),
            q.z * q.z * (n * n) <= (v.z * v.z) * (t * t),
            v3_norm_sq(q) == q.x * q.x + q.y * q.y + q.z * q.z,
            v3_norm_sq(v) == v.x * v.x + v.y * v.y + v.z * v.z,
    ;
    assert(v3_norm_sq(q) <= t * t) by (nonlinear_arith)
        requires
            v3_norm_sq(q) * (n * n) <= v3_norm_sq(v) * (t * t),
            v3_norm_sq(v) <= n * n,
            t * t >= 0,
            n >= 1,
    ;
}

/// Each component of a vector is within the ceiling of its norm.
pub proof fn lemma_components_le_norm(v: V3, n: int)
    requires
        v3_norm_sq(v) <= n * n,
        n >= 0,
    ensures
        v3_bounded(v, n),
{
    assert(v.x * v.x <= n * n && v.y * v.y <= n * n && v.z * v.z <= n * n) by (nonlinear_arith)
        requires
            v.x * v.x + v.y * v.y + v.z * v.z <= n * n,
            v3_norm_sq(v) == v.x * v.x + v.y * v.y + v.z * v.z,
    ;
    lemma_abs_le_of_sq_le(v.x, n);
    lemma_abs_le_of_sq_le(v.y, n);
    lemma_abs_le_of_sq_le(v.z, n);
}

/// Law (clamp below the cap): a vector whose squared norm is within the
/// cap passes through the magnitude clamp unchanged.
pub proof fn lemma_limit_under_cap(v: V3, max: int)
    requires
        v3_norm_sq(v) <= max * max,
    ensures
        v3_limit(v, max) == v,
{
}

/// Law (clamp above the cap): a vector whose squared norm exceeds the
/// cap is rescaled so that its squared norm is within `max * max`, with
/// every component keeping its sign and shrinking in magnitude.
pub proof fn lemma_limit_over_cap(v: V3, max: int)
    requires
        0 <= max,
        v3_norm_sq(v) > max * max,
    ensures
        v3_norm_sq(v3_limit(v, max)) <= max * max,
        v3_abs_le(v3_limit(v, max), v),
        v3_bounded(v3_limit(v, max), max),
{
    let nsq = v3_norm_sq(v);
    assert(nsq > 0);
    lemma_sqrt_ceil_bounds(nsq as nat);
    let n = sqrt_ceil(nsq as nat) as int;
    lemma_sdiv_norm_le(v, max, n);
    lemma_components_le_norm(v3_sdiv(v, max, n), max);
    assert(max < n) by (nonlinear_arith)
        requires
            max * max < nsq,
            nsq <= n * n,
            max >= 0,
            n >= 1,
    ;
    lemma_sdiv_contract(v.x, max, n);
    lemma_sdiv_contract(v.y, max, n);
    lemma_sdiv_contract(v.z, max, n);
}

impl Vec3 {
    pub fn new(x: i64, y: i64, z: i64) -> (r: Vec3)
        ensures
            r@ == (V3 { x: x as int, y: y as int, z: z as int }),
    {
        Vec3 { x, y, z }
    }

    pub fn zero() -> (r: Vec3)
        ensures
            r@ == v3_zero(),
    {
        Vec3 { x: 0, y: 0, z: 0 }
    }

    pub fn add(self, o: Vec3) -> (r: Vec3)
        requires
            v3_fits_i64(v3_add(self@, o@)),
        ensures
            r@ == v3_add(self@, o@),
    {
        Vec3 { x: self.x + o.x, y: self.y + o.y, z: self.z + o.z }
    }

    pub fn sub(self, o: Vec3) -> (r: Vec3)
        requires
            v3_fits_i64(v3_sub(self@, o@)),
        ensures
            r@ == v3_sub(self@, o@),
    {
        Vec3 { x: self.x - o.x, y: self.y - o.y, z: self.z - o.z }
    }

    pub fn norm_sq(&self) -> (r: i64)
        requires
            v3_bounded(self@, 0x6000_0000),
        ensures
            r == v3_norm_sq(self@),
            r >= 0,
    {
        proof {
            lemma_square_le(self@.x, 0x6000_0000);
            lemma_square_le(self@.y, 0x6000_0000);
            lemma_square_le(self@.z, 0x6000_0000);
            assert(self@.x * self@.x >= 0 && self@.y * self@.y >= 0 && self@.z * self@.z >= 0)
                by (nonlinear_arith);
        }
        self.x * self.x + self.y * self.y + self.z * self.z
    }

    /// Componentwise `c * num / den`, truncated toward zero.
    pub fn scale_div(self, num: i64, den: i64) -> (r: Vec3)
        requires
            0 <= num,
            1 <= den,
            -0x7fff_ffff_ffff_ffff <= self@.x * num <= 0x7fff_ffff_ffff_ffff,
            -0x7fff_ffff_ffff_ffff <= self@.y * num <= 0x7fff_ffff_ffff_ffff,
            -0x7fff_ffff_ffff_ffff <= self@.z * num <= 0x7fff_ffff_ffff_ffff,
            -0x7fff_ffff_ffff_ffff <= self.x,
            -0x7fff_ffff_ffff_ffff <= self.y,
            -0x7fff_ffff_ffff_ffff <= self.z,
        ensures
            r@ == v3_sdiv(self@, num as int, den as int),
    {
        Vec3 {
            x: mul_div_trunc(self.x, num, den),
            y: mul_div_trunc(self.y, num, den),
            z: mul_div_trunc(self.z, num, den),
        }
    }

    /// Componentwise division by a positive count, truncated toward zero.
    /// Never grows a component's magnitude.
    pub fn div_by(self, den: i64) -> (r: Vec3)
        requires
            1 <= den,
            -0x7fff_ffff_ffff_ffff <= self.x,
            -0x7fff_ffff_ffff_ffff <= self.y,
            -0x7fff_ffff_ffff_ffff <= self.z,
        ensures
            r@ == v3_div(self@, den as int),
            v3_abs_le(r@, self@),
    {
        proof {
            assert(self@.x * 1 == self@.x && self@.y * 1 == self@.y && self@.z * 1 == self@.z)
                by (nonlinear_arith);
            lemma_sdiv_sign_abs(self@.x, den as int);
            lemma_sdiv_sign_abs(self@.y, den as int);
            lemma_sdiv_sign_abs(self@.z, den as int);
        }
        Vec3 {
            x: mul_div_trunc(self.x, 1, den),
            y: mul_div_trunc(self.y, 1, den),
            z: mul_div_trunc(self.z, 1, den),
        }
    }
}

/// Rescale `v` so that its magnitude is (up to rounding) `t`, keeping its
/// direction. The zero vector stays zero.
pub fn scale_to(v: Vec3, t: i64) -> (r: Vec3)
    requires
        0 <= t <= 0x4000_0000,
        v3_bounded(v@, 0x6000_0000),
    ensures
        r@ == v3_scale_to(v@, t as int),
        v3_norm_sq(r@) <= t * t,
        v3_bounded(r@, t as int),
{
    let nsq = v.norm_sq();
    if nsq == 0 {
        proof {
            assert((t as int) * (t as int) >= 0) by (nonlinear_arith);
        }
        Vec3::zero()
    } else {
        let n = isqrt64_ceil(nsq as u64);
        let ni: i64 = n as i64;
        proof {
            lemma_mul_abs_le(v@.x, t as int, 0x6000_0000, 0x4000_0000);
            lemma_mul_abs_le(v@.y, t as int, 0x6000_0000, 0x4000_0000);
            lemma_mul_abs_le(v@.z, t as int, 0x6000_0000, 0x4000_0000);
            assert(0x6000_0000 * 0x4000_0000 < 0x7fff_ffff_ffff_ffff) by (nonlinear_arith);
            lemma_sdiv_norm_le(v@, t as int, ni as int);
            lemma_components_le_norm(v3_sdiv(v@, t as int, ni as int), t as int);
        }
        v.scale_div(t, ni)
    }
}

/// Clamp the magnitude of `v` to `max`: a vector whose norm is within the
/// cap is returned unchanged; a longer one is rescaled to magnitude at
/// most `max` without flipping any component's sign.
pub fn limit_vec(v: Vec3, max: i64) -> (r: Vec3)
    requires
        0 <= max <= 0x4000_0000,
        v3_bounded(v@, 0x6000_0000),
    ensures
        r@ == v3_limit(v@, max as int),
        v3_norm_sq(r@) <= max * max,
        v3_bounded(r@, max as int),
        v3_abs_le(r@, v@),
{
    let nsq = v.norm_sq();
    proof {
        lemma_square_le(max as int, 0x4000_0000);
        assert(0x4000_0000 * 0x4000_0000 <= 0x7fff_ffff_ffff_ffff) by (nonlinear_arith);
        assert((max as int) * (max as int) >= 0) by (nonlinear_arith);
    }
    if nsq <= max * max {
        proof {
            lemma_components_le_norm(v@, max as int);
        }
        v
    } else {
        let n = isqrt64_ceil(nsq as u64);
        let ni: i64 = n as i64;
        proof {
            lemma_mul_abs_le(v@.x, max as int, 0x6000_0000, 0x4000_0000);
            lemma_mul_abs_le(v@.y, max as int, 0x6000_0000, 0x4000_0000);
            lemma_mul_abs_le(v@.z, max as int, 0x6000_0000, 0x4000_0000);
            assert(0x6000_0000 * 0x4000_0000 < 0x7fff_ffff_ffff_ffff) by (nonlinear_arith);
            lemma_sdiv_norm_le(v@, max as int, ni as int);
            lemma_components_le_norm(v3_sdiv(v@, max as int, ni as int), max as int);
            assert((max as int) < ni as int) by (nonlinear_arith)
                requires
                    (max as int) * (max as int) < (ni as int) * (ni as int),
                    max >= 0,
                    ni >= 1,
            ;
            lemma_sdiv_contract(v@.x, max as int, ni as int);
            lemma_sdiv_contract(v@.y, max as int, ni as int);
            lemma_sdiv_contract(v@.z, max as int, ni as int);
        }
        v.scale_div(max, ni)
    }
}

} // verus!
