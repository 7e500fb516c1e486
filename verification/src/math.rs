//! Scalar helpers for fixed-point arithmetic: truncating signed division
//! and integer square roots, with the lemmas the vector layer needs.

use vstd::prelude::*;
use vstd::arithmetic::div_mod::{
    lemma_div_is_ordered, lemma_div_multiples_vanish, lemma_div_nonincreasing,
    lemma_div_pos_is_pos, lemma_fundamental_div_mod, lemma_mod_division_less_than_divisor,
};

verus! {

/// Signed division truncating toward zero (the behaviour of `/` on Rust's
/// signed integers), for a positive divisor.
pub open spec fn sdiv(a: int, b: int) -> int {
    if a >= 0 {
        a / b
    } else {
        -((-a) / b)
    }
}

/// Floor of the square root of a natural number.
pub open spec fn sqrt_floor(x: nat) -> nat
    decreases x,
{
    if x == 0 {
        0
    } else {
        let r = sqrt_floor((x - 1) as nat);
        if (r + 1) * (r + 1) <= x {
            r + 1
        } else {
            r
        }
    }
}

/// Ceiling of the square root of a natural number.
pub open spec fn sqrt_ceil(x: nat) -> nat {
    if sqrt_floor(x) * sqrt_floor(x) == x {
        sqrt_floor(x)
    } else {
        sqrt_floor(x) + 1
    }
}

pub proof fn lemma_sqrt_floor_bounds(x: nat)
    ensures
        sqrt_floor(x) * sqrt_floor(x) <= x,
        x < (sqrt_floor(x) + 1) * (sqrt_floor(x) + 1),
    decreases x,
{
    if x == 0 {
        assert(x < (sqrt_floor(x) + 1) * (sqrt_floor(x) + 1)) by (nonlinear_arith)
            requires
                x == 0,
                sqrt_floor(x) == 0,
        ;
    } else {
        let p = (x - 1) as nat;
        lemma_sqrt_floor_bounds(p);
        let r = sqrt_floor(p);
        assert(r * r <= p);
        assert(p < (r + 1) * (r + 1));
        if (r + 1) * (r + 1) <= x {
            assert(sqrt_floor(x) == r + 1);
            assert(x == (r + 1) * (r + 1));
            assert(x < (sqrt_floor(x) + 1) * (sqrt_floor(x) + 1)) by (nonlinear_arith)
                requires
                    sqrt_floor(x) == r + 1,
                    x == (r + 1) * (r + 1),
                    r >= 0,
            ;
        } else {
            assert(sqrt_floor(x) == r);
        }
    }
}

pub proof fn lemma_sqrt_floor_unique(x: nat, r: nat)
    requires
        r * r <= x,
        x < (r + 1) * (r + 1),
    ensures
        r == sqrt_floor(x),
{
    let s = sqrt_floor(x);
    lemma_sqrt_floor_bounds(x);
    if r < s {
        assert((r + 1) * (r + 1) <= s * s) by (nonlinear_arith)
            requires
                r + 1 <= s,
        ;
    }
    if s < r {
        assert((s + 1) * (s + 1) <= r * r) by (nonlinear_arith)
            requires
                s + 1 <= r,
        ;
    }
}

pub proof fn lemma_sqrt_floor_monotonic(a: nat, b: nat)
    requires
        a <= b,
    ensures
        sqrt_floor(a) <= sqrt_floor(b),
{
    lemma_sqrt_floor_bounds(a);
    lemma_sqrt_floor_bounds(b);
    let sa = sqrt_floor(a);
    let sb = sqrt_floor(b);
    if sb < sa {
        assert((sb + 1) * (sb + 1) <= sa * sa) by (nonlinear_arith)
            requires
                sb + 1 <= sa,
        ;
    }
}

pub proof fn lemma_sqrt_floor_square(c: nat)
    ensures
        sqrt_floor(c * c) == c,
{
    assert(c * c < (c + 1) * (c + 1)) by (nonlinear_arith);
    lemma_sqrt_floor_unique(c * c, c);
}

pub proof fn lemma_sqrt_ceil_bounds(x: nat)
    ensures
        x <= sqrt_ceil(x) * sqrt_ceil(x),
        x > 0 ==> sqrt_ceil(x) >= 1,
        sqrt_ceil(x) <= sqrt_floor(x) + 1,
{
    lemma_sqrt_floor_bounds(x);
}

/// The square is monotonic in the magnitude of its argument.
pub proof fn lemma_square_le(a: int, b: int)
    requires
        -b <= a <= b,
    ensures
        a * a <= b * b,
{
    assert(a * a <= b * b) by (nonlinear_arith)
        requires
            -b <= a <= b,
    ;
}

/// A magnitude below `n` in square is a magnitude below `n`.
pub proof fn lemma_abs_le_of_sq_le(c: int, n: int)
    requires
        c * c <= n * n,
        n >= 0,
    ensures
        -n <= c <= n,
{
    assert(-n <= c <= n) by (nonlinear_arith)
        requires
            c * c <= n * n,
            n >= 0,
    ;
}

/// A bound on both factors bounds the product's magnitude.
pub proof fn lemma_mul_abs_le(a: int, b: int, ma: int, mb: int)
    requires
        -ma <= a <= ma,
        0 <= b <= mb,
        0 <= ma,
    ensures
        -(ma * mb) <= a * b <= ma * mb,
{
    assert(-(ma * mb) <= a * b <= ma * mb) by (nonlinear_arith)
        requires
            -ma <= a <= ma,
            0 <= b <= mb,
            0 <= ma,
    ;
}

/// Truncating division shrinks toward zero and never flips the sign.
pub proof fn lemma_sdiv_sign_abs(a: int, b: int)
    requires
        b >= 1,
    ensures
        a >= 0 ==> 0 <= sdiv(a, b) <= a,
        a <= 0 ==> a <= sdiv(a, b) <= 0,
{
    if a >= 0 {
        lemma_div_pos_is_pos(a, b);
        lemma_div_nonincreasing(a, b);
    } else {
        lemma_div_pos_is_pos(-a, b);
        lemma_div_nonincreasing(-a, b);
    }
}

/// A bound on the dividend gives a bound on the truncated quotient.
pub proof fn lemma_sdiv_abs_le(a: int, b: int, m: int)
    requires
        b >= 1,
        -m <= a <= m,
        0 <= m,
    ensures
        -(m / b) <= sdiv(a, b) <= m / b,
{
    lemma_div_pos_is_pos(m, b);
    if a >= 0 {
        lemma_div_is_ordered(a, m, b);
        lemma_div_pos_is_pos(a, b);
    } else {
        lemma_div_is_ordered(-a, m, b);
        lemma_div_pos_is_pos(-a, b);
    }
}

/// The quotient times the divisor stays within the dividend, in square.
pub proof fn lemma_sdiv_mul_sq(a: int, b: int)
    requires
        b >= 1,
    ensures
        sdiv(a, b) * sdiv(a, b) * (b * b) <= a * a,
{
    let m = if a >= 0 {
        a
    } else {
        -a
    };
    let q = m / b;
    lemma_fundamental_div_mod(m, b);
    lemma_mod_division_less_than_divisor(m, b);
    lemma_div_pos_is_pos(m, b);
    assert(b * q <= m);
    assert(q * q * (b * b) <= m * m) by (nonlinear_arith)
        requires
            q >= 0,
            b >= 1,
            b * q <= m,
    ;
    assert(sdiv(a, b) * sdiv(a, b) == q * q) by (nonlinear_arith)
        requires
            sdiv(a, b) == q || sdiv(a, b) == -q,
    ;
    assert(m * m == a * a) by (nonlinear_arith)
        requires
            m == a || m == -a,
    ;
}

/// Scaling `c` by `t / n` keeps the magnitude within `t` whenever `c` is
/// within `n`.
pub proof fn lemma_sdiv_scale_bound(c: int, t: int, n: int)
    requires
        1 <= n,
        0 <= t,
        -n <= c <= n,
    ensures
        -t <= sdiv(c * t, n) <= t,
{
    assert(-(n * t) <= c * t <= n * t) by (nonlinear_arith)
        requires
            0 <= t,
            -n <= c <= n,
    ;
    lemma_sdiv_abs_le(c * t, n, n * t);
    lemma_div_multiples_vanish(t, n);
    assert(n * t / n == t);
}

/// Scaling `c` by `t / n` with `t <= n` shrinks the magnitude.
pub proof fn lemma_sdiv_contract(c: int, t: int, n: int)
    requires
        1 <= n,
        0 <= t <= n,
    ensures
        c >= 0 ==> 0 <= sdiv(c * t, n) <= c,
        c <= 0 ==> c <= sdiv(c * t, n) <= 0,
{
    let m = if c >= 0 {
        c
    } else {
        -c
    };
    assert(-(m * n) <= c * t <= m * n) by (nonlinear_arith)
        requires
            0 <= t <= n,
            m >= 0,
            c == m || c == -m,
    ;
    lemma_sdiv_abs_le(c * t, n, m * n);
    lemma_div_multiples_vanish(m, n);
    assert(n * m == m * n) by (nonlinear_arith);
    assert(m * n / n == m);
    lemma_sdiv_sign_abs(c * t, n);
    if c >= 0 {
        assert(c * t >= 0) by (nonlinear_arith)
            requires
                c >= 0,
                t >= 0,
        ;
    } else {
        assert(c * t <= 0) by (nonlinear_arith)
            requires
                c <= 0,
                t >= 0,
        ;
    }
}

/// Floor of the square root of a `u64`, by bisection.
pub fn isqrt64(x: u64) -> (r: u64)
    ensures
        r == sqrt_floor(x as nat),
        r * r <= x,
        (x as int) < (r + 1) * (r + 1),
        r <= 0xffff_ffffu64,
        x >= 1 ==> r >= 1,
{
    let mut lo: u64 = 0;
    let mut hi: u64 = 0xffff_ffff;
    assert((x as int) < ((hi + 1) as int) * (((hi + 1)) as int)) by (nonlinear_arith)
        requires
            x <= 0xffff_ffff_ffff_ffffu64,
            hi == 0xffff_ffffu64,
    ;
    while lo < hi
        invariant
            lo <= hi <= 0xffff_ffffu64,
            (lo as int) * (lo as int) <= x as int,
            (x as int) < ((hi as int) + 1) * ((hi as int) + 1),
        decreases hi - lo,
    {
        let mid: u64 = lo + (hi - lo + 1) / 2;
        assert(lo < mid <= hi);
        assert((mid as int) * (mid as int) <= 0xffff_fffe_0000_0001) by (nonlinear_arith)
            requires
                mid <= 0xffff_ffffu64,
        ;
        if mid * mid <= x {
            lo = mid;
        } else {
            hi = mid - 1;
        }
    }
    proof {
        lemma_sqrt_floor_unique(x as nat, lo as nat);
        if x >= 1 && lo == 0 {
            assert((x as int) < 1) by (nonlinear_arith)
                requires
                    lo == 0,
                    (x as int) < ((lo as int) + 1) * ((lo as int) + 1),
            ;
            assert(false);
        }
    }
    lo
}

/// Ceiling of the square root of a `u64`.
pub fn isqrt64_ceil(x: u64) -> (r: u64)
    ensures
        r == sqrt_ceil(x as nat),
        x as int <= (r as int) * (r as int),
        x >= 1 ==> r >= 1,
        r <= 0x1_0000_0000u64,
{
    let f = isqrt64(x);
    proof {
        lemma_sqrt_ceil_bounds(x as nat);
    }
    if f * f == x {
        f
    } else {
        f + 1
    }
}

/// `c * num / den`, truncated toward zero, without intermediate overflow.
pub fn mul_div_trunc(c: i64, num: i64, den: i64) -> (r: i64)
    requires
        0 <= num,
        1 <= den,
        -0x7fff_ffff_ffff_ffff <= (c as int) * (num as int) <= 0x7fff_ffff_ffff_ffff,
        -0x7fff_ffff_ffff_ffff <= c,
    ensures
        r == sdiv(c * num, den as int),
{
    if c >= 0 {
        proof {
            assert((c as int) * (num as int) >= 0) by (nonlinear_arith)
                requires
                    c >= 0,
                    num >= 0,
            ;
        }
        let prod: u64 = (c as u64) * (num as u64);
        let q: u64 = prod / (den as u64);
        proof {
            lemma_div_nonincreasing(prod as int, den as int);
            lemma_div_pos_is_pos(prod as int, den as int);
        }
        q as i64
    } else {
        proof {
            assert(((-c) as int) * (num as int) == -((c as int) * (num as int))) by (nonlinear_arith);
            assert((c as int) * (num as int) <= 0) by (nonlinear_arith)
                requires
                    c < 0,
                    num >= 0,
            ;
        }
        let neg: u64 = ((-c) as u64) * (num as u64);
        let q: u64 = neg / (den as u64);
        proof {
            lemma_div_nonincreasing(neg as int, den as int);
            lemma_div_pos_is_pos(neg as int, den as int);
        }
        -(q as i64)
    }
}

} // verus!
