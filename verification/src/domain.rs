//! The simulation volume: an axis-aligned cube `[space_min, space_max]^3`
//! with periodic (toroidal) topology. `wraparound` maps any coordinate
//! back into the domain by modular arithmetic, so even a jump of many
//! domain widths in one step lands on the right representative.

use vstd::prelude::*;
use vstd::arithmetic::div_mod::{
    lemma_fundamental_div_mod, lemma_mod_division_less_than_divisor, lemma_mod_multiples_basic,
    lemma_small_mod,
};
use crate::vec3::{v3_bounded, V3, Vec3};

verus! {

/// One axis of the periodic boundary map: a value below `lo` re-enters
/// from the high side, one above `hi` from the low side, by the distance
/// left over after discarding whole domain widths.
pub open spec fn wrap_axis_spec(v: int, lo: int, hi: int) -> int {
    if v < lo {
        hi - ((lo - v) % (hi - lo))
    } else if v > hi {
        lo + ((v - hi) % (hi - lo))
    } else {
        v
    }
}

pub open spec fn wrap_spec(v: V3, lo: int, hi: int) -> V3 {
    V3 {
        x: wrap_axis_spec(v.x, lo, hi),
        y: wrap_axis_spec(v.y, lo, hi),
        z: wrap_axis_spec(v.z, lo, hi),
    }
}

pub open spec fn in_range(v: int, lo: int, hi: int) -> bool {
    lo <= v <= hi
}

pub open spec fn v3_in_range(v: V3, lo: int, hi: int) -> bool {
    in_range(v.x, lo, hi) && in_range(v.y, lo, hi) && in_range(v.z, lo, hi)
}

/// The wrapped coordinate lies inside the domain.
pub proof fn lemma_wrap_axis_in_range(v: int, lo: int, hi: int)
    requires
        lo < hi,
    ensures
        in_range(wrap_axis_spec(v, lo, hi), lo, hi),
{
    if v < lo {
        lemma_mod_division_less_than_divisor(lo - v, hi - lo);
    } else if v > hi {
        lemma_mod_division_less_than_divisor(v - hi, hi - lo);
    }
}

/// Law: wraparound leaves a value already inside the domain unchanged.
pub proof fn lemma_wrap_axis_identity(v: int, lo: int, hi: int)
    requires
        lo <= v <= hi,
    ensures
        wrap_axis_spec(v, lo, hi) == v,
{
}

/// Law: wraparound is idempotent — applying it twice equals applying it
/// once.
pub proof fn lemma_wrap_axis_idempotent(v: int, lo: int, hi: int)
    requires
        lo < hi,
    ensures
        wrap_axis_spec(wrap_axis_spec(v, lo, hi), lo, hi) == wrap_axis_spec(v, lo, hi),
{
    lemma_wrap_axis_in_range(v, lo, hi);
}

/// Law: the wrapped coordinate differs from the unwrapped one by a whole
/// number of domain widths — wraparound picks the modular representative,
/// it does not clamp.
pub proof fn lemma_wrap_axis_congruent(v: int, lo: int, hi: int)
    requires
        lo < hi,
    ensures
        (wrap_axis_spec(v, lo, hi) - v) % (hi - lo) == 0,
{
    let w = hi - lo;
    if v < lo {
        let d = lo - v;
        lemma_fundamental_div_mod(d, w);
        let k = 1 + d / w;
        assert(wrap_axis_spec(v, lo, hi) - v == k * w) by (nonlinear_arith)
            requires
                d == w * (d / w) + d % w,
                wrap_axis_spec(v, lo, hi) == hi - d % w,
                d == lo - v,
                w == hi - lo,
                k == 1 + d / w,
        ;
        lemma_mod_multiples_basic(k, w);
    } else if v > hi {
        let d = v - hi;
        lemma_fundamental_div_mod(d, w);
        let k = -(d / w) - 1;
        assert(wrap_axis_spec(v, lo, hi) - v == k * w) by (nonlinear_arith)
            requires
                d == w * (d / w) + d % w,
                wrap_axis_spec(v, lo, hi) == lo + d % w,
                d == v - hi,
                w == hi - lo,
                k == -(d / w) - 1,
        ;
        lemma_mod_multiples_basic(k, w);
    } else {
        lemma_small_mod(0, w as nat);
    }
}

pub proof fn lemma_wrap_in_range(v: V3, lo: int, hi: int)
    requires
        lo < hi,
    ensures
        v3_in_range(wrap_spec(v, lo, hi), lo, hi),
{
    lemma_wrap_axis_in_range(v.x, lo, hi);
    lemma_wrap_axis_in_range(v.y, lo, hi);
    lemma_wrap_axis_in_range(v.z, lo, hi);
}

/// One coordinate of the periodic boundary map.
pub fn wrap_axis(v: i64, lo: i64, hi: i64) -> (r: i64)
    requires
        lo < hi,
        -0x2000_0000_0000_0000 <= v <= 0x2000_0000_0000_0000,
        -0x2000_0000_0000_0000 <= lo,
        hi <= 0x2000_0000_0000_0000,
    ensures
        r == wrap_axis_spec(v as int, lo as int, hi as int),
        lo <= r <= hi,
{
    proof {
        lemma_wrap_axis_in_range(v as int, lo as int, hi as int);
    }
    let w = hi - lo;
    if v < lo {
        let d = lo - v;
        proof {
            lemma_mod_division_less_than_divisor(d as int, w as int);
        }
        let m = ((d as u64) % (w as u64)) as i64;
        hi - m
    } else if v > hi {
        let d = v - hi;
        proof {
            lemma_mod_division_less_than_divisor(d as int, w as int);
        }
        let m = ((d as u64) % (w as u64)) as i64;
        lo + m
    } else {
        v
    }
}

/// The periodic boundary map, applied to each axis independently.
pub fn wraparound(v: Vec3, lo: i64, hi: i64) -> (r: Vec3)
    requires
        lo < hi,
        v3_bounded(v@, 0x2000_0000_0000_0000),
        -0x2000_0000_0000_0000 <= lo,
        hi <= 0x2000_0000_0000_0000,
    ensures
        r@ == wrap_spec(v@, lo as int, hi as int),
        v3_in_range(r@, lo as int, hi as int),
{
    Vec3 { x: wrap_axis(v.x, lo, hi), y: wrap_axis(v.y, lo, hi), z: wrap_axis(v.z, lo, hi) }
}

} // verus!
