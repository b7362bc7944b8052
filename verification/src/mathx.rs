//! Small arithmetic helpers shared by the simulation systems: absolute
//! value, sign, clamping, the 60 Hz frame scaling law, and an integer
//! square root used to normalise dash directions.

use vstd::prelude::*;

verus! {

use crate::{DT_LIMIT_MS, VEL_LIMIT};

/// Absolute value over mathematical integers.
pub open spec fn spec_abs(v: int) -> int {
    if v < 0 { -v } else { v }
}

/// Sign over mathematical integers: -1, 0 or 1.
pub open spec fn spec_sign(v: int) -> int {
    if v < 0 { -1 } else if v > 0 { 1 } else { 0 }
}

/// Clamp `v` into `[lo, hi]`.
pub open spec fn spec_clamp(v: int, lo: int, hi: int) -> int {
    if v < lo { lo } else if v > hi { hi } else { v }
}

/// The per-tick scaling law: a per-frame quantity tuned at 60 Hz is scaled
/// by `60 * dt_ms / 1000` to cover a tick of `dt_ms` milliseconds. The
/// scaling is applied to the magnitude, so the sign is preserved exactly.
pub open spec fn spec_frame_scaled(v: int, dt_ms: int) -> int {
    spec_sign(v) * (spec_abs(v) * 60 * dt_ms / 1000)
}

pub fn abs_i64(v: i64) -> (r: i64)
    requires
        v != i64::MIN,
    ensures
        r == spec_abs(v as int),
{
    if v < 0 {
        -v
    } else {
        v
    }
}

pub fn clamp_i64(v: i64, lo: i64, hi: i64) -> (r: i64)
    requires
        lo <= hi,
    ensures
        r == spec_clamp(v as int, lo as int, hi as int),
{
    if v < lo {
        lo
    } else if v > hi {
        hi
    } else {
        v
    }
}

/// Scale a per-frame quantity to a tick of `dt_ms` milliseconds.
pub fn frame_scaled(v: i64, dt_ms: u64) -> (r: i64)
    requires
        spec_abs(v as int) <= VEL_LIMIT,
        dt_ms <= DT_LIMIT_MS,
    ensures
        r == spec_frame_scaled(v as int, dt_ms as int),
        spec_abs(r as int) <= spec_abs(v as int) * 60 * dt_ms,
        spec_abs(r as int) <= VEL_LIMIT * 60 * DT_LIMIT_MS,
{
    let magnitude: i64 = abs_i64(v);
    assert(0 <= magnitude * 60 * (dt_ms as int) <= VEL_LIMIT * 60 * DT_LIMIT_MS) by (nonlinear_arith)
        requires
            0 <= magnitude <= VEL_LIMIT,
            0 <= dt_ms <= DT_LIMIT_MS,
    ;
    let scaled: i64 = magnitude * 60 * (dt_ms as i64) / 1000;
    assert(0 <= scaled <= magnitude * 60 * (dt_ms as int)) by (nonlinear_arith)
        requires
            scaled == magnitude * 60 * (dt_ms as int) / 1000,
            0 <= magnitude * 60 * (dt_ms as int),
    ;
    assert(scaled == spec_abs(v as int) * 60 * (dt_ms as int) / 1000);
    if v < 0 {
        assert(spec_frame_scaled(v as int, dt_ms as int) == -1 * (spec_abs(v as int) * 60 * (dt_ms as int) / 1000));
        assert(-scaled == spec_frame_scaled(v as int, dt_ms as int));
        -scaled
    } else if v == 0 {
        assert(scaled == 0);
        scaled
    } else {
        assert(scaled == spec_frame_scaled(v as int, dt_ms as int));
        scaled
    }
}

/// `r` is the integer square root of `n`.
pub open spec fn is_isqrt_of(r: int, n: int) -> bool {
    0 <= r && r * r <= n && n < (r + 1) * (r + 1)
}

/// The integer square root: the largest `r` with `r * r <= n`.
pub open spec fn spec_isqrt(n: int) -> int {
    choose|r: int| is_isqrt_of(r, n)
}

/// No two integers are both the integer square root of `n`.
pub proof fn lemma_isqrt_unique(a: int, b: int, n: int)
    requires
        is_isqrt_of(a, n),
        is_isqrt_of(b, n),
    ensures
        a == b,
{
    if a < b {
        assert((a + 1) * (a + 1) <= b * b) by (nonlinear_arith)
            requires
                0 <= a + 1 <= b,
        ;
    }
    if b < a {
        assert((b + 1) * (b + 1) <= a * a) by (nonlinear_arith)
            requires
                0 <= b + 1 <= a,
        ;
    }
}

/// Integer square root: the largest `r` with `r * r <= n`.
pub fn isqrt_u64(n: u64) -> (r: u64)
    ensures
        is_isqrt_of(r as int, n as int),
        r == spec_isqrt(n as int),
{
    if n == 0 {
        proof {
            assert(is_isqrt_of(0, 0));
            assert(exists|r: int| is_isqrt_of(r, 0)) by {
                assert(is_isqrt_of(0, 0));
            }
            lemma_isqrt_unique(0, spec_isqrt(0), 0);
        }
        return 0;
    }
    // Newton style bisection on the monotone predicate `m * m <= n`.
    let mut lo: u64 = 0;
    let mut hi: u64 = if n < 4_294_967_296 { n + 1 } else { 4_294_967_296 };
    // Invariant: lo * lo <= n < hi * hi.
    assert(hi * hi > n) by (nonlinear_arith)
        requires
            hi == if n < 4_294_967_296 { n + 1 } else { 4_294_967_296 as int },
            1 <= n <= 0xffff_ffff_ffff_ffff,
    ;
    while lo + 1 < hi
        invariant
            lo < hi <= 4_294_967_296,
            lo * lo <= n,
            n < hi * hi,
        decreases hi - lo,
    {
        let mid: u64 = lo + (hi - lo) / 2;
        if mid <= n / mid {
            assert(mid * mid <= n) by (nonlinear_arith)
                requires
                    1 <= mid,
                    mid <= n / mid,
            ;
            lo = mid;
        } else {
            assert(n < mid * mid) by (nonlinear_arith)
                requires
                    1 <= mid,
                    n / mid < mid,
            ;
            hi = mid;
        }
    }
    proof {
        assert(is_isqrt_of(lo as int, n as int));
        assert(exists|r: int| is_isqrt_of(r, n as int)) by {
            assert(is_isqrt_of(lo as int, n as int));
        }
        lemma_isqrt_unique(lo as int, spec_isqrt(n as int), n as int);
    }
    lo
}

} // verus!
