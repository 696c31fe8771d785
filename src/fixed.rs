use vstd::prelude::*;

verus! {

/// Scale of the fixed-point numbers used throughout: the integer `v` stands
/// for the real number `v / ONE`.
pub const ONE: i64 = 65536;

/// Largest magnitude of a coordinate (2^40, that is 2^24 in real units).
pub const LIMIT: i64 = 1_099_511_627_776;

/// Largest magnitude of a matrix entry (2^32, that is 65536 in real units).
pub const MAT_LIMIT: i64 = 4_294_967_296;

pub open spec fn abs(a: int) -> int {
    if a < 0 {
        -a
    } else {
        a
    }
}

/// Division rounding toward zero.
pub open spec fn div_trunc(a: int, d: int) -> int {
    let q = abs(a) / abs(d);
    if (a < 0) != (d < 0) {
        -q
    } else {
        q
    }
}

/// `v` limited to `[-LIMIT, LIMIT]`.
pub open spec fn clamp_lim(v: int) -> int {
    if v < -LIMIT {
        -LIMIT as int
    } else if v > LIMIT {
        LIMIT as int
    } else {
        v
    }
}

/// A fixed-point product sum brought back to scale `ONE` and limited to `[-LIMIT, LIMIT]`.
pub open spec fn rescale(s: int) -> int {
    clamp_lim(div_trunc(s, ONE as int))
}

pub proof fn lemma_mul_abs_le(a: int, b: int, ma: int, mb: int)
    requires
        abs(a) <= ma,
        abs(b) <= mb,
    ensures
        -(ma * mb) <= a * b <= ma * mb,
{
    assert(-(ma * mb) <= a * b <= ma * mb) by (nonlinear_arith)
        requires
            -ma <= a <= ma,
            -mb <= b <= mb,
    ;
}

/// Division rounding toward zero; `d` must not be zero.
pub fn div_trunc_i128(a: i128, d: i128) -> (q: i128)
    requires
        d != 0,
        a > i128::MIN,
        d > i128::MIN,
    ensures
        q == div_trunc(a as int, d as int),
{
    let ua: i128 = if a < 0 {
        -a
    } else {
        a
    };
    let ud: i128 = if d < 0 {
        -d
    } else {
        d
    };
    let q: i128 = ua / ud;
    if (a < 0) != (d < 0) {
        -q
    } else {
        q
    }
}

/// `v` limited to `[-LIMIT, LIMIT]`.
pub fn clamp_limit(v: i128) -> (r: i64)
    ensures
        r == clamp_lim(v as int),
{
    if v < -(LIMIT as i128) {
        -LIMIT
    } else if v > LIMIT as i128 {
        LIMIT
    } else {
        v as i64
    }
}

/// `v` limited to `[lo, hi]`.
pub fn clamp_i64(v: i64, lo: i64, hi: i64) -> (r: i64)
    requires
        lo <= hi,
    ensures
        r == if v < lo {
            lo
        } else if v > hi {
            hi
        } else {
            v
        },
{
    if v < lo {
        lo
    } else if v > hi {
        hi
    } else {
        v
    }
}

/// A fixed-point product sum brought back to scale `ONE`, limited to `[-LIMIT, LIMIT]`.
pub fn rescale_i128(s: i128) -> (r: i64)
    requires
        s > i128::MIN,
    ensures
        r == rescale(s as int),
{
    let q: i128 = div_trunc_i128(s, ONE as i128);
    clamp_limit(q)
}

/// The largest `r <= k` with `r * r <= v` (zero if none is positive).
pub open spec fn isqrt_from(v: int, k: int) -> int
    decreases k,
{
    if k <= 0 {
        0
    } else if k * k <= v {
        k
    } else {
        isqrt_from(v, k - 1)
    }
}

/// Integer square root: the largest `r` with `r * r <= v`.
pub open spec fn isqrt(v: int) -> int {
    isqrt_from(v, v)
}

proof fn lemma_isqrt_from_unique(v: int, r: int, k: int)
    requires
        0 <= r <= k,
        r * r <= v < (r + 1) * (r + 1),
    ensures
        isqrt_from(v, k) == r,
    decreases k,
{
    if k > r {
        assert(k * k >= (r + 1) * (r + 1)) by (nonlinear_arith)
            requires
                k >= r + 1,
                r >= 0,
        ;
        lemma_isqrt_from_unique(v, r, k - 1);
    }
}

/// The integer square root is the unique `r >= 0` with `r * r <= v < (r + 1) * (r + 1)`.
pub proof fn lemma_isqrt_unique(v: int, r: int)
    requires
        0 <= r,
        r * r <= v < (r + 1) * (r + 1),
    ensures
        isqrt(v) == r,
{
    assert(r <= r * r || r == 0) by (nonlinear_arith)
        requires
            r >= 0,
    ;
    lemma_isqrt_from_unique(v, r, v);
}

/// Integer square root by bisection.
pub fn isqrt_u64(v: u64) -> (r: u64)
    ensures
        r == isqrt(v as int),
        (r as int) * (r as int) <= v,
        v < (r as int + 1) * (r as int + 1),
{
    let mut lo: u64 = 0;
    let mut hi: u64 = 4294967296;
    assert(v < 4294967296 * 4294967296);
    while hi - lo > 1
        invariant
            lo < hi <= 4294967296,
            (lo as int) * (lo as int) <= v,
            v < (hi as int) * (hi as int),
        decreases hi - lo,
    {
        let mid: u64 = lo + (hi - lo) / 2;
        assert((mid as int) * (mid as int) < 4294967296 * 4294967296) by (nonlinear_arith)
            requires
                0 <= mid < 4294967296,
        ;
        if mid * mid <= v {
            lo = mid;
        } else {
            hi = mid;
        }
    }
    proof {
        lemma_isqrt_unique(v as int, lo as int);
    }
    lo
}

} // verus!
