use vstd::prelude::*;
use crate::surd::{Surd, bounded, LIMIT};

verus! {

/// Decimal places kept when a number is written out.
pub const DIGITS: u32 = 6;

/// `10^DIGITS`.
pub const SCALE: i64 = 1_000_000;

/// `u ≤ t·√3`, decided over the integers.
pub open spec fn below_root3(t: int, u: int) -> bool {
    if t >= 0 {
        u <= 0 || u * u <= 3 * t * t
    } else {
        u < 0 && u * u >= 3 * t * t
    }
}

/// `q` is `v·10^DIGITS` rounded to the nearest integer, halves upwards:
/// `q - 1/2 ≤ v·10^DIGITS < q + 1/2`.  With `v = (r + s·√3)/3` this reads
/// `6q - 3 - 2r·10^DIGITS ≤ 2s·10^DIGITS·√3 < 6q + 3 - 2r·10^DIGITS`.
pub open spec fn is_rounded(v: Surd, q: int) -> bool {
    let t = 2 * v.s * SCALE;
    let c = 2 * v.r * SCALE;
    below_root3(t, 6 * q - 3 - c) && !below_root3(t, 6 * q + 3 - c)
}

/// The integer nearest to `v·10^DIGITS`.
pub open spec fn rounded(v: Surd) -> int {
    choose|q: int| is_rounded(v, q)
}

proof fn lemma_below_monotone(t: int, u: int, w: int)
    requires
        w <= u,
        below_root3(t, u),
    ensures
        below_root3(t, w),
{
    if t >= 0 {
        if u > 0 && w > 0 {
            assert(w * w <= u * u) by (nonlinear_arith)
                requires 0 < w <= u;
        }
    } else {
        assert(w * w >= u * u) by (nonlinear_arith)
            requires w <= u < 0;
    }
}

proof fn lemma_rounded_unique(v: Surd, q1: int, q2: int)
    requires
        is_rounded(v, q1),
        is_rounded(v, q2),
    ensures
        q1 == q2,
{
    let t = 2 * v.s * SCALE;
    let c = 2 * v.r * SCALE;
    if q1 < q2 {
        lemma_below_monotone(t, 6 * q2 - 3 - c, 6 * q1 + 3 - c);
    } else if q2 < q1 {
        lemma_below_monotone(t, 6 * q1 - 3 - c, 6 * q2 + 3 - c);
    }
}

/// The integer square root: the largest `q` with `q·q ≤ n`.
pub fn isqrt(n: u128) -> (q: u128)
    requires
        n < 0x1000_0000_0000_0000_0000_0000_0000_0000,
    ensures
        q * q <= n < (q + 1) * (q + 1),
{
    let mut lo: u128 = 0;
    let mut hi: u128 = 0x4000_0000_0000_0000;
    assert(n < hi * hi);
    while lo + 1 < hi
        invariant
            lo < hi <= 0x4000_0000_0000_0000,
            lo * lo <= n < hi * hi,
        decreases hi - lo,
    {
        let mid = lo + (hi - lo) / 2;
        assert(mid * mid <= 0x4000_0000_0000_0000 * 0x4000_0000_0000_0000) by (nonlinear_arith)
            requires mid < 0x4000_0000_0000_0000;
        if mid * mid <= n {
            lo = mid;
        } else {
            hi = mid;
        }
    }
    lo
}

/// `⌊t·√3⌋`: the largest integer `f` with `f ≤ t·√3`.
pub fn floor_times_root3(t: i128) -> (f: i128)
    requires
        -0x2000_0000_0000_0000 <= t <= 0x2000_0000_0000_0000,
    ensures
        forall|u: int| #[trigger] below_root3(t as int, u) <==> u <= f,
        -0x4000_0000_0000_0000 <= f <= 0x4000_0000_0000_0000,
{
    let a: u128 = if t >= 0 { t as u128 } else { (-t) as u128 };
    assert(a * a <= 0x2000_0000_0000_0000 * 0x2000_0000_0000_0000) by (nonlinear_arith)
        requires a <= 0x2000_0000_0000_0000;
    assert(a * a == t * t) by (nonlinear_arith)
        requires a == t || a == -t;
    let n = 3 * (a * a);
    assert(3 * t * t == n) by (nonlinear_arith)
        requires n == 3 * (a * a), a * a == t * t;
    let q = isqrt(n);
    assert(q <= 0x4000_0000_0000_0000) by (nonlinear_arith)
        requires q * q <= n, n < 0x1000_0000_0000_0000_0000_0000_0000_0000;
    if t >= 0 {
        assert forall|u: int| #[trigger] below_root3(t as int, u) <==> u <= q by {
            if u > q {
                assert(u * u >= (q + 1) * (q + 1)) by (nonlinear_arith)
                    requires u >= q + 1, q >= 0;
            } else if u > 0 {
                assert(u * u <= q * q) by (nonlinear_arith)
                    requires 0 < u <= q;
            }
        }
        q as i128
    } else {
        let c: u128 = if q * q == n { q } else { q + 1 };
        assert(c * c >= n) by (nonlinear_arith)
            requires q * q <= n < (q + 1) * (q + 1), c == q || c == q + 1, c == q ==> q * q == n;
        assert(n >= 3) by (nonlinear_arith)
            requires n == 3 * (a * a), a >= 1;
        assert(c >= 1) by (nonlinear_arith)
            requires c * c >= n, n >= 3;
        assert((c - 1) * (c - 1) < n) by (nonlinear_arith)
            requires q * q <= n < (q + 1) * (q + 1), c == q || c == q + 1, c == q + 1 ==> q * q != n, c >= 1;
        assert forall|u: int| #[trigger] below_root3(t as int, u) <==> u <= -c by {
            if u <= -c {
                assert(u * u >= c * c) by (nonlinear_arith)
                    requires u <= -c, c >= 1;
            } else if u < 0 {
                assert(u * u <= (c - 1) * (c - 1)) by (nonlinear_arith)
                    requires -c < u < 0;
            }
        }
        -(c as i128)
    }
}

/// `v·10^DIGITS` rounded to the nearest integer, halves upwards.
pub fn round_scaled(v: Surd) -> (q: i64)
    requires
        bounded(v),
    ensures
        is_rounded(v, q as int),
        q == rounded(v),
        -0x2000_0000_0000_0000 <= q <= 0x2000_0000_0000_0000,
{
    assert(-0x2000_0000_0000_0000 <= 2 * v.s * SCALE <= 0x2000_0000_0000_0000) by (nonlinear_arith)
        requires -LIMIT <= v.s <= LIMIT;
    assert(-0x2000_0000_0000_0000 <= 2 * v.r * SCALE <= 0x2000_0000_0000_0000) by (nonlinear_arith)
        requires -LIMIT <= v.r <= LIMIT;
    let t = 2 * (v.s as i128) * (SCALE as i128);
    let c = 2 * (v.r as i128) * (SCALE as i128);
    let f = floor_times_root3(t);
    let m = c + 3 + f;
    let q = if m >= 0 { m / 6 } else { -((-m + 5) / 6) };
    assert(6 * q <= m < 6 * q + 6);
    assert(-0x2000_0000_0000_0000 <= q <= 0x2000_0000_0000_0000);
    assert(below_root3(t as int, 6 * q - 3 - c));
    assert(!below_root3(t as int, 6 * q + 3 - c));
    proof {
        assert(is_rounded(v, q as int));
        lemma_rounded_unique(v, q as int, rounded(v));
    }
    q as i64
}

} // verus!
