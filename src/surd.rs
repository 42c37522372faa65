use vstd::prelude::*;

verus! {

/// Largest magnitude of a component that the arithmetic here admits.
pub const LIMIT: i64 = 0x100_0000_0000;

/// The exact number `(r + s·√3) / 3`.
///
/// Since √3 is irrational, two values are equal exactly when their
/// components are, so `==` on the fields is equality of the numbers.
#[derive(Clone, Copy, Debug, PartialEq, Eq, Structural)]
pub struct Surd {
    pub r: i64,
    pub s: i64,
}

/// Both components within `LIMIT`.
pub open spec fn bounded(a: Surd) -> bool {
    -LIMIT <= a.r <= LIMIT && -LIMIT <= a.s <= LIMIT
}

/// The integer `k`, as a surd.
pub open spec fn from_int(k: int) -> Surd {
    Surd { r: (3 * k) as i64, s: 0 }
}

/// The interpolation `a + (b - a)·n/d` of one component.
pub open spec fn interp(a: int, b: int, n: int, d: int) -> int {
    a + (b - a) * n / d
}

/// The surd `a + (b - a)·n/d`.
pub open spec fn lerp_spec(a: Surd, b: Surd, n: int, d: int) -> Surd {
    Surd { r: interp(a.r as int, b.r as int, n, d) as i64, s: interp(a.s as int, b.s as int, n, d) as i64 }
}

/// `(b - a)·n` is a multiple of `d` in both components, so that
/// interpolating by `n/d` lands on a surd again.
pub open spec fn divides_step(a: Surd, b: Surd, n: int, d: int) -> bool {
    (b.r - a.r) * n % d == 0 && (b.s - a.s) * n % d == 0
}

proof fn lemma_interp_bounds(a: int, b: int, n: int, d: int)
    requires
        -LIMIT <= a <= LIMIT,
        -LIMIT <= b <= LIMIT,
        0 < d,
        0 <= n <= d,
    ensures
        -LIMIT <= interp(a, b, n, d) <= LIMIT,
{
    let p = (b - a) * n;
    if b >= a {
        assert(0 <= p <= (b - a) * d) by (nonlinear_arith)
            requires p == (b - a) * n, b >= a, 0 <= n <= d;
        assert(0 <= p / d <= b - a) by (nonlinear_arith)
            requires 0 <= p <= (b - a) * d, 0 < d, b >= a;
    } else {
        assert((b - a) * d <= p <= 0) by (nonlinear_arith)
            requires p == (b - a) * n, b < a, 0 <= n <= d;
        assert(b - a <= p / d <= 0) by (nonlinear_arith)
            requires (b - a) * d <= p <= 0, 0 < d, b < a;
    }
}

proof fn lemma_step_fits(x: int, n: int)
    requires
        -2 * LIMIT <= x <= 2 * LIMIT,
        0 <= n <= 0x10_0000,
    ensures
        -0x2000_0000_0000_0000 <= x * n <= 0x2000_0000_0000_0000,
{
    assert(-2 * LIMIT * 0x10_0000 <= x * n <= 2 * LIMIT * 0x10_0000) by (nonlinear_arith)
        requires -2 * LIMIT <= x <= 2 * LIMIT, 0 <= n <= 0x10_0000;
}

/// `p / d` where `d` divides `p`.
fn exact_div(p: i64, d: i64) -> (q: i64)
    requires
        0 < d,
        p > i64::MIN,
        p % d == 0,
    ensures
        q == p / d,
        p == d * q,
{
    proof {
        vstd::arithmetic::div_mod::lemma_fundamental_div_mod(p as int, d as int);
    }
    if p >= 0 {
        p / d
    } else {
        let m = -p;
        let q = m / d;
        proof {
            vstd::arithmetic::div_mod::lemma_fundamental_div_mod(m as int, d as int);
            let k = p / d;
            assert(m == d * (-k)) by (nonlinear_arith)
                requires p == d * k + 0, m == -p;
            vstd::arithmetic::div_mod::lemma_div_multiples_vanish(-(p / d), d as int);
            assert(q == -(p / d));
        }
        -q
    }
}

impl Surd {
    /// The integer `k`.
    pub fn from_i64(k: i64) -> (v: Surd)
        requires
            -LIMIT <= k <= LIMIT,
        ensures
            v == from_int(k as int),
    {
        Surd { r: 3 * k, s: 0 }
    }

    /// The point `self + (b - self)·n/d` on the segment towards `b`.
    pub fn lerp(self, b: Surd, n: i64, d: i64) -> (v: Surd)
        requires
            bounded(self),
            bounded(b),
            0 < d <= 0x10_0000,
            0 <= n <= d,
            divides_step(self, b, n as int, d as int),
        ensures
            v == lerp_spec(self, b, n as int, d as int),
            bounded(v),
    {
        proof {
            lemma_interp_bounds(self.r as int, b.r as int, n as int, d as int);
            lemma_interp_bounds(self.s as int, b.s as int, n as int, d as int);
            lemma_step_fits(b.r - self.r, n as int);
            lemma_step_fits(b.s - self.s, n as int);
        }
        let dr = exact_div((b.r - self.r) * n, d);
        let ds = exact_div((b.s - self.s) * n, d);
        Surd { r: self.r + dr, s: self.s + ds }
    }
}

} // verus!
