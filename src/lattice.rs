use vstd::prelude::*;
use crate::surd::{Surd, bounded};
use crate::geometry::{point, sq_dist9, Point, SPACING};

verus! {

/// Largest magnitude of a lattice coordinate.
pub const COORD_LIMIT: i64 = 0x4000_0000;

pub open spec fn coord_ok(k: int) -> bool {
    -COORD_LIMIT <= k <= COORD_LIMIT
}

/// The centre offset of lattice cell `(i, j)`:
/// `((i + j/2)·SPACING, j·SPACING·√3/2)`.  The `j` axis leans 60° from the
/// `i` axis, and neighbouring cells are `SPACING` apart.
pub open spec fn hex_offset(i: int, j: int) -> Point {
    point(3 * (2 * i + j) * SPACING / 2, 0, 0, 3 * j * SPACING / 2)
}

/// The offset of `p` from `q`, component by component.
pub open spec fn displacement(p: Point, q: Point) -> Point {
    point(p.x.r - q.x.r, p.x.s - q.x.s, p.y.r - q.y.r, p.y.s - q.y.s)
}

/// The centre offset of lattice cell `(i, j)`.
pub fn hex_translate(i: i64, j: i64) -> (p: Point)
    requires
        coord_ok(i as int),
        coord_ok(j as int),
    ensures
        p == hex_offset(i as int, j as int),
        p.x.s == 0 && p.y.r == 0,
        bounded(p.x) && bounded(p.y),
{
    let x = 3 * (2 * i + j) * SPACING / 2;
    let y = 3 * j * SPACING / 2;
    Point { x: Surd { r: x, s: 0 }, y: Surd { r: 0, s: y } }
}

/// One step along `i` moves by `(SPACING, 0)`; one step along `j` moves by
/// `(SPACING/2, SPACING·√3/2)`.
pub proof fn lemma_lattice_spacing(i: int, j: int)
    requires
        coord_ok(i),
        coord_ok(j),
    ensures
        displacement(hex_offset(i + 1, j), hex_offset(i, j)) == point(3 * SPACING, 0, 0, 0),
        displacement(hex_offset(i, j + 1), hex_offset(i, j)) == point(3 * SPACING / 2, 0, 0, 3 * SPACING / 2),
{
}

proof fn lemma_hex_norm(a: int, b: int)
    requires
        a != 0 || b != 0,
    ensures
        (2 * a + b) * (2 * a + b) + 3 * b * b >= 4,
{
    assert(3 * b * b == 3 * (b * b)) by (nonlinear_arith);
    if b == 0 {
        assert(a * a >= 1) by (nonlinear_arith)
            requires a != 0;
        assert((2 * a + b) * (2 * a + b) == 4 * (a * a)) by (nonlinear_arith)
            requires b == 0;
    } else if b == 1 || b == -1 {
        assert((2 * a + b) != 0);
        assert((2 * a + b) * (2 * a + b) >= 1) by (nonlinear_arith)
            requires (2 * a + b) != 0;
        assert(b * b == 1) by (nonlinear_arith)
            requires b == 1 || b == -1;
    } else {
        assert(b * b >= 4) by (nonlinear_arith)
            requires b != 0, b != 1, b != -1;
        assert((2 * a + b) * (2 * a + b) >= 0) by (nonlinear_arith);
    }
}

/// Distinct lattice cells have centres at least `SPACING` apart.
pub proof fn lemma_non_overlap(i1: int, j1: int, i2: int, j2: int)
    requires
        coord_ok(i1),
        coord_ok(j1),
        coord_ok(i2),
        coord_ok(j2),
        i1 != i2 || j1 != j2,
    ensures
        sq_dist9(hex_offset(i1, j1), hex_offset(i2, j2)) >= 9 * SPACING * SPACING,
{
    let a = i1 - i2;
    let b = j1 - j2;
    lemma_hex_norm(a, b);
    let n = (2 * a + b) * (2 * a + b) + 3 * b * b;
    let p = hex_offset(i1, j1);
    let q = hex_offset(i2, j2);
    assert(p.x.r - q.x.r == 330 * (2 * a + b));
    assert(p.y.s - q.y.s == 330 * b);
    assert(sq_dist9(p, q) == 108900 * n) by (nonlinear_arith)
        requires
            p.x.r - q.x.r == 330 * (2 * a + b),
            p.y.s - q.y.s == 330 * b,
            n == (2 * a + b) * (2 * a + b) + 3 * b * b,
            sq_dist9(p, q) == (p.x.r - q.x.r) * (p.x.r - q.x.r) + 3 * (p.y.s - q.y.s) * (p.y.s - q.y.s);
}

} // verus!
