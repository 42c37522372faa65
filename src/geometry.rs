use vstd::prelude::*;
use crate::surd::{Surd, bounded, divides_step, from_int, lerp_spec};

verus! {

/// Distance between opposite flat sides of a hexagon.
pub const HEX_WIDTH: i64 = 200;

/// Width of the gap between the flat sides of neighbouring hexagons.
pub const INNER_SPACE: i64 = 20;

/// Distance between the centres of neighbouring hexagons.
pub const SPACING: i64 = HEX_WIDTH + INNER_SPACE;

/// A point of the plane with exact coordinates.
#[derive(Clone, Copy, Debug, PartialEq, Eq, Structural)]
pub struct Point {
    pub x: Surd,
    pub y: Surd,
}

/// One drawing command of an outline.
#[derive(Clone, Copy, Debug, PartialEq, Eq, Structural)]
pub enum PathCommand {
    MoveTo(Point),
    LineTo(Point),
    ArcTo { rx: Surd, ry: Surd, x_rotation: Surd, large_arc: bool, sweep: bool, end: Point },
    Close,
}

pub open spec fn point(xr: int, xs: int, yr: int, ys: int) -> Point {
    Point { x: Surd { r: xr as i64, s: xs as i64 }, y: Surd { r: yr as i64, s: ys as i64 } }
}

pub open spec fn point_bounded(p: Point) -> bool {
    bounded(p.x) && bounded(p.y)
}

/// Every coordinate of the command within the surd bounds.
pub open spec fn command_bounded(c: PathCommand) -> bool {
    match c {
        PathCommand::MoveTo(p) => point_bounded(p),
        PathCommand::LineTo(p) => point_bounded(p),
        PathCommand::ArcTo { rx, ry, x_rotation, end, .. } => bounded(rx) && bounded(ry) && bounded(x_rotation) && point_bounded(end),
        PathCommand::Close => true,
    }
}

/// The point `a + (b - a)·n/d`.
pub open spec fn lerp_point(a: Point, b: Point, n: int, d: int) -> Point {
    Point { x: lerp_spec(a.x, b.x, n, d), y: lerp_spec(a.y, b.y, n, d) }
}

/// The centre-to-vertex radius `HEX_WIDTH / √3`, that is `200·√3 / 3`.
pub open spec fn radius_spec() -> Surd {
    Surd { r: 0, s: HEX_WIDTH }
}

/// Nine times the squared distance between `p` and `q`, for points whose
/// x-coordinate is rational and whose y-coordinate is a rational multiple of
/// √3, as every lattice offset is.
pub open spec fn sq_dist9(p: Point, q: Point) -> int {
    let dx = p.x.r - q.x.r;
    let dy = p.y.s - q.y.s;
    dx * dx + 3 * dy * dy
}

/// Nine times the squared distance of `p` from the origin, for a point of
/// the same form as in `sq_dist9`.
pub open spec fn sq_norm9(p: Point) -> int {
    p.x.r * p.x.r + 3 * p.y.s * p.y.s
}

/// Vertex `k` of the hexagon of radius `radius_spec()` centred on the origin:
/// the radius times `(cos θ, sin θ)` with `θ = k·π/3 + π/6`.  With that offset
/// two sides are parallel to the y-axis.  Indices repeat with period six.
pub open spec fn vertex(k: int) -> Point {
    let m = k % 6;
    if m == 0 {
        point(300, 0, 0, 100)
    } else if m == 1 {
        point(0, 0, 0, 200)
    } else if m == 2 {
        point(-300, 0, 0, 100)
    } else if m == 3 {
        point(-300, 0, 0, -100)
    } else if m == 4 {
        point(0, 0, 0, -200)
    } else {
        point(300, 0, 0, -100)
    }
}

/// Where side `k` starts after the corner inset: the relative corner inset of the way
/// from vertex `k` to vertex `k + 1`.  The relative inset is
/// `INNER_SPACE·tan 30° / radius`, which is exactly `INNER_SPACE / HEX_WIDTH`.
pub open spec fn side_start(k: int) -> Point {
    lerp_point(vertex(k), vertex(k + 1), INNER_SPACE as int, HEX_WIDTH as int)
}

/// Where side `k` ends before the corner inset of vertex `k + 1`.
pub open spec fn side_end(k: int) -> Point {
    lerp_point(vertex(k), vertex(k + 1), (HEX_WIDTH - INNER_SPACE) as int, HEX_WIDTH as int)
}

/// The rounding arc that ends at `end`: radius `INNER_SPACE`, no rotation,
/// the short arc, swept in the positive direction.
pub open spec fn corner_arc(end: Point) -> PathCommand {
    PathCommand::ArcTo {
        rx: from_int(INNER_SPACE as int),
        ry: from_int(INNER_SPACE as int),
        x_rotation: from_int(0),
        large_arc: false,
        sweep: true,
        end,
    }
}

/// Command `i` of the rounded hexagon outline: a move to the start of side 0,
/// then for each vertex `k` in `1..=6` a line to the end of side `k - 1` and an
/// arc to the start of side `k`, and a close.
pub open spec fn hex_command(i: int) -> PathCommand {
    if i == 0 {
        PathCommand::MoveTo(side_start(0))
    } else if i == 13 {
        PathCommand::Close
    } else if i % 2 == 1 {
        PathCommand::LineTo(side_end((i + 1) / 2 - 1))
    } else {
        corner_arc(side_start(i / 2))
    }
}

/// The rounded hexagon outline, fourteen commands.
pub open spec fn hex_commands() -> Seq<PathCommand> {
    Seq::new(14, |i: int| hex_command(i))
}

proof fn lemma_side(k: int)
    requires
        0 <= k,
    ensures
        point_bounded(vertex(k)),
        point_bounded(vertex(k + 1)),
        divides_step(vertex(k).x, vertex(k + 1).x, INNER_SPACE as int, HEX_WIDTH as int),
        divides_step(vertex(k).y, vertex(k + 1).y, INNER_SPACE as int, HEX_WIDTH as int),
        divides_step(vertex(k).x, vertex(k + 1).x, (HEX_WIDTH - INNER_SPACE) as int, HEX_WIDTH as int),
        divides_step(vertex(k).y, vertex(k + 1).y, (HEX_WIDTH - INNER_SPACE) as int, HEX_WIDTH as int),
{
    let m = k % 6;
    assert((k + 1) % 6 == if m == 5 { 0 } else { m + 1 });
}

/// Vertex `k` of the hexagon.
pub fn vertex_at(k: usize) -> (p: Point)
    ensures
        p == vertex(k as int),
{
    let m = k % 6;
    if m == 0 {
        Point { x: Surd { r: 300, s: 0 }, y: Surd { r: 0, s: 100 } }
    } else if m == 1 {
        Point { x: Surd { r: 0, s: 0 }, y: Surd { r: 0, s: 200 } }
    } else if m == 2 {
        Point { x: Surd { r: -300, s: 0 }, y: Surd { r: 0, s: 100 } }
    } else if m == 3 {
        Point { x: Surd { r: -300, s: 0 }, y: Surd { r: 0, s: -100 } }
    } else if m == 4 {
        Point { x: Surd { r: 0, s: 0 }, y: Surd { r: 0, s: -200 } }
    } else {
        Point { x: Surd { r: 300, s: 0 }, y: Surd { r: 0, s: -100 } }
    }
}

/// The twelve vertices `0..12`: the ring of six twice, so that side `k` runs
/// from entry `k` to entry `k + 1` without wrapping around.
pub fn hex_points_array() -> (v: Vec<Point>)
    ensures
        v@.len() == 12,
        forall|k: int| 0 <= k < 12 ==> #[trigger] v@[k] == vertex(k),
{
    let mut v: Vec<Point> = Vec::new();
    for k in 0..12
        invariant
            v@.len() == k,
            forall|j: int| 0 <= j < k ==> #[trigger] v@[j] == vertex(j),
    {
        v.push(vertex_at(k));
    }
    v
}

/// The point `n/d` of the way from `a` to `b`.
pub fn lerp(a: Point, b: Point, n: i64, d: i64) -> (p: Point)
    requires
        point_bounded(a),
        point_bounded(b),
        0 < d <= 0x10_0000,
        0 <= n <= d,
        divides_step(a.x, b.x, n as int, d as int),
        divides_step(a.y, b.y, n as int, d as int),
    ensures
        p == lerp_point(a, b, n as int, d as int),
        point_bounded(p),
{
    Point { x: a.x.lerp(b.x, n, d), y: a.y.lerp(b.y, n, d) }
}

/// The outline of a hexagon centred on the origin whose flat sides, parallel
/// to the y-axis, are `HEX_WIDTH` apart, with each corner cut back and rounded
/// by an arc of radius `INNER_SPACE`.
pub fn hex_data() -> (data: Vec<PathCommand>)
    ensures
        data@ == hex_commands(),
        forall|k: int| 0 <= k < data@.len() ==> command_bounded(#[trigger] data@[k]),
{
    let pts = hex_points_array();
    let mut data: Vec<PathCommand> = Vec::new();
    proof {
        lemma_side(0);
    }
    data.push(PathCommand::MoveTo(lerp(pts[0], pts[1], INNER_SPACE, HEX_WIDTH)));
    for i in 1usize..7
        invariant
            pts@.len() == 12,
            forall|k: int| 0 <= k < 12 ==> #[trigger] pts@[k] == vertex(k),
            data@.len() == 2 * i - 1 as int,
            forall|j: int| 0 <= j < 2 * i - 1 as int ==> #[trigger] data@[j] == hex_command(j),
            forall|j: int| 0 <= j < 2 * i - 1 as int ==> command_bounded(#[trigger] data@[j]),
    {
        proof {
            lemma_side(i - 1);
            lemma_side(i as int);
        }
        let c1 = lerp(pts[i - 1], pts[i], HEX_WIDTH - INNER_SPACE, HEX_WIDTH);
        data.push(PathCommand::LineTo(c1));
        let c2 = lerp(pts[i], pts[i + 1], INNER_SPACE, HEX_WIDTH);
        let radius = Surd::from_i64(INNER_SPACE);
        data.push(PathCommand::ArcTo {
            rx: radius,
            ry: radius,
            x_rotation: Surd::from_i64(0),
            large_arc: false,
            sweep: true,
            end: c2,
        });
        assert(data@[2 * i - 1 as int] == hex_command(2 * i - 1 as int));
        assert(data@[2 * i as int] == hex_command(2 * i as int));
    }
    data.push(PathCommand::Close);
    assert(data@ =~= hex_commands());
    data
}

/// The radius `HEX_WIDTH / √3`, from the centre to a vertex.
pub fn hex_radius() -> (r: Surd)
    ensures
        r == radius_spec(),
        r.r == 0 && r.s > 0 && r.s * r.s == HEX_WIDTH * HEX_WIDTH,
{
    Surd { r: 0, s: HEX_WIDTH }
}

/// The corner inset `INNER_SPACE·tan 30° = INNER_SPACE / √3`, the distance
/// from a vertex to where the rounding arc meets a side.  Its ratio to the
/// radius is `INNER_SPACE / HEX_WIDTH`, the relative inset that the outline
/// interpolates by.
pub fn corner_inset() -> (c: Surd)
    ensures
        c.r == 0 && c.s > 0 && c.s * c.s == INNER_SPACE * INNER_SPACE,
        c.s * HEX_WIDTH == radius_spec().s * INNER_SPACE,
{
    Surd { r: 0, s: INNER_SPACE }
}

/// Every vertex lies on the circle of radius `HEX_WIDTH / √3` about the
/// origin, and neighbouring vertices are one radius apart, so the six form a
/// regular hexagon; vertex 0 lies at 30° above the x-axis.
pub proof fn lemma_regular_hexagon(k: int)
    requires
        0 <= k,
    ensures
        vertex(k).x.s == 0 && vertex(k).y.r == 0,
        sq_norm9(vertex(k)) == 3 * HEX_WIDTH * HEX_WIDTH,
        sq_dist9(vertex(k), vertex(k + 1)) == 3 * HEX_WIDTH * HEX_WIDTH,
        vertex(0).x.r > 0 && vertex(0).x.r == 3 * vertex(0).y.s,
{
    let m = k % 6;
    assert((k + 1) % 6 == if m == 5 { 0 } else { m + 1 });
    let v = vertex(k);
    let w = vertex(k + 1);
    if m == 0 {
        lemma_hex_corner(v, w, 300, 100, 0, 200);
    } else if m == 1 {
        lemma_hex_corner(v, w, 0, 200, -300, 100);
    } else if m == 2 {
        lemma_hex_corner(v, w, -300, 100, -300, -100);
    } else if m == 3 {
        lemma_hex_corner(v, w, -300, -100, 0, -200);
    } else if m == 4 {
        lemma_hex_corner(v, w, 0, -200, 300, -100);
    } else {
        lemma_hex_corner(v, w, 300, -100, 300, 100);
    }
}

proof fn lemma_hex_corner(v: Point, w: Point, vx: int, vy: int, wx: int, wy: int)
    requires
        v == point(vx, 0, 0, vy),
        w == point(wx, 0, 0, wy),
        -1000 <= vx <= 1000 && -1000 <= vy <= 1000 && -1000 <= wx <= 1000 && -1000 <= wy <= 1000,
        vx * vx + 3 * vy * vy == 3 * HEX_WIDTH * HEX_WIDTH,
        (vx - wx) * (vx - wx) + 3 * (vy - wy) * (vy - wy) == 3 * HEX_WIDTH * HEX_WIDTH,
    ensures
        sq_norm9(v) == 3 * HEX_WIDTH * HEX_WIDTH,
        sq_dist9(v, w) == 3 * HEX_WIDTH * HEX_WIDTH,
        v.x.s == 0 && v.y.r == 0,
{
    assert(v.x.r == vx && v.y.s == vy && w.x.r == wx && w.y.s == wy);
}

/// The outline starts with a move, ends with a close, and has six lines and
/// six arcs in between, alternating.
pub proof fn lemma_closed_outline()
    ensures
        hex_commands().len() == 14,
        hex_commands()[0] is MoveTo,
        hex_commands()[13] is Close,
        forall|k: int| 1 <= k <= 6 ==> #[trigger] hex_commands()[2 * k - 1] is LineTo && hex_commands()[2 * k] is ArcTo,
{
    assert forall|k: int| 1 <= k <= 6 implies #[trigger] hex_commands()[2 * k - 1] is LineTo && hex_commands()[2 * k] is ArcTo by {
        assert((2 * k - 1) % 2 == 1);
        assert((2 * k) % 2 == 0);
    }
}

/// The outline closes without a seam: the last arc ends exactly where the
/// initial move went.
pub proof fn lemma_seam()
    ensures
        hex_commands()[0] == PathCommand::MoveTo(hex_commands()[12]->end),
{
    assert(12int % 6 == 0);
    assert(13int % 6 == 1);
}

/// Every arc has radius `INNER_SPACE` on both axes, is the short arc and is
/// swept in the positive direction.
pub proof fn lemma_arc_radii(i: int)
    requires
        0 <= i < 14,
        hex_commands()[i] is ArcTo,
    ensures
        hex_commands()[i]->rx == from_int(INNER_SPACE as int),
        hex_commands()[i]->ry == from_int(INNER_SPACE as int),
        hex_commands()[i]->large_arc == false,
        hex_commands()[i]->sweep == true,
{
}

} // verus!
