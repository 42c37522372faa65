use vstd::prelude::*;
use crate::geometry::{point, Point, SPACING};
use crate::geometry::sq_dist9;
use crate::lattice::{coord_ok, hex_offset, lemma_non_overlap};

verus! {

/// Cells in the top row of the default design.
pub const TOP_WIDTH: i64 = 5;

/// Rows of the default design.
pub const HEIGHT: i64 = 3;

/// Width of the viewport.
pub const VIEW_WIDTH: i64 = 1400;

/// Height of the viewport.
pub const VIEW_HEIGHT: i64 = 800;

/// Horizontal position of the lattice origin in the viewport.
pub const ORIGIN_X: i64 = 200;

/// Vertical position of the lattice origin in the viewport, before the
/// y-axis is flipped.
pub const ORIGIN_Y: i64 = 600;

/// Largest top row that a scene may have.
pub const MAX_TOP_WIDTH: i64 = 0x1_0000;

/// A cell of the drawing, by its lattice coordinates.
#[derive(Clone, Copy, Debug, PartialEq, Eq, Structural)]
pub struct Cell {
    pub i: i64,
    pub j: i64,
}

/// Row `j` of the trapezoid: `top_width - j` cells, each row shifted half a
/// cell to the right of the one above it.
pub open spec fn row(top_width: int, j: int) -> Seq<(int, int)> {
    Seq::new((top_width - j) as nat, |i: int| (i + j, -j))
}

/// The cells of the first `rows` rows, top row first.
pub open spec fn trapezoid(top_width: int, rows: int) -> Seq<(int, int)>
    decreases rows,
{
    if rows <= 0 {
        Seq::empty()
    } else {
        trapezoid(top_width, rows - 1) + row(top_width, rows - 1)
    }
}

/// `Σ_{j < rows} (top_width - j)`.
pub open spec fn cell_count(top_width: int, rows: int) -> int
    decreases rows,
{
    if rows <= 0 {
        0
    } else {
        cell_count(top_width, rows - 1) + (top_width - (rows - 1))
    }
}

pub open spec fn cell_pair(c: Cell) -> (int, int) {
    (c.i as int, c.j as int)
}

/// The centre of cell `(i, j)` in the drawing's coordinates.
pub open spec fn cell_centre(c: (int, int)) -> Point {
    let o = hex_offset(c.0, c.1);
    point(o.x.r + 3 * ORIGIN_X, 0, 3 * ORIGIN_Y, o.y.s as int)
}

pub open spec fn scene_ok(top_width: int, height: int) -> bool {
    0 <= height <= top_width <= MAX_TOP_WIDTH
}

/// The trapezoid has `Σ (top_width - j)` cells, each of row `j` has second
/// coordinate `-j`, and no cell appears twice.
pub proof fn lemma_trapezoid(top_width: int, rows: int)
    requires
        scene_ok(top_width, rows),
    ensures
        trapezoid(top_width, rows).len() == cell_count(top_width, rows),
        forall|k: int| 0 <= k < trapezoid(top_width, rows).len() ==> {
            let c = #[trigger] trapezoid(top_width, rows)[k];
            -rows < c.1 <= 0 && -c.1 <= c.0 < top_width && coord_ok(c.0) && coord_ok(c.1)
        },
        forall|a: int, b: int|
            0 <= a < b < trapezoid(top_width, rows).len() ==> #[trigger] trapezoid(top_width, rows)[a] != #[trigger] trapezoid(top_width, rows)[b],
    decreases rows,
{
    if rows > 0 {
        lemma_trapezoid(top_width, rows - 1);
        let prev = trapezoid(top_width, rows - 1);
        let r = row(top_width, rows - 1);
        let t = trapezoid(top_width, rows);
        assert(t == prev + r);
        assert forall|k: int| 0 <= k < t.len() implies {
            let c = #[trigger] t[k];
            -rows < c.1 <= 0 && -c.1 <= c.0 < top_width && coord_ok(c.0) && coord_ok(c.1)
        } by {
            if k >= prev.len() {
                assert(t[k] == r[k - prev.len()]);
            } else {
                assert(t[k] == prev[k]);
            }
        }
        assert forall|a: int, b: int| 0 <= a < b < t.len() implies #[trigger] t[a] != #[trigger] t[b] by {
            if b < prev.len() {
                assert(t[a] == prev[a] && t[b] == prev[b]);
            } else if a < prev.len() {
                assert(t[a] == prev[a]);
                assert(t[b] == r[b - prev.len()]);
            } else {
                assert(t[a] == r[a - prev.len()]);
                assert(t[b] == r[b - prev.len()]);
            }
        }
    }
}

/// Distinct cells of a scene have centres at least `SPACING` apart.
pub proof fn lemma_cells_apart(top_width: int, height: int, a: int, b: int)
    requires
        scene_ok(top_width, height),
        0 <= a < trapezoid(top_width, height).len(),
        0 <= b < trapezoid(top_width, height).len(),
        a != b,
    ensures
        sq_dist9(cell_centre(trapezoid(top_width, height)[a]), cell_centre(trapezoid(top_width, height)[b]))
            >= 9 * SPACING * SPACING,
{
    lemma_trapezoid(top_width, height);
    let t = trapezoid(top_width, height);
    if a < b {
        assert(t[a] != t[b]);
    } else {
        assert(t[b] != t[a]);
    }
    lemma_non_overlap(t[a].0, t[a].1, t[b].0, t[b].1);
}

/// The default design, five cells on top and three rows, has twelve cells.
pub proof fn lemma_default_count()
    ensures
        trapezoid(TOP_WIDTH as int, HEIGHT as int).len() == 12,
{
    lemma_trapezoid(TOP_WIDTH as int, HEIGHT as int);
    reveal_with_fuel(cell_count, 4);
}

/// The cells of a trapezoid `top_width` cells wide on top and `height` rows
/// deep: row `j` holds the cells `(i + j, -j)` for `i` in `0..top_width - j`.
pub fn trapezoid_cells(top_width: i64, height: i64) -> (cells: Vec<Cell>)
    requires
        scene_ok(top_width as int, height as int),
    ensures
        cells@.map_values(|c: Cell| cell_pair(c)) == trapezoid(top_width as int, height as int),
        cells@.len() == cell_count(top_width as int, height as int),
{
    let mut cells: Vec<Cell> = Vec::new();
    let mut j: i64 = 0;
    while j < height
        invariant
            scene_ok(top_width as int, height as int),
            0 <= j <= height,
            cells@.map_values(|c: Cell| cell_pair(c)) == trapezoid(top_width as int, j as int),
        decreases height - j,
    {
        let mut i: i64 = 0;
        let ghost before = cells@.map_values(|c: Cell| cell_pair(c));
        while i < top_width - j
            invariant
                scene_ok(top_width as int, height as int),
                0 <= j < height,
                0 <= i <= top_width - j,
                before == trapezoid(top_width as int, j as int),
                cells@.map_values(|c: Cell| cell_pair(c)) == before + row(top_width as int, j as int).take(i as int),
            decreases top_width - j - i,
        {
            let ghost prior = cells@;
            cells.push(Cell { i: i + j, j: -j });
            assert(cells@.map_values(|c: Cell| cell_pair(c)) =~= prior.map_values(|c: Cell| cell_pair(c)).push((i + j, -j)));
            assert(row(top_width as int, j as int).take(i + 1) =~= row(top_width as int, j as int).take(i as int).push((i + j, -j)));
            assert(cells@.map_values(|c: Cell| cell_pair(c)) =~= before + row(top_width as int, j as int).take(i + 1));
            i = i + 1;
        }
        assert(row(top_width as int, j as int).take(i as int) =~= row(top_width as int, j as int));
        j = j + 1;
    }
    proof {
        lemma_trapezoid(top_width as int, height as int);
    }
    cells
}

} // verus!
