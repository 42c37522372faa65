use vstd::prelude::*;
use svg::node::element::{Group, Path};
use svg::Document;
use crate::surd::{Surd, bounded, from_int};
use crate::element::{
    document_add, document_set, document_view, group_add_group, group_add_path, group_set, group_view, new_document,
    new_group, new_path, path_set, path_view, ElementView,
};
use crate::geometry::{hex_commands, hex_data};
use crate::lattice::{hex_offset, hex_translate};
use crate::render::{mirror, mirror_text, path_data, path_text, translate, translate_text, view_box, view_box_text};
use crate::scene::{
    cell_pair, lemma_default_count, lemma_trapezoid, scene_ok, trapezoid, trapezoid_cells, ORIGIN_X, ORIGIN_Y, VIEW_HEIGHT,
    VIEW_WIDTH, TOP_WIDTH, HEIGHT,
};

verus! {

/// Stroke colour of every outline.
pub const STROKE: &'static str = "black";

/// Stroke width of every outline.
pub const STROKE_WIDTH: &'static str = "3";

/// Fill of every outline.
pub const FILL: &'static str = "none";

/// The view of an element named `name` with the given attributes and children.
pub open spec fn element(name: Seq<char>, attributes: Map<Seq<char>, Seq<char>>, children: Seq<ElementView>) -> ElementView {
    ElementView { name, attributes, children }
}

/// `a` with attribute `key` set to `value`, its name and children kept.
pub open spec fn with_attribute(a: ElementView, key: Seq<char>, value: Seq<char>) -> ElementView {
    element(a.name, a.attributes.insert(key, value), a.children)
}

/// `a` with `child` appended to its children, its name and attributes kept.
pub open spec fn with_child(a: ElementView, child: ElementView) -> ElementView {
    element(a.name, a.attributes, a.children.push(child))
}

/// A `path` element with exactly the attributes `d` = `data`, a black stroke
/// of width three and no fill, and no children.
pub open spec fn outline_view(data: Seq<char>) -> ElementView {
    element(
        "path"@,
        Map::empty().insert("d"@, data).insert("stroke"@, STROKE@).insert("stroke-width"@, STROKE_WIDTH@).insert(
            "fill"@,
            FILL@,
        ),
        Seq::empty(),
    )
}

/// A `g` element with exactly one attribute, `transform`, and the given
/// children.
pub open spec fn transformed_group(transform: Seq<char>, children: Seq<ElementView>) -> ElementView {
    element("g"@, Map::empty().insert("transform"@, transform), children)
}

/// The element of one cell: a group moved to the lattice origin, holding one
/// group moved to the cell's lattice offset, holding the cell's outline.
pub open spec fn cell_view(c: CellGroup) -> ElementView {
    transformed_group(
        translate_text(from_int(ORIGIN_X as int), from_int(ORIGIN_Y as int)),
        seq![transformed_group(c.lattice_transform@, seq![outline_view(c.outline_data@)])],
    )
}

/// The document of a drawing: an `svg` root with its namespace and view box,
/// holding one group that flips the y-axis, which holds one cell element per
/// cell in order.
pub open spec fn document_spec(d: Drawing) -> ElementView {
    element(
        "svg"@,
        Map::empty().insert("xmlns"@, "http://www.w3.org/2000/svg"@).insert("viewBox"@, d.view_box@),
        seq![transformed_group(d.mirror_transform@, d.cells@.map_values(|c: CellGroup| cell_view(c)))],
    )
}

/// One cell as drawn: its outline, in a group moved to the cell's lattice
/// offset.
pub struct CellGroup {
    pub lattice_transform: String,
    pub outline_data: String,
}

/// The whole drawing: a viewport, a root group that flips the y-axis, and
/// one group per cell.
pub struct Drawing {
    pub view_box: String,
    pub mirror_transform: String,
    pub cells: Vec<CellGroup>,
}

/// The transform that moves cell `c` to its place on the lattice.
pub open spec fn cell_transform(c: (int, int)) -> Seq<char> {
    translate_text(hex_offset(c.0, c.1).x, hex_offset(c.0, c.1).y)
}

/// Cell group `g` draws lattice cell `c`.
pub open spec fn draws(g: CellGroup, c: (int, int)) -> bool {
    &&& g.outline_data@ == path_text(hex_commands())
    &&& g.lattice_transform@ == cell_transform(c)
}

/// The drawing of a trapezoid of rounded hexagons `top_width` cells wide on
/// top and `height` rows deep, one cell group per cell in row order.
pub fn build_drawing(top_width: i64, height: i64) -> (d: Drawing)
    requires
        scene_ok(top_width as int, height as int),
    ensures
        d.view_box@ == view_box_text(VIEW_WIDTH as nat, VIEW_HEIGHT as nat),
        d.mirror_transform@ == mirror_text(VIEW_HEIGHT as nat),
        d.cells@.len() == trapezoid(top_width as int, height as int).len(),
        forall|k: int| 0 <= k < d.cells@.len() ==> draws(#[trigger] d.cells@[k], trapezoid(top_width as int, height as int)[k]),
{
    let placed = trapezoid_cells(top_width, height);
    let ghost t = trapezoid(top_width as int, height as int);
    proof {
        lemma_trapezoid(top_width as int, height as int);
    }
    let mut cells: Vec<CellGroup> = Vec::new();
    for k in 0..placed.len()
        invariant
            placed@.map_values(|c| cell_pair(c)) == t,
            t == trapezoid(top_width as int, height as int),
            scene_ok(top_width as int, height as int),
            forall|n: int| 0 <= n < t.len() ==> {
                let c = #[trigger] t[n];
                crate::lattice::coord_ok(c.0) && crate::lattice::coord_ok(c.1)
            },
            cells@.len() == k,
            forall|n: int| 0 <= n < k ==> draws(#[trigger] cells@[n], t[n]),
    {
        let cell = placed[k];
        assert(cell_pair(cell) == t[k as int]);
        let commands = hex_data();
        let offset = hex_translate(cell.i, cell.j);
        let group = CellGroup {
            lattice_transform: translate(offset.x, offset.y),
            outline_data: path_data(&commands),
        };
        cells.push(group);
    }
    Drawing {
        view_box: view_box(VIEW_WIDTH as u64, VIEW_HEIGHT as u64),
        mirror_transform: mirror(VIEW_HEIGHT as u64),
        cells,
    }
}

/// The drawing of the default design: five cells on top, three rows, twelve
/// cells in all.
pub fn default_drawing() -> (d: Drawing)
    ensures
        d.view_box@ == view_box_text(VIEW_WIDTH as nat, VIEW_HEIGHT as nat),
        d.mirror_transform@ == mirror_text(VIEW_HEIGHT as nat),
        d.cells@.len() == 12,
        forall|k: int| 0 <= k < d.cells@.len() ==> draws(#[trigger] d.cells@[k], trapezoid(TOP_WIDTH as int, HEIGHT as int)[k]),
{
    proof {
        lemma_default_count();
    }
    build_drawing(TOP_WIDTH, HEIGHT)
}

/// The document of a drawing nests four deep: the root holds one mirror
/// group, which holds one group per cell; each of those holds one group
/// moved to the cell's lattice offset, which holds one `path` element.
pub proof fn lemma_document_shape(d: Drawing)
    ensures
        document_spec(d).attributes["viewBox"@] == d.view_box@,
        document_spec(d).children.len() == 1,
        document_spec(d).children[0].attributes["transform"@] == d.mirror_transform@,
        document_spec(d).children[0].children.len() == d.cells@.len(),
        forall|k: int| 0 <= k < d.cells@.len() ==> {
            let cell = #[trigger] document_spec(d).children[0].children[k];
            &&& cell.children.len() == 1
            &&& cell.children[0].attributes["transform"@] == d.cells@[k].lattice_transform@
            &&& cell.children[0].children.len() == 1
            &&& cell.children[0].children[0] == outline_view(d.cells@[k].outline_data@)
            &&& cell.children[0].children[0].name == "path"@
        },
{
}

/// The outline of one cell: a `path` element with the given data, a black
/// stroke of width three, and no fill.
pub fn outline(data: &String) -> (p: Path)
    ensures
        path_view(p) == outline_view(data@),
{
    let p = new_path();
    let p = path_set(p, "d", data.as_str());
    let p = path_set(p, "stroke", STROKE);
    let p = path_set(p, "stroke-width", STROKE_WIDTH);
    let p = path_set(p, "fill", FILL);
    assert(path_view(p).attributes =~= outline_view(data@).attributes);
    assert(path_view(p).children =~= outline_view(data@).children);
    p
}

/// `g` with its `transform` set to `translate(x, y)`, replacing any earlier
/// transform; its other attributes and its children are kept.
pub fn translate_group(g: Group, x: Surd, y: Surd) -> (r: Group)
    requires
        bounded(x),
        bounded(y),
    ensures
        group_view(r) == with_attribute(group_view(g), "transform"@, translate_text(x, y)),
{
    let t = translate(x, y);
    group_set(g, "transform", &t)
}

/// A new group holding `child`, with `transform` set to `t`.
fn wrap(child: Group, t: &String) -> (r: Group)
    ensures
        group_view(r) == transformed_group(t@, seq![group_view(child)]),
{
    let g = group_add_group(new_group(), child);
    let g = group_set(g, "transform", t);
    assert(group_view(g).attributes =~= Map::empty().insert("transform"@, t@));
    assert(group_view(g).children =~= seq![group_view(child)]);
    g
}

/// The element of one cell.
fn cell_element(cell: &CellGroup) -> (r: Group)
    ensures
        group_view(r) == cell_view(*cell),
{
    let lattice = group_add_path(new_group(), outline(&cell.outline_data));
    let lattice = group_set(lattice, "transform", &cell.lattice_transform);
    assert(group_view(lattice).attributes =~= Map::empty().insert("transform"@, cell.lattice_transform@));
    assert(group_view(lattice).children =~= seq![outline_view(cell.outline_data@)]);
    let outer = group_add_group(new_group(), lattice);
    let outer = translate_group(outer, Surd::from_i64(ORIGIN_X), Surd::from_i64(ORIGIN_Y));
    assert(group_view(outer).attributes =~= Map::empty().insert(
        "transform"@,
        translate_text(from_int(ORIGIN_X as int), from_int(ORIGIN_Y as int)),
    ));
    assert(group_view(outer).children =~= cell_view(*cell).children);
    outer
}

/// The drawing as an svg document: the root carries the view box, its one
/// child group the mirror transform, and that group one nested pair of
/// groups per cell around the cell's outline.
pub fn to_document(d: &Drawing) -> (doc: Document)
    ensures
        document_view(doc) == document_spec(*d),
{
    let mut root = group_set(new_group(), "transform", &d.mirror_transform);
    let ghost start = group_view(root);
    assert(start.attributes =~= Map::empty().insert("transform"@, d.mirror_transform@));
    assert(d.cells@.take(0).map_values(|c: CellGroup| cell_view(c)) =~= start.children);
    assert(group_view(root) == element(start.name, start.attributes, d.cells@.take(0).map_values(|c: CellGroup| cell_view(c))));
    for k in 0..d.cells.len()
        invariant
            start.name == "g"@,
            start.attributes == Map::empty().insert("transform"@, d.mirror_transform@),
            group_view(root) == element(start.name, start.attributes, d.cells@.take(k as int).map_values(|c: CellGroup| cell_view(c))),
    {
        let cell = cell_element(&d.cells[k]);
        root = group_add_group(root, cell);
        assert(d.cells@.take(k + 1).map_values(|c: CellGroup| cell_view(c)) =~= d.cells@.take(k as int).map_values(|c: CellGroup| cell_view(c)).push(cell_view(d.cells@[k as int])));
    }
    assert(d.cells@.take(d.cells@.len() as int) =~= d.cells@);
    assert(group_view(root).children =~= d.cells@.map_values(|c: CellGroup| cell_view(c)));
    let doc = document_set(new_document(), "viewBox", &d.view_box);
    let doc = document_add(doc, root);
    assert(document_view(doc).attributes =~= document_spec(*d).attributes);
    assert(document_view(doc).children =~= document_spec(*d).children);
    doc
}

} // verus!
