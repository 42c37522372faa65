use vstd::prelude::*;
use svg::node::element::{Group, Path};
use svg::Document;

verus! {

/// What an svg element holds: its tag name, its attributes by name, and its
/// children in order.
pub struct ElementView {
    pub name: Seq<char>,
    pub attributes: Map<Seq<char>, Seq<char>>,
    pub children: Seq<ElementView>,
}

/// What a `g` element holds.
pub uninterp spec fn group_view(g: Group) -> ElementView;

/// What a `path` element holds.
pub uninterp spec fn path_view(p: Path) -> ElementView;

/// What an `svg` root element holds.
pub uninterp spec fn document_view(d: Document) -> ElementView;

#[verifier::external_type_specification]
#[verifier::external_body]
pub struct ExGroup(Group);

#[verifier::external_type_specification]
#[verifier::external_body]
pub struct ExPath(Path);

#[verifier::external_type_specification]
#[verifier::external_body]
pub struct ExDocument(Document);

/// Relies on svg's `Group::new`: an element named `g` with no attributes and
/// no children.
#[verifier::external_body]
pub(crate) fn new_group() -> (g: Group)
    ensures
        group_view(g) == (ElementView { name: "g"@, attributes: Map::empty(), children: Seq::empty() }),
{
    Group::new()
}

/// Relies on svg's `Group::set`: inserts `value` under `name` into the
/// element's attribute map.
#[verifier::external_body]
pub(crate) fn group_set(g: Group, name: &str, value: &String) -> (r: Group)
    ensures
        group_view(r) == (ElementView {
            name: group_view(g).name,
            attributes: group_view(g).attributes.insert(name@, value@),
            children: group_view(g).children,
        }),
{
    g.set(name, value.clone())
}

/// Relies on svg's `Group::add`: pushes the path onto the element's children.
#[verifier::external_body]
pub(crate) fn group_add_path(g: Group, p: Path) -> (r: Group)
    ensures
        group_view(r) == (ElementView {
            name: group_view(g).name,
            attributes: group_view(g).attributes,
            children: group_view(g).children.push(path_view(p)),
        }),
{
    g.add(p)
}

/// Relies on svg's `Group::add`: pushes the group onto the element's children.
#[verifier::external_body]
pub(crate) fn group_add_group(g: Group, child: Group) -> (r: Group)
    ensures
        group_view(r) == (ElementView {
            name: group_view(g).name,
            attributes: group_view(g).attributes,
            children: group_view(g).children.push(group_view(child)),
        }),
{
    g.add(child)
}

/// Relies on svg's `Path::new`: an element named `path` with no attributes
/// and no children.
#[verifier::external_body]
pub(crate) fn new_path() -> (p: Path)
    ensures
        path_view(p) == (ElementView { name: "path"@, attributes: Map::empty(), children: Seq::empty() }),
{
    Path::new()
}

/// Relies on svg's `Path::set`: inserts `value` under `name` into the
/// element's attribute map.
#[verifier::external_body]
pub(crate) fn path_set(p: Path, name: &str, value: &str) -> (r: Path)
    ensures
        path_view(r) == (ElementView {
            name: path_view(p).name,
            attributes: path_view(p).attributes.insert(name@, value@),
            children: path_view(p).children,
        }),
{
    p.set(name, value)
}

/// Relies on svg's `SVG::new`: an element named `svg` whose one attribute is
/// the svg namespace, with no children.
#[verifier::external_body]
pub(crate) fn new_document() -> (d: Document)
    ensures
        document_view(d) == (ElementView {
            name: "svg"@,
            attributes: Map::empty().insert("xmlns"@, "http://www.w3.org/2000/svg"@),
            children: Seq::empty(),
        }),
{
    Document::new()
}

/// Relies on svg's `SVG::set`: inserts `value` under `name` into the root's
/// attribute map.
#[verifier::external_body]
pub(crate) fn document_set(d: Document, name: &str, value: &String) -> (r: Document)
    ensures
        document_view(r) == (ElementView {
            name: document_view(d).name,
            attributes: document_view(d).attributes.insert(name@, value@),
            children: document_view(d).children,
        }),
{
    d.set(name, value.clone())
}

/// Relies on svg's `SVG::add`: pushes the group onto the root's children.
#[verifier::external_body]
pub(crate) fn document_add(d: Document, g: Group) -> (r: Document)
    ensures
        document_view(r) == (ElementView {
            name: document_view(d).name,
            attributes: document_view(d).attributes,
            children: document_view(d).children.push(group_view(g)),
        }),
{
    d.add(g)
}

} // verus!
