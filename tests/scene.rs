use hexgrid::drawing::{build_drawing, default_drawing, outline, to_document, translate_group, Drawing};
use hexgrid::geometry::{hex_data, SPACING};
use hexgrid::lattice::hex_translate;
use hexgrid::render::{mirror, path_data, translate, view_box};
use hexgrid::scene::{trapezoid_cells, Cell};
use hexgrid::surd::Surd;

fn value(v: Surd) -> f64 {
    (v.r as f64 + v.s as f64 * 3f64.sqrt()) / 3.0
}

fn document_text(d: &Drawing) -> String {
    to_document(d).to_string()
}

fn path_d_values(text: &str) -> Vec<String> {
    let mut out = Vec::new();
    for piece in text.split("<path").skip(1) {
        let start = piece.find(" d=\"").unwrap() + 4;
        let rest = &piece[start..];
        out.push(rest[..rest.find('"').unwrap()].to_string());
    }
    out
}

fn centre(c: &Cell) -> (f64, f64) {
    let o = hex_translate(c.i, c.j);
    (value(o.x) + 200.0, value(o.y) + 600.0)
}

#[test]
fn default_document() {
    let d = default_drawing();
    let text = document_text(&d);
    assert!(text.contains("viewBox=\"0 0 1400 800\""));
    assert!(text.contains("transform=\"matrix(1,0,0,-1,0,800)\""));
    let ds = path_d_values(&text);
    assert_eq!(ds.len(), 12);
    for d in ds {
        assert!(d.starts_with("M "));
        assert!(d.ends_with(" Z"));
        assert!(!d[1..].contains('M'));
    }
    assert_eq!(text.matches("stroke=\"black\"").count(), 12);
    assert_eq!(text.matches("stroke-width=\"3\"").count(), 12);
    assert_eq!(text.matches("fill=\"none\"").count(), 12);
}

#[test]
fn default_cell_count() {
    assert_eq!(default_drawing().cells.len(), 12);
    assert_eq!(trapezoid_cells(5, 3).len(), 5 + 4 + 3);
}

#[test]
fn single_cell() {
    let d = build_drawing(1, 1);
    assert_eq!(d.cells.len(), 1);
    assert_eq!(path_d_values(&document_text(&d)).len(), 1);
}

#[test]
fn three_by_three() {
    let d = build_drawing(3, 3);
    assert_eq!(path_d_values(&document_text(&d)).len(), 6);
    let cells = trapezoid_cells(3, 3);
    assert_eq!(cells, vec![
        Cell { i: 0, j: 0 }, Cell { i: 1, j: 0 }, Cell { i: 2, j: 0 },
        Cell { i: 1, j: -1 }, Cell { i: 2, j: -1 },
        Cell { i: 2, j: -2 },
    ]);
    let bottom: Vec<&Cell> = cells.iter().filter(|c| c.j == -1).collect();
    let (x0, y0) = centre(bottom[0]);
    let (x1, y1) = centre(bottom[1]);
    assert!((x1 - x0 - SPACING as f64).abs() < 1e-9);
    assert!((y1 - y0).abs() < 1e-9);
}

#[test]
fn cells_do_not_overlap() {
    let cells = trapezoid_cells(5, 3);
    for a in 0..cells.len() {
        for b in 0..cells.len() {
            if a != b {
                let (xa, ya) = centre(&cells[a]);
                let (xb, yb) = centre(&cells[b]);
                let dist = ((xa - xb).powi(2) + (ya - yb).powi(2)).sqrt();
                assert!(dist >= SPACING as f64 - 1e-9);
            }
        }
    }
}

#[test]
fn empty_scene() {
    assert_eq!(build_drawing(4, 0).cells.len(), 0);
    assert!(trapezoid_cells(0, 0).is_empty());
}

#[test]
fn cell_groups_carry_transforms() {
    let d = build_drawing(2, 2);
    assert_eq!(document_text(&d).matches("transform=\"translate(200, 600)\"").count(), 3);
    assert_eq!(d.cells[0].lattice_transform, "translate(0, 0)");
    assert_eq!(d.cells[1].lattice_transform, "translate(220, 0)");
    assert_eq!(d.cells[2].lattice_transform, "translate(110, -190.525589)");
    assert_eq!(d.view_box, "0 0 1400 800");
    assert_eq!(d.mirror_transform, "matrix(1,0,0,-1,0,800)");
}

#[test]
fn path_data_text() {
    let d = path_data(&hex_data());
    assert!(d.starts_with("M 90 63.50853 L "));
    assert_eq!(d.matches("L ").count(), 6);
    assert_eq!(d.matches("A 20 20 0 0 1 ").count(), 6);
    assert!(d.ends_with(" 90 63.50853 Z"));
}

#[test]
fn transform_texts() {
    assert_eq!(translate(Surd { r: 600, s: 0 }, Surd { r: 1800, s: 0 }), "translate(200, 600)");
    assert_eq!(mirror(800), "matrix(1,0,0,-1,0,800)");
    assert_eq!(view_box(1400, 800), "0 0 1400 800");
}

#[test]
fn document_parses_back() {
    let text = document_text(&default_drawing());
    let mut paths = 0;
    let mut view = None;
    for event in svg::read(&text).unwrap() {
        match event {
            svg::parser::Event::Tag("path", _, _) => paths += 1,
            svg::parser::Event::Tag("svg", svg::node::element::tag::Type::Start, attributes) => {
                view = attributes.get("viewBox").map(|v| v.to_string());
            }
            svg::parser::Event::Error(e) => panic!("{e:?}"),
            _ => {}
        }
    }
    assert_eq!(paths, 12);
    assert_eq!(view.as_deref(), Some("0 0 1400 800"));
}

#[test]
fn outline_attributes() {
    let text = outline(&"M 0 0 Z".to_string()).to_string();
    assert_eq!(text, "<path d=\"M 0 0 Z\" fill=\"none\" stroke=\"black\" stroke-width=\"3\"/>");
}

#[test]
fn group_translation_replaces_transform() {
    let g = svg::node::element::Group::new();
    let g = translate_group(g, Surd { r: 600, s: 0 }, Surd { r: 1800, s: 0 });
    assert_eq!(g.to_string(), "<g transform=\"translate(200, 600)\"/>");
    let g = translate_group(g, Surd { r: 0, s: 330 }, Surd { r: -3, s: 0 });
    assert_eq!(g.to_string(), "<g transform=\"translate(190.525589, -1)\"/>");
}

#[test]
fn document_nesting() {
    let text = document_text(&build_drawing(1, 1));
    let mirror = text.find("<g transform=\"matrix(1,0,0,-1,0,800)\">").unwrap();
    let origin = text.find("<g transform=\"translate(200, 600)\">").unwrap();
    let lattice = text.find("<g transform=\"translate(0, 0)\">").unwrap();
    let path = text.find("<path ").unwrap();
    assert!(mirror < origin && origin < lattice && lattice < path);
    assert!(text.contains("xmlns=\"http://www.w3.org/2000/svg\""));
}
