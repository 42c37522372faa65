use hexgrid::decimal::{floor_times_root3, isqrt, round_scaled};
use hexgrid::geometry::{corner_inset, hex_data, hex_points_array, hex_radius, lerp, PathCommand, Point, HEX_WIDTH, INNER_SPACE, SPACING};
use hexgrid::lattice::hex_translate;
use hexgrid::surd::Surd;
use hexgrid::text::{write_decimal, write_number};

fn value(v: Surd) -> f64 {
    (v.r as f64 + v.s as f64 * 3f64.sqrt()) / 3.0
}

fn end_of(c: &PathCommand) -> Point {
    match c {
        PathCommand::MoveTo(p) | PathCommand::LineTo(p) => *p,
        PathCommand::ArcTo { end, .. } => *end,
        PathCommand::Close => panic!("a close has no end point"),
    }
}

fn number(v: Surd) -> String {
    let mut s = String::new();
    write_number(&mut s, v);
    s
}

#[test]
fn outline_is_closed() {
    let data = hex_data();
    assert_eq!(data.len(), 14);
    assert!(matches!(data[0], PathCommand::MoveTo(_)));
    assert!(matches!(data[13], PathCommand::Close));
    for k in 1..=6 {
        assert!(matches!(data[2 * k - 1], PathCommand::LineTo(_)));
        assert!(matches!(data[2 * k], PathCommand::ArcTo { .. }));
    }
    let lines = data.iter().filter(|c| matches!(c, PathCommand::LineTo(_))).count();
    let arcs = data.iter().filter(|c| matches!(c, PathCommand::ArcTo { .. })).count();
    assert_eq!((lines, arcs), (6, 6));
}

#[test]
fn outline_has_no_seam() {
    let data = hex_data();
    let start = end_of(&data[0]);
    let last = end_of(&data[12]);
    assert_eq!(start, last);
    assert!((value(start.x) - value(last.x)).abs() < 1e-9);
    assert!((value(start.y) - value(last.y)).abs() < 1e-9);
}

#[test]
fn arcs_have_gap_radius() {
    for c in hex_data() {
        if let PathCommand::ArcTo { rx, ry, x_rotation, large_arc, sweep, .. } = c {
            assert_eq!(value(rx), INNER_SPACE as f64);
            assert_eq!(value(ry), INNER_SPACE as f64);
            assert_eq!(value(x_rotation), 0.0);
            assert!(!large_arc);
            assert!(sweep);
        }
    }
}

#[test]
fn lattice_steps() {
    for (i, j) in [(0, 0), (3, -2), (-5, 7), (1000, -1000)] {
        let p = hex_translate(i, j);
        let right = hex_translate(i + 1, j);
        let up = hex_translate(i, j + 1);
        assert!((value(right.x) - value(p.x) - SPACING as f64).abs() < 1e-9);
        assert!((value(right.y) - value(p.y)).abs() < 1e-9);
        assert!((value(up.x) - value(p.x) - SPACING as f64 / 2.0).abs() < 1e-9);
        assert!((value(up.y) - value(p.y) - SPACING as f64 * 3f64.sqrt() / 2.0).abs() < 1e-6);
    }
    assert_eq!(hex_translate(1, 0), Point { x: Surd { r: 660, s: 0 }, y: Surd { r: 0, s: 0 } });
    assert_eq!(hex_translate(0, 1), Point { x: Surd { r: 330, s: 0 }, y: Surd { r: 0, s: 330 } });
}

#[test]
fn hex_radius_value() {
    let r = hex_radius();
    assert!((value(r) - 115.47005).abs() < 5e-6);
    assert!((value(r) - 200.0 / 3f64.sqrt()).abs() < 1e-9);
    let text = number(r);
    assert!(text.starts_with("115.47005"));
    assert_eq!(format!("{:.5}", text.parse::<f64>().unwrap()), "115.47005");
}

#[test]
fn first_move_x() {
    let r = 200.0 / 3f64.sqrt();
    let rel = (INNER_SPACE as f64 * (std::f64::consts::PI / 6.0).tan()) / r;
    let pi = std::f64::consts::PI;
    let expected = r * (pi / 6.0).cos() + rel * (r * (pi / 2.0).cos() - r * (pi / 6.0).cos());
    let data = hex_data();
    let start = end_of(&data[0]);
    assert!((value(start.x) - expected).abs() < 1e-6);
    assert_eq!(start.x, Surd { r: 270, s: 0 });
}

#[test]
fn vertices_on_circle() {
    let pts = hex_points_array();
    assert_eq!(pts.len(), 12);
    let r = 200.0 / 3f64.sqrt();
    for (k, p) in pts.iter().enumerate() {
        let angle = k as f64 * std::f64::consts::PI / 3.0 + std::f64::consts::PI / 6.0;
        assert!((value(p.x) - r * angle.cos()).abs() < 1e-9);
        assert!((value(p.y) - r * angle.sin()).abs() < 1e-9);
    }
    assert_eq!(pts[3], pts[9]);
}

#[test]
fn lerp_tenth() {
    let a = Point { x: Surd { r: 300, s: 0 }, y: Surd { r: 0, s: 100 } };
    let b = Point { x: Surd { r: 0, s: 0 }, y: Surd { r: 0, s: 200 } };
    let p = lerp(a, b, INNER_SPACE, HEX_WIDTH);
    assert_eq!(p, Point { x: Surd { r: 270, s: 0 }, y: Surd { r: 0, s: 110 } });
    let q = lerp(a, b, HEX_WIDTH - INNER_SPACE, HEX_WIDTH);
    assert_eq!(q, Point { x: Surd { r: 30, s: 0 }, y: Surd { r: 0, s: 190 } });
}

#[test]
fn integer_square_root() {
    assert_eq!(isqrt(0), 0);
    assert_eq!(isqrt(1), 1);
    assert_eq!(isqrt(3), 1);
    assert_eq!(isqrt(4), 2);
    assert_eq!(isqrt(99), 9);
    assert_eq!(isqrt(1 << 100), 1 << 50);
    assert_eq!(isqrt((1 << 100) - 1), (1 << 50) - 1);
}

#[test]
fn floor_of_root3_multiples() {
    assert_eq!(floor_times_root3(0), 0);
    assert_eq!(floor_times_root3(1), 1);
    assert_eq!(floor_times_root3(-1), -2);
    assert_eq!(floor_times_root3(1000), 1732);
    assert_eq!(floor_times_root3(-1000), -1733);
}

#[test]
fn rounding_to_millionths() {
    assert_eq!(round_scaled(Surd { r: 0, s: 100 }), 57_735_027);
    assert_eq!(round_scaled(Surd { r: 0, s: -100 }), -57_735_027);
    assert_eq!(round_scaled(Surd { r: 3, s: 0 }), 1_000_000);
    assert_eq!(round_scaled(Surd { r: 1, s: 0 }), 333_333);
    assert_eq!(round_scaled(Surd { r: 2, s: 0 }), 666_667);
}

#[test]
fn decimal_text() {
    let mut s = String::new();
    write_decimal(&mut s, 0);
    assert_eq!(s, "0");
    let mut s = String::new();
    write_decimal(&mut s, -1_500_000);
    assert_eq!(s, "-1.5");
    let mut s = String::new();
    write_decimal(&mut s, 63_508_530);
    assert_eq!(s, "63.50853");
    let mut s = String::new();
    write_decimal(&mut s, -7);
    assert_eq!(s, "-0.000007");
    assert_eq!(number(Surd { r: 600, s: 0 }), "200");
    assert_eq!(number(Surd { r: 0, s: 330 }), "190.525589");
}

#[test]
fn corner_inset_value() {
    let c = corner_inset();
    let expected = INNER_SPACE as f64 * (std::f64::consts::PI / 6.0).tan();
    assert!((value(c) - expected).abs() < 1e-9);
    assert!((value(c) / value(hex_radius()) - 0.1).abs() < 1e-12);
    assert_eq!(number(c), "11.547005");
}
