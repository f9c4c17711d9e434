use graph_editor::geometry::Point;
use graph_editor::geometry::VertexArea;
use graph_editor::geometry::edge_collide;
use graph_editor::geometry::point_in_box;
use graph_editor::geometry::quantize;

fn p(x: i64, y: i64) -> Point {
    Point { x, y }
}

#[test]
fn quantize_rounds_to_nearest_grid_multiple() {
    assert_eq!(quantize(0), 0);
    assert_eq!(quantize(9), 0);
    assert_eq!(quantize(10), 20);
    assert_eq!(quantize(19), 20);
    assert_eq!(quantize(20), 20);
    assert_eq!(quantize(30), 40);
    assert_eq!(quantize(80), 80);
    assert_eq!(quantize(-9), 0);
    assert_eq!(quantize(-10), -20);
    assert_eq!(quantize(-30), -40);
    assert_eq!(quantize(-45), -40);
}

#[test]
fn quantize_is_idempotent_on_samples() {
    for v in [-61, -40, -19, -10, -1, 0, 1, 9, 10, 33, 50, 1999, 2010] {
        assert_eq!(quantize(quantize(v)), quantize(v));
    }
}

#[test]
fn point_in_box_is_strict_at_the_boundary() {
    let c = p(0, 0);
    // the centre itself is always inside a box of positive half-extent
    assert!(point_in_box(c, 10, c));
    // strictly inside
    assert!(point_in_box(c, 10, p(9, -9)));
    // exactly at distance h on one axis: out
    assert!(!point_in_box(c, 10, p(10, 0)));
    assert!(!point_in_box(c, 10, p(0, -10)));
    // beyond
    assert!(!point_in_box(c, 10, p(11, 0)));
    // a degenerate box of half-extent zero never hits, not even its centre
    assert!(!point_in_box(c, 0, c));
}

#[test]
fn vertex_area_intersects_matches_point_in_box() {
    let area = VertexArea { half_extend: 25 };
    assert!(area.intersects(p(100, 100), p(120, 80)));
    assert!(!area.intersects(p(100, 100), p(125, 100)));
    assert!(!area.intersects(p(100, 100), p(126, 100)));
}

#[test]
fn edge_collide_scenario_horizontal_segment() {
    let u = p(0, 0);
    let v = p(100, 0);
    // squared distance 9 <= 25, within span
    assert!(edge_collide(p(50, 3), u, v));
    // squared distance 36 > 25
    assert!(!edge_collide(p(50, 6), u, v));
    // on the infinite line but outside the span
    assert!(!edge_collide(p(150, 0), u, v));
}

#[test]
fn edge_collide_boundary_of_tolerance() {
    let u = p(0, 0);
    let v = p(100, 0);
    // squared distance exactly 25 still collides
    assert!(edge_collide(p(50, 5), u, v));
    // endpoints themselves collide
    assert!(edge_collide(p(0, 0), u, v));
    assert!(edge_collide(p(100, 0), u, v));
}

#[test]
fn edge_collide_degenerate_segment_never_collides() {
    let u = p(42, 42);
    assert!(!edge_collide(p(42, 42), u, u));
    assert!(!edge_collide(p(43, 42), u, u));
}

#[test]
fn edge_collide_measures_span_by_squared_projection_length() {
    let u = p(0, 0);
    let v = p(100, 0);
    // the span test compares the squared projection length against the
    // squared segment length, so a point on the line just before the start
    // still lands within the span
    assert!(edge_collide(p(-50, 0), u, v));
    // while one further back than the segment is long does not
    assert!(!edge_collide(p(-150, 0), u, v));
}
