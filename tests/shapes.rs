use region_algebra::geometry::{point, vector, Point, Vector};
use region_algebra::shapes::{
    boundary_edges, circle, ellipse, polygon, rect, rt_triangle, square, triangle_points, Shape,
};

#[test]
fn square_is_rect_test() {
    let r = rect(100.0, 100.0);
    let s = square(100.0);
    assert!(r == s)
}

#[test]
fn square_is_rect_for_several_sides() {
    for side in [0.0, 1.5, -3.0, 1e9] {
        assert_eq!(square(side), rect(side, side));
    }
}

#[test]
fn constructors_fill_fields() {
    assert_eq!(rect(100.0, 200.0), Shape::Rectangle { width: 100.0, height: 200.0 });
    assert_eq!(ellipse(5.0, 10.0), Shape::Ellipse { rx: 5.0, ry: 10.0 });
    assert_eq!(circle(7.0), ellipse(7.0, 7.0));
    assert_eq!(rt_triangle(3.0, 4.0), Shape::RtTriangle { width: 3.0, height: 4.0 });
    let ps = vec![point(10.0, 1.0), point(7.0, 5.0), point(10.0, 9.0)];
    assert_eq!(polygon(ps.clone()), Shape::Polygon { points: ps });
}

#[test]
fn point_and_vector_fields() {
    assert_eq!(point(2.0, 5.0), Point { x: 2.0, y: 5.0 });
    assert_eq!(vector(5.0, -5.0), Vector { dx: 5.0, dy: -5.0 });
}

#[test]
fn degenerate_polygons_have_no_edges() {
    assert!(boundary_edges(0).is_empty());
    assert!(boundary_edges(1).is_empty());
    assert!(boundary_edges(2).is_empty());
}

#[test]
fn triangle_edges_start_from_last_vertex() {
    assert_eq!(boundary_edges(3), vec![(2, 0), (0, 1), (1, 2)]);
}

#[test]
fn quadrilateral_edges_walk_in_order() {
    assert_eq!(boundary_edges(4), vec![(3, 0), (0, 1), (1, 2), (2, 3)]);
}

#[test]
fn triangle_corners_in_walking_order() {
    assert_eq!(
        triangle_points(0.0, 3.0, 4.0),
        vec![point(0.0, 0.0), point(3.0, 0.0), point(0.0, 4.0)]
    );
}
