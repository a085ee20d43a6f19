use vstd::prelude::*;
use crate::geometry::Point;

verus! {

/// A primitive closed shape, in its local frame.
#[derive(Clone, Debug, PartialEq)]
pub enum Shape<C> {
    /// Axis-aligned, with a corner at the origin, extending along +x and +y.
    Rectangle { width: C, height: C },
    /// Axis-aligned, centred at the origin.
    Ellipse { rx: C, ry: C },
    /// Right angle at the origin, legs along +x and +y.
    RtTriangle { width: C, height: C },
    /// A closed loop: the last point connects back to the first.
    Polygon { points: Vec<Point<C>> },
}

/// The rectangle of the given width and height.
pub fn rect<C>(width: C, height: C) -> (s: Shape<C>)
    ensures
        s == (Shape::Rectangle { width, height }),
{
    Shape::Rectangle { width, height }
}

/// The square of the given side: the same value as `rect(width, width)`.
pub fn square<C: Copy>(width: C) -> (s: Shape<C>)
    ensures
        s == (Shape::Rectangle { width: width, height: width }),
{
    rect(width, width)
}

/// The ellipse of the given radii.
pub fn ellipse<C>(r1: C, r2: C) -> (s: Shape<C>)
    ensures
        s == (Shape::Ellipse { rx: r1, ry: r2 }),
{
    Shape::Ellipse { rx: r1, ry: r2 }
}

/// The circle of the given radius: the same value as `ellipse(r, r)`.
pub fn circle<C: Copy>(r: C) -> (s: Shape<C>)
    ensures
        s == (Shape::Ellipse { rx: r, ry: r }),
{
    ellipse(r, r)
}

/// The right triangle with legs `a` along +x and `b` along +y.
pub fn rt_triangle<C>(a: C, b: C) -> (s: Shape<C>)
    ensures
        s == (Shape::RtTriangle { width: a, height: b }),
{
    Shape::RtTriangle { width: a, height: b }
}

/// The polygon whose boundary walks `ps` in order and closes back to the first point.
pub fn polygon<C>(ps: Vec<Point<C>>) -> (s: Shape<C>)
    ensures
        s == (Shape::Polygon { points: ps }),
{
    Shape::Polygon { points: ps }
}

/// The corners of the right triangle with legs `width` and `height`, in the
/// order in which its boundary is walked: the right angle at `origin`, then
/// the end of the leg along x, then the end of the leg along y. The triangle
/// holds exactly the points that this polygon holds.
pub fn triangle_points<C: Copy>(origin: C, width: C, height: C) -> (ps: Vec<Point<C>>)
    ensures
        ps@ == seq![
            Point { x: origin, y: origin },
            Point { x: width, y: origin },
            Point { x: origin, y: height },
        ],
{
    let mut ps: Vec<Point<C>> = Vec::new();
    ps.push(Point { x: origin, y: origin });
    ps.push(Point { x: width, y: origin });
    ps.push(Point { x: origin, y: height });
    assert(ps@ =~= seq![
        Point { x: origin, y: origin },
        Point { x: width, y: origin },
        Point { x: origin, y: height },
    ]);
    ps
}

/// Whether a polygon of `n` vertices encloses anything: fewer than three do not.
pub open spec fn is_proper_polygon(n: nat) -> bool {
    n >= 3
}

/// The `i`-th directed boundary edge of a polygon of `n` vertices, as the
/// indices of its start and end: the walk starts from the last vertex as the
/// predecessor of the first.
pub open spec fn edge_at(n: nat, i: nat) -> (usize, usize)
    recommends
        i < n,
{
    if i == 0 {
        ((n - 1) as usize, 0usize)
    } else {
        ((i - 1) as usize, i as usize)
    }
}

/// The directed boundary edges of a polygon of `n` vertices, in walking order:
/// `(n-1, 0), (0, 1), ..., (n-2, n-1)`. A degenerate polygon (fewer than three
/// vertices) has none, so that its area, perimeter and containment all vanish.
pub fn boundary_edges(n: usize) -> (es: Vec<(usize, usize)>)
    ensures
        es@.len() == (if is_proper_polygon(n as nat) { n as nat } else { 0 }),
        forall|i: int| 0 <= i < es@.len() ==> #[trigger] es@[i] == edge_at(n as nat, i as nat),
{
    let mut es: Vec<(usize, usize)> = Vec::new();
    if n < 3 {
        return es;
    }
    let mut prev: usize = n - 1;
    let mut i: usize = 0;
    while i < n
        invariant
            n >= 3,
            i <= n,
            es@.len() == i,
            prev == (if i == 0 { n - 1 } else { i - 1 }),
            forall|j: int| 0 <= j < i ==> #[trigger] es@[j] == edge_at(n as nat, j as nat),
        decreases n - i,
    {
        es.push((prev, i));
        prev = i;
        i = i + 1;
    }
    es
}

} // verus!
