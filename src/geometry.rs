use vstd::prelude::*;

verus! {

/// A point of the plane.
#[derive(Clone, Copy, Debug, PartialEq)]
pub struct Point<C> {
    pub x: C,
    pub y: C,
}

/// A displacement, also read as a pair of per-axis scale factors.
#[derive(Clone, Copy, Debug, PartialEq)]
pub struct Vector<C> {
    pub dx: C,
    pub dy: C,
}

/// Builds the point `(x, y)`.
pub fn point<C>(x: C, y: C) -> (p: Point<C>)
    ensures
        p == (Point { x, y }),
{
    Point { x, y }
}

/// Builds the vector `(dx, dy)`.
pub fn vector<C>(dx: C, dy: C) -> (v: Vector<C>)
    ensures
        v == (Vector { dx, dy }),
{
    Vector { dx, dy }
}

} // verus!
