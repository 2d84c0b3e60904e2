use vstd::prelude::*;

verus! {

/// A position on the board: column `x`, row `y`.
#[derive(Clone, Copy, Debug, PartialEq, Eq, Structural)]
pub struct Point {
    pub x: usize,
    pub y: usize,
}

impl Point {
    pub fn new(x: usize, y: usize) -> (r: Point)
        ensures
            r.x == x,
            r.y == y,
    {
        Point { x, y }
    }
}

impl From<(usize, usize)> for Point {
    /// A point from a raw `(x, y)` pair, as pattern tables write them.
    fn from(p: (usize, usize)) -> (r: Point)
        ensures
            r.x == p.0,
            r.y == p.1,
    {
        Point { x: p.0, y: p.1 }
    }
}

impl vstd::std_specs::convert::FromSpecImpl<(usize, usize)> for Point {
    open spec fn obeys_from_spec() -> bool {
        true
    }

    open spec fn from_spec(p: (usize, usize)) -> Point {
        Point { x: p.0, y: p.1 }
    }
}

} // verus!
