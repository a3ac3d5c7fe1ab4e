use vstd::prelude::*;

verus! {

/// A 0-indexed coordinate pair on the board.
#[derive(Debug, Clone, Copy, PartialEq, Eq, Structural)]
pub struct Point {
    pub x: u8,
    pub y: u8,
}

impl From<(u8, u8)> for Point {
    fn from(point: (u8, u8)) -> (r: Self)
        ensures
            r == (Point { x: point.0, y: point.1 }),
    {
        Point { x: point.0, y: point.1 }
    }
}

impl vstd::std_specs::convert::FromSpecImpl<(u8, u8)> for Point {
    open spec fn obeys_from_spec() -> bool {
        true
    }

    open spec fn from_spec(point: (u8, u8)) -> Self {
        Point { x: point.0, y: point.1 }
    }
}

} // verus!
