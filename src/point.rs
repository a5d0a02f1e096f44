use vstd::prelude::*;

verus! {

/// A cell position; components may leave the field while a move is checked.
#[derive(PartialEq, Eq, Structural, Debug, Clone, Copy)]
pub struct Point {
    pub x: i32,
    pub y: i32,
}

/// A displacement between cells.
#[derive(PartialEq, Eq, Structural, Debug, Clone, Copy)]
pub struct Offset {
    pub delta_x: i32,
    pub delta_y: i32,
}

/// Whether translating `p` by `(dx, dy)` stays within `i32`.
pub open spec fn translation_fits(p: Point, dx: int, dy: int) -> bool {
    i32::MIN <= p.x + dx <= i32::MAX && i32::MIN <= p.y + dy <= i32::MAX
}

impl Point {
    pub fn new(x: i32, y: i32) -> (r: Point)
        ensures
            r.x == x,
            r.y == y,
    {
        Point { x, y }
    }

    /// Pure translation: `(x + dx, y + dy)`.
    pub fn offset(self, offset: Offset) -> (r: Point)
        requires
            translation_fits(self, offset.delta_x as int, offset.delta_y as int),
        ensures
            r.x == self.x + offset.delta_x,
            r.y == self.y + offset.delta_y,
    {
        Point { x: self.x + offset.delta_x, y: self.y + offset.delta_y }
    }
}

impl Offset {
    pub fn new(delta_x: i32, delta_y: i32) -> (r: Offset)
        ensures
            r.delta_x == delta_x,
            r.delta_y == delta_y,
    {
        Offset { delta_x, delta_y }
    }
}

impl From<(i32, i32)> for Point {
    fn from(pair: (i32, i32)) -> (r: Point)
        ensures
            r.x == pair.0,
            r.y == pair.1,
    {
        Point { x: pair.0, y: pair.1 }
    }
}

impl vstd::std_specs::convert::FromSpecImpl<(i32, i32)> for Point {
    open spec fn obeys_from_spec() -> bool {
        true
    }

    open spec fn from_spec(pair: (i32, i32)) -> Point {
        Point { x: pair.0, y: pair.1 }
    }
}

impl From<(i32, i32)> for Offset {
    fn from(pair: (i32, i32)) -> (r: Offset)
        ensures
            r.delta_x == pair.0,
            r.delta_y == pair.1,
    {
        Offset { delta_x: pair.0, delta_y: pair.1 }
    }
}

impl vstd::std_specs::convert::FromSpecImpl<(i32, i32)> for Offset {
    open spec fn obeys_from_spec() -> bool {
        true
    }

    open spec fn from_spec(pair: (i32, i32)) -> Offset {
        Offset { delta_x: pair.0, delta_y: pair.1 }
    }
}

impl From<Point> for Offset {
    fn from(point: Point) -> (r: Offset)
        ensures
            r.delta_x == point.x,
            r.delta_y == point.y,
    {
        Offset { delta_x: point.x, delta_y: point.y }
    }
}

impl vstd::std_specs::convert::FromSpecImpl<Point> for Offset {
    open spec fn obeys_from_spec() -> bool {
        true
    }

    open spec fn from_spec(point: Point) -> Offset {
        Offset { delta_x: point.x, delta_y: point.y }
    }
}

/// Unsigned pairs convert with `as` semantics: values past `i32::MAX` wrap.
impl From<(u32, u32)> for Point {
    fn from(pair: (u32, u32)) -> (r: Point)
        ensures
            r.x == pair.0 as i32,
            r.y == pair.1 as i32,
    {
        Point { x: #[verifier::truncate] (pair.0 as i32), y: #[verifier::truncate] (pair.1 as i32) }
    }
}

impl vstd::std_specs::convert::FromSpecImpl<(u32, u32)> for Point {
    open spec fn obeys_from_spec() -> bool {
        true
    }

    open spec fn from_spec(pair: (u32, u32)) -> Point {
        Point { x: pair.0 as i32, y: pair.1 as i32 }
    }
}

impl From<[i32; 2]> for Point {
    fn from(a: [i32; 2]) -> (r: Point)
        ensures
            r.x == a@[0],
            r.y == a@[1],
    {
        Point { x: a[0], y: a[1] }
    }
}

impl vstd::std_specs::convert::FromSpecImpl<[i32; 2]> for Point {
    open spec fn obeys_from_spec() -> bool {
        true
    }

    open spec fn from_spec(a: [i32; 2]) -> Point {
        Point { x: a@[0], y: a@[1] }
    }
}

/// Unsigned pairs convert with `as` semantics: values past `i32::MAX` wrap.
impl From<(u32, u32)> for Offset {
    fn from(pair: (u32, u32)) -> (r: Offset)
        ensures
            r.delta_x == pair.0 as i32,
            r.delta_y == pair.1 as i32,
    {
        Offset {
            delta_x: #[verifier::truncate] (pair.0 as i32),
            delta_y: #[verifier::truncate] (pair.1 as i32),
        }
    }
}

impl vstd::std_specs::convert::FromSpecImpl<(u32, u32)> for Offset {
    open spec fn obeys_from_spec() -> bool {
        true
    }

    open spec fn from_spec(pair: (u32, u32)) -> Offset {
        Offset { delta_x: pair.0 as i32, delta_y: pair.1 as i32 }
    }
}

impl From<[i32; 2]> for Offset {
    fn from(a: [i32; 2]) -> (r: Offset)
        ensures
            r.delta_x == a@[0],
            r.delta_y == a@[1],
    {
        Offset { delta_x: a[0], delta_y: a[1] }
    }
}

impl vstd::std_specs::convert::FromSpecImpl<[i32; 2]> for Offset {
    open spec fn obeys_from_spec() -> bool {
        true
    }

    open spec fn from_spec(a: [i32; 2]) -> Offset {
        Offset { delta_x: a@[0], delta_y: a@[1] }
    }
}

} // verus!
