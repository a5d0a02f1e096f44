use vstd::prelude::*;

verus! {

/// The extent of a field or a viewport, in cells.
#[derive(PartialEq, Eq, Structural, Debug, Clone, Copy)]
pub struct Size {
    pub width: u32,
    pub height: u32,
}

impl Size {
    pub fn new(width: u32, height: u32) -> (r: Size)
        ensures
            r.width == width,
            r.height == height,
    {
        Size { width, height }
    }

    /// Number of cells covered: `width * height`.
    pub open spec fn area(self) -> int {
        self.width * self.height
    }
}

impl From<(u32, u32)> for Size {
    fn from(pair: (u32, u32)) -> (r: Size)
        ensures
            r.width == pair.0,
            r.height == pair.1,
    {
        Size { width: pair.0, height: pair.1 }
    }
}

impl vstd::std_specs::convert::FromSpecImpl<(u32, u32)> for Size {
    open spec fn obeys_from_spec() -> bool {
        true
    }

    open spec fn from_spec(pair: (u32, u32)) -> Size {
        Size { width: pair.0, height: pair.1 }
    }
}

impl From<[u32; 2]> for Size {
    fn from(a: [u32; 2]) -> (r: Size)
        ensures
            r.width == a@[0],
            r.height == a@[1],
    {
        Size { width: a[0], height: a[1] }
    }
}

impl vstd::std_specs::convert::FromSpecImpl<[u32; 2]> for Size {
    open spec fn obeys_from_spec() -> bool {
        true
    }

    open spec fn from_spec(a: [u32; 2]) -> Size {
        Size { width: a@[0], height: a@[1] }
    }
}

} // verus!
