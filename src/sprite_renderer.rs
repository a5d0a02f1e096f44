use crate::point::{Offset, Point};
use crate::size::Size;
use vstd::prelude::*;

verus! {

/// The size of the whole drawing grid, in cells, and the edge of one sprite,
/// in pixels.
#[derive(PartialEq, Eq, Structural, Debug, Clone, Copy)]
pub struct SpriteRendererSettings {
    size: Size,
    sprite_size: u32,
}

/// A region of the drawing grid: its offset from the root, in cells, and its
/// extent. Drawing at local coordinates goes through the accumulated offset.
#[derive(PartialEq, Eq, Structural, Debug, Clone, Copy)]
pub struct SubSpriteRenderingContext {
    offset: Point,
    size: Size,
    sprite_size: u32,
}

/// Whether an offset of `(x, y)` cells from the root can still be addressed.
pub open spec fn offset_fits(x: int, y: int) -> bool {
    i32::MIN <= x <= i32::MAX && i32::MIN <= y <= i32::MAX
}

/// The root pixel position of cell `(x, y)` of `ctx`, on each axis
/// `(local + offset) * sprite_size`.
pub open spec fn pixel_of(ctx: SubSpriteRenderingContext, x: int, y: int) -> (int, int) {
    (
        (x + ctx.spec_offset().x) * ctx.spec_sprite_size(),
        (y + ctx.spec_offset().y) * ctx.spec_sprite_size(),
    )
}

impl SpriteRendererSettings {
    pub fn new(size: Size, sprite_size: u32) -> (r: SpriteRendererSettings)
        ensures
            r.spec_size() == size,
            r.spec_sprite_size() == sprite_size,
    {
        SpriteRendererSettings { size, sprite_size }
    }

    pub closed spec fn spec_size(&self) -> Size {
        self.size
    }

    pub closed spec fn spec_sprite_size(&self) -> u32 {
        self.sprite_size
    }

    pub fn size(&self) -> (r: Size)
        ensures
            r == self.spec_size(),
    {
        self.size
    }

    pub fn sprite_size(&self) -> (r: u32)
        ensures
            r == self.spec_sprite_size(),
    {
        self.sprite_size
    }
}

impl SubSpriteRenderingContext {
    pub closed spec fn spec_offset(&self) -> Point {
        self.offset
    }

    pub closed spec fn spec_size(&self) -> Size {
        self.size
    }

    pub closed spec fn spec_sprite_size(&self) -> u32 {
        self.sprite_size
    }

    /// The root region: the whole grid, at offset `(0, 0)`.
    pub fn root(settings: &SpriteRendererSettings) -> (r: SubSpriteRenderingContext)
        ensures
            r.spec_offset() == (Point { x: 0, y: 0 }),
            r.spec_size() == settings.spec_size(),
            r.spec_sprite_size() == settings.spec_sprite_size(),
    {
        SubSpriteRenderingContext {
            offset: Point::new(0, 0),
            size: settings.size,
            sprite_size: settings.sprite_size,
        }
    }

    /// A region inside `inner_context`, `offset` cells from its corner and
    /// `size` cells large: its offset from the root is the parent's plus
    /// `offset`. Whether it lies within the parent is not checked.
    pub fn new(inner_context: &SubSpriteRenderingContext, offset: Point, size: Size) -> (r:
        SubSpriteRenderingContext)
        requires
            offset_fits(
                inner_context.spec_offset().x + offset.x,
                inner_context.spec_offset().y + offset.y,
            ),
        ensures
            r.spec_offset().x == inner_context.spec_offset().x + offset.x,
            r.spec_offset().y == inner_context.spec_offset().y + offset.y,
            r.spec_size() == size,
            r.spec_sprite_size() == inner_context.spec_sprite_size(),
    {
        let inner_offset = inner_context.offset;
        SubSpriteRenderingContext {
            offset: inner_offset.offset(Offset::from(offset)),
            size,
            sprite_size: inner_context.sprite_size,
        }
    }

    /// The same as `new` on `self`.
    pub fn view(&self, offset: Point, size: Size) -> (r: SubSpriteRenderingContext)
        requires
            offset_fits(self.spec_offset().x + offset.x, self.spec_offset().y + offset.y),
        ensures
            r.spec_offset().x == self.spec_offset().x + offset.x,
            r.spec_offset().y == self.spec_offset().y + offset.y,
            r.spec_size() == size,
            r.spec_sprite_size() == self.spec_sprite_size(),
    {
        SubSpriteRenderingContext::new(self, offset, size)
    }

    /// The accumulated offset from the root, in cells.
    pub fn offset(&self) -> (r: Point)
        ensures
            r == self.spec_offset(),
    {
        self.offset
    }

    /// The region's own extent, in cells.
    pub fn size(&self) -> (r: Size)
        ensures
            r == self.spec_size(),
    {
        self.size
    }

    pub fn width(&self) -> (r: u32)
        ensures
            r == self.spec_size().width,
    {
        self.size.width
    }

    pub fn height(&self) -> (r: u32)
        ensures
            r == self.spec_size().height,
    {
        self.size.height
    }

    /// The root pixel position of a sprite drawn at local cell `coords`:
    /// `(coords + offset) * sprite_size` on each axis.
    pub fn sprite_position(&self, coords: Point) -> (r: (i64, i64))
        requires
            offset_fits(self.spec_offset().x + coords.x, self.spec_offset().y + coords.y),
        ensures
            r.0 == pixel_of(*self, coords.x as int, coords.y as int).0,
            r.1 == pixel_of(*self, coords.x as int, coords.y as int).1,
    {
        let cx = coords.x as i64 + self.offset.x as i64;
        let cy = coords.y as i64 + self.offset.y as i64;
        let s = self.sprite_size as i64;
        assert(i64::MIN <= cx * s <= i64::MAX && i64::MIN <= cy * s <= i64::MAX)
            by (nonlinear_arith)
            requires
                i32::MIN <= cx <= i32::MAX,
                i32::MIN <= cy <= i32::MAX,
                0 <= s <= u32::MAX,
        ;
        (cx * s, cy * s)
    }
}

/// Drawing resolves through nested regions: when `child` sits `a` cells into
/// `parent` and `grandchild` sits `b` cells into `child` (as `new` makes them),
/// a sprite at cell `c` of `grandchild` lands on the root pixel where `parent`
/// draws cell `c + a + b`.
pub proof fn lemma_nested_draw(
    parent: SubSpriteRenderingContext,
    child: SubSpriteRenderingContext,
    grandchild: SubSpriteRenderingContext,
    a: Point,
    b: Point,
    c: Point,
)
    requires
        child.spec_offset().x == parent.spec_offset().x + a.x,
        child.spec_offset().y == parent.spec_offset().y + a.y,
        child.spec_sprite_size() == parent.spec_sprite_size(),
        grandchild.spec_offset().x == child.spec_offset().x + b.x,
        grandchild.spec_offset().y == child.spec_offset().y + b.y,
        grandchild.spec_sprite_size() == child.spec_sprite_size(),
    ensures
        pixel_of(grandchild, c.x as int, c.y as int) == pixel_of(
            parent,
            c.x + a.x + b.x,
            c.y + a.y + b.y,
        ),
{
}

} // verus!
