use crate::game::pickup::{valid_occupied, Pickup};
use crate::point::{Offset, Point};
use crate::size::Size;
use std::collections::VecDeque;
use vstd::prelude::*;

verus! {

/// Movement direction of the snake, and the way a segment's sprite faces.
#[derive(PartialEq, Eq, Structural, Debug, Clone, Copy)]
pub enum Direction {
    Right,
    Down,
    Left,
    Up,
}

/// The role of a body segment.
#[derive(PartialEq, Eq, Structural, Debug, Clone, Copy)]
pub enum BodyPartKind {
    Head,
    Middle,
    Tail,
}

/// A body segment: its cell, its role and the way its sprite faces.
pub type BodyElement = (Point, BodyPartKind, Direction);

/// The snake: segments from head (front) to tail (back), the committed
/// direction, the direction queued for the next move, and the field it lives in.
pub struct Snake {
    body: VecDeque<BodyElement>,
    direction: Direction,
    next_direction: Direction,
    field_size: Size,
}

/// What the head moved onto.
#[derive(PartialEq, Eq, Structural, Debug, Clone, Copy)]
pub enum NewCell {
    Empty,
    Pickup,
}

/// Why a move was refused.
#[derive(PartialEq, Eq, Structural, Debug, Clone, Copy)]
pub enum Collision {
    Body,
    Border,
}

/// Whether the cell `(x, y)` lies within `[0, width) x [0, height)`.
pub open spec fn in_field(x: int, y: int, size: Size) -> bool {
    0 <= x < size.width && 0 <= y < size.height
}

/// The one-cell displacement of a move in direction `d`.
pub open spec fn direction_delta(d: Direction) -> (int, int) {
    match d {
        Direction::Right => (1, 0),
        Direction::Down => (0, 1),
        Direction::Left => (-1, 0),
        Direction::Up => (0, -1),
    }
}

/// The direction the tail sprite points, from the tail's position relative to
/// its neighbour: the way from the neighbour to the tail, reversed (a
/// neighbour one cell to the right gives `Right`). `current` is kept when the
/// two cells are not axis-adjacent.
pub open spec fn tail_facing(tail: Point, neighbour: Point, current: Direction) -> Direction {
    let dx = tail.x - neighbour.x;
    let dy = tail.y - neighbour.y;
    if dx == 1 && dy == 0 {
        Direction::Left
    } else if dx == -1 && dy == 0 {
        Direction::Right
    } else if dx == 0 && dy == 1 {
        Direction::Up
    } else if dx == 0 && dy == -1 {
        Direction::Down
    } else {
        current
    }
}

/// A well-formed body: at least two segments, a head in front, a tail at the
/// back and middles between, every segment in the field, no two on one cell,
/// and a field whose cells `i32` can address.
pub open spec fn body_wf(b: Seq<BodyElement>, size: Size) -> bool {
    &&& b.len() >= 2
    &&& size.width <= i32::MAX
    &&& size.height <= i32::MAX
    &&& b[0].1 == BodyPartKind::Head
    &&& b.last().1 == BodyPartKind::Tail
    &&& forall|i: int| 0 < i < b.len() - 1 ==> (#[trigger] b[i]).1 == BodyPartKind::Middle
    &&& forall|i: int|
        0 <= i < b.len() ==> in_field((#[trigger] b[i]).0.x as int, b[i].0.y as int, size)
    &&& forall|i: int, j: int|
        0 <= i < b.len() && 0 <= j < b.len() && i != j ==> (#[trigger] b[i]).0 != (
        #[trigger] b[j]).0
}

/// The straight body that a new snake starts with: `length` cells running left
/// from `head`, every segment facing right.
pub open spec fn initial_body(head: Point, length: nat) -> Seq<BodyElement> {
    Seq::new(
        length,
        |i: int|
            (
                Point { x: (head.x - i) as i32, y: head.y },
                if i == 0 {
                    BodyPartKind::Head
                } else if i == length - 1 {
                    BodyPartKind::Tail
                } else {
                    BodyPartKind::Middle
                },
                Direction::Right,
            ),
    )
}

/// The direction the tail sprite points; see `tail_facing`.
fn facing_away(tail: Point, neighbour: Point, current: Direction) -> (r: Direction)
    requires
        0 <= tail.x && 0 <= tail.y && 0 <= neighbour.x && 0 <= neighbour.y,
    ensures
        r == tail_facing(tail, neighbour, current),
{
    let dx = tail.x - neighbour.x;
    let dy = tail.y - neighbour.y;
    if dx == 1 && dy == 0 {
        Direction::Left
    } else if dx == -1 && dy == 0 {
        Direction::Right
    } else if dx == 0 && dy == 1 {
        Direction::Up
    } else if dx == 0 && dy == -1 {
        Direction::Down
    } else {
        current
    }
}

impl Snake {
    pub closed spec fn spec_body(&self) -> Seq<BodyElement> {
        self.body@
    }

    pub closed spec fn spec_direction(&self) -> Direction {
        self.direction
    }

    pub closed spec fn spec_next_direction(&self) -> Direction {
        self.next_direction
    }

    pub closed spec fn spec_field_size(&self) -> Size {
        self.field_size
    }

    pub open spec fn head_position(&self) -> Point {
        self.spec_body()[0].0
    }

    pub open spec fn tail_position(&self) -> Point {
        self.spec_body().last().0
    }

    /// The cells of the body, head first.
    pub open spec fn cells(&self) -> Seq<Point> {
        self.spec_body().map_values(|e: BodyElement| e.0)
    }

    /// Whether some segment lies on `p`.
    pub open spec fn occupies(&self, p: Point) -> bool {
        exists|i: int| 0 <= i < self.spec_body().len() && #[trigger] self.spec_body()[i].0 == p
    }

    /// The cell the head moves to on the next advance, as integers.
    pub open spec fn target(&self) -> (int, int) {
        let d = direction_delta(self.spec_next_direction());
        (self.head_position().x + d.0, self.head_position().y + d.1)
    }

    pub open spec fn target_point(&self) -> Point {
        Point { x: self.target().0 as i32, y: self.target().1 as i32 }
    }

    pub open spec fn hits_border(&self) -> bool {
        !in_field(self.target().0, self.target().1, self.spec_field_size())
    }

    /// Whether the next move lands on a segment other than the current tail.
    pub open spec fn hits_body(&self) -> bool {
        exists|i: int|
            0 <= i < self.spec_body().len() - 1 && #[trigger] self.spec_body()[i].0
                == self.target_point()
    }

    /// The body after a move that eats: a new head in front, the old head
    /// relabelled as a middle segment, the tail kept.
    pub open spec fn grown_body(&self) -> Seq<BodyElement> {
        let b = self.spec_body();
        seq![(self.target_point(), BodyPartKind::Head, self.spec_next_direction())] + b.update(
            0,
            (b[0].0, BodyPartKind::Middle, b[0].2),
        )
    }

    /// The body after a plain move: the grown body without its last segment,
    /// the new last segment relabelled as the tail and turned to face away
    /// from its neighbour.
    pub open spec fn moved_body(&self) -> Seq<BodyElement> {
        let g = self.grown_body().drop_last();
        let n = g.len() - 1;
        g.update(n, (g[n].0, BodyPartKind::Tail, tail_facing(g[n].0, g[n - 1].0, g[n].2)))
    }

    /// Well-formed: see `body_wf`.
    pub open spec fn wf(&self) -> bool {
        body_wf(self.spec_body(), self.spec_field_size())
    }

    /// A snake of `length` segments in a straight line, head at `head_start`,
    /// the rest running left from it, moving right.
    pub fn new(head_start: Point, length: u32, field_size: Size) -> (r: Snake)
        requires
            2 <= length,
            field_size.width <= i32::MAX,
            field_size.height <= i32::MAX,
            in_field(head_start.x as int, head_start.y as int, field_size),
            0 <= head_start.x - (length - 1),
        ensures
            r.wf(),
            r.spec_body() == initial_body(head_start, length as nat),
            r.spec_direction() == Direction::Right,
            r.spec_next_direction() == Direction::Right,
            r.spec_field_size() == field_size,
    {
        let mut body: VecDeque<BodyElement> = VecDeque::new();
        body.push_back((head_start, BodyPartKind::Head, Direction::Right));
        let mut i: u32 = 1;
        while i < length - 1
            invariant
                1 <= i <= length - 1,
                0 <= head_start.x - (length - 1),
                body@ =~= initial_body(head_start, length as nat).take(i as int),
            decreases length - i,
        {
            body.push_back(
                (head_start.offset(Offset::new(-(i as i32), 0)), BodyPartKind::Middle, Direction::Right),
            );
            i = i + 1;
        }
        body.push_back(
            (
                head_start.offset(Offset::new(1 - length as i32, 0)),
                BodyPartKind::Tail,
                Direction::Right,
            ),
        );
        assert(body@ =~= initial_body(head_start, length as nat));
        Snake { body, direction: Direction::Right, next_direction: Direction::Right, field_size }
    }

    /// The committed direction of the last move.
    pub fn direction(&self) -> (r: Direction)
        ensures
            r == self.spec_direction(),
    {
        self.direction
    }

    /// The cells of the body, head first.
    pub fn get_occupied_cells(&self) -> (r: Vec<Point>)
        ensures
            r@ == self.cells(),
    {
        let mut cells: Vec<Point> = Vec::new();
        let n = self.body.len();
        let mut i: usize = 0;
        while i < n
            invariant
                n == self.spec_body().len(),
                i <= n,
                cells@ =~= self.spec_body().take(i as int).map_values(|e: BodyElement| e.0),
            decreases n - i,
        {
            cells.push(self.body[i].0);
            i = i + 1;
        }
        assert(self.spec_body().take(n as int) =~= self.spec_body());
        cells
    }

    /// The segments, head first, for drawing.
    pub fn segments(&self) -> (r: Vec<BodyElement>)
        ensures
            r@ == self.spec_body(),
    {
        let mut out: Vec<BodyElement> = Vec::new();
        let n = self.body.len();
        let mut i: usize = 0;
        while i < n
            invariant
                n == self.spec_body().len(),
                i <= n,
                out@ =~= self.spec_body().take(i as int),
            decreases n - i,
        {
            out.push(self.body[i]);
            i = i + 1;
        }
        assert(self.spec_body().take(n as int) =~= self.spec_body());
        out
    }

    proof fn lemma_target_in_field(&self)
        requires
            self.wf(),
            !self.hits_border(),
        ensures
            self.target_point().x == self.target().0,
            self.target_point().y == self.target().1,
            in_field(self.target_point().x as int, self.target_point().y as int, self.spec_field_size()),
    {
        let b = self.spec_body();
        assert(in_field(b[0].0.x as int, b[0].0.y as int, self.spec_field_size()));
    }

    proof fn lemma_grown_wf(&self)
        requires
            self.wf(),
            !self.hits_border(),
            !self.hits_body(),
            self.target_point() != self.tail_position(),
        ensures
            body_wf(self.grown_body(), self.spec_field_size()),
    {
        self.lemma_target_in_field();
        let b = self.spec_body();
        let g = self.grown_body();
        let t = self.target_point();
        assert(g.len() == b.len() + 1);
        assert forall|i: int| 0 <= i < b.len() implies #[trigger] g[i + 1].0 == b[i].0 by {}
        assert forall|i: int| 0 <= i < b.len() implies b[i].0 != t by {
            if i < b.len() - 1 {
                assert(!(b[i].0 == t));
            }
        }
        assert forall|i: int, j: int|
            0 <= i < g.len() && 0 <= j < g.len() && i != j implies (#[trigger] g[i]).0 != (
            #[trigger] g[j]).0 by {
            if i > 0 && j > 0 {
                assert(g[i].0 == b[i - 1].0);
                assert(g[j].0 == b[j - 1].0);
            } else if i == 0 {
                assert(g[j].0 == b[j - 1].0);
            } else {
                assert(g[i].0 == b[i - 1].0);
            }
        }
        assert forall|i: int| 0 <= i < g.len() implies in_field(
            (#[trigger] g[i]).0.x as int,
            g[i].0.y as int,
            self.spec_field_size(),
        ) by {
            if i > 0 {
                assert(g[i].0 == b[i - 1].0);
            }
        }
    }

    proof fn lemma_moved_wf(&self)
        requires
            self.wf(),
            !self.hits_border(),
            !self.hits_body(),
        ensures
            body_wf(self.moved_body(), self.spec_field_size()),
            !self.occupies(self.target_point()) ==> forall|i: int|
                0 <= i < self.moved_body().len() ==> (#[trigger] self.moved_body()[i]).0
                    != self.tail_position(),
    {
        self.lemma_target_in_field();
        let b = self.spec_body();
        let g = self.grown_body();
        let m = self.moved_body();
        let t = self.target_point();
        let n = b.len();
        assert(m.len() == n);
        assert forall|i: int| 0 < i < n implies #[trigger] m[i].0 == b[i - 1].0 by {}
        assert(m[0].0 == t);
        assert forall|i: int| 0 <= i < n - 1 implies b[i].0 != t by {
            assert(!(b[i].0 == t));
        }
        assert forall|i: int, j: int|
            0 <= i < m.len() && 0 <= j < m.len() && i != j implies (#[trigger] m[i]).0 != (
            #[trigger] m[j]).0 by {
            if i > 0 && j > 0 {
                assert(m[i].0 == b[i - 1].0);
                assert(m[j].0 == b[j - 1].0);
            } else if i == 0 {
                assert(m[j].0 == b[j - 1].0);
            } else {
                assert(m[i].0 == b[i - 1].0);
            }
        }
        assert forall|i: int| 0 <= i < m.len() implies in_field(
            (#[trigger] m[i]).0.x as int,
            m[i].0.y as int,
            self.spec_field_size(),
        ) by {
            if i > 0 {
                assert(m[i].0 == b[i - 1].0);
            }
        }
        assert forall|i: int| 0 < i < m.len() - 1 implies (#[trigger] m[i]).1
            == BodyPartKind::Middle by {
            assert(m[i] == g[i]);
        }
        if !self.occupies(t) {
            assert forall|i: int| 0 <= i < m.len() implies (#[trigger] m[i]).0
                != self.tail_position() by {
                if i > 0 {
                    assert(m[i].0 == b[i - 1].0);
                    assert(b[n - 1].0 == self.tail_position());
                } else {
                    assert(!(b[n - 1].0 == t));
                }
            }
        }
    }

    /// The cells of a well-formed snake are a valid occupied set for its field,
    /// and hold exactly the cells that it occupies.
    pub proof fn lemma_cells_valid(&self)
        requires
            self.wf(),
        ensures
            valid_occupied(self.cells(), self.spec_field_size()),
            forall|p: Point| self.occupies(p) <==> #[trigger] self.cells().contains(p),
    {
        let b = self.spec_body();
        let c = self.cells();
        assert forall|i: int| 0 <= i < c.len() implies #[trigger] c[i] == b[i].0 by {}
        assert forall|i: int| 0 <= i < c.len() implies in_field(
            (#[trigger] c[i]).x as int,
            c[i].y as int,
            self.spec_field_size(),
        ) by {
            assert(c[i] == b[i].0);
        }
        assert forall|i: int, j: int|
            0 <= i < c.len() && 0 <= j < c.len() && i != j implies c[i] != c[j] by {
            assert(c[i] == b[i].0 && c[j] == b[j].0);
        }
        assert forall|p: Point| self.occupies(p) <==> #[trigger] c.contains(p) by {
            if self.occupies(p) {
                let i = choose|i: int| 0 <= i < b.len() && #[trigger] b[i].0 == p;
                assert(c[i] == p);
            }
            if c.contains(p) {
                let i = choose|i: int| 0 <= i < c.len() && c[i] == p;
                assert(b[i].0 == p);
            }
        }
    }

    proof fn lemma_grown_cells(&self)
        requires
            self.wf(),
        ensures
            forall|p: Point|
                (exists|i: int|
                    0 <= i < self.grown_body().len() && #[trigger] self.grown_body()[i].0 == p)
                    ==> p == self.target_point() || self.occupies(p),
    {
        let g = self.grown_body();
        let b = self.spec_body();
        assert forall|p: Point|
            (exists|i: int| 0 <= i < g.len() && #[trigger] g[i].0 == p) implies p
            == self.target_point() || self.occupies(p) by {
            let i = choose|i: int| 0 <= i < g.len() && #[trigger] g[i].0 == p;
            if i > 0 {
                assert(g[i].0 == b[i - 1].0);
            }
        }
    }

    proof fn lemma_moved_cells(&self)
        requires
            self.wf(),
        ensures
            forall|p: Point|
                (exists|i: int|
                    0 <= i < self.moved_body().len() && #[trigger] self.moved_body()[i].0 == p)
                    ==> p == self.target_point() || self.occupies(p),
    {
        let m = self.moved_body();
        let b = self.spec_body();
        assert forall|p: Point|
            (exists|i: int| 0 <= i < m.len() && #[trigger] m[i].0 == p) implies p
            == self.target_point() || self.occupies(p) by {
            let i = choose|i: int| 0 <= i < m.len() && #[trigger] m[i].0 == p;
            if i > 0 {
                assert(m[i].0 == b[i - 1].0);
            }
        }
    }

    /// The cell the tail is leaving is open to the head: a move onto the
    /// current tail cell is no body collision.
    pub proof fn lemma_tail_cell_is_open(&self)
        requires
            self.wf(),
            self.target_point() == self.tail_position(),
        ensures
            !self.hits_body(),
    {
        let b = self.spec_body();
        assert forall|i: int| 0 <= i < b.len() - 1 implies #[trigger] b[i].0
            != self.target_point() by {
            assert(b[b.len() - 1].0 == self.tail_position());
        }
    }

    /// Whether `t` lies on a segment other than the tail.
    fn lands_on_body(&self, t: Point) -> (r: bool)
        requires
            self.spec_body().len() >= 1,
        ensures
            r == exists|i: int|
                0 <= i < self.spec_body().len() - 1 && #[trigger] self.spec_body()[i].0 == t,
    {
        let n = self.body.len();
        let mut i: usize = 0;
        while i + 1 < n
            invariant
                n == self.spec_body().len(),
                n >= 1,
                i <= n - 1,
                forall|j: int| 0 <= j < i ==> #[trigger] self.spec_body()[j].0 != t,
            decreases n - i,
        {
            if self.body[i].0 == t {
                return true;
            }
            i = i + 1;
        }
        false
    }

    /// Moves the snake one cell in the queued direction.
    ///
    /// A move off the field fails with `Border`, and a move onto any segment
    /// but the tail fails with `Body`; either way the snake is left as it was.
    /// Otherwise the queued direction is committed and a new head is placed on
    /// the target cell. When that cell holds the pickup the snake grows by one
    /// and `Pickup` is returned; else the tail is dropped, the segment before it
    /// becomes the tail, and `Empty` is returned.
    pub fn advance(&mut self, cherry_pickup: &Pickup) -> (r: Result<NewCell, Collision>)
        requires
            old(self).wf(),
        ensures
            old(self).hits_border() ==> {
                &&& r == Err::<NewCell, Collision>(Collision::Border)
                &&& *final(self) == *old(self)
            },
            !old(self).hits_border() && old(self).hits_body() ==> {
                &&& r == Err::<NewCell, Collision>(Collision::Body)
                &&& *final(self) == *old(self)
            },
            !old(self).hits_border() && !old(self).hits_body() ==> {
                &&& final(self).spec_direction() == old(self).spec_next_direction()
                &&& final(self).spec_next_direction() == old(self).spec_next_direction()
                &&& final(self).spec_field_size() == old(self).spec_field_size()
                &&& final(self).head_position() == old(self).target_point()
                &&& forall|p: Point| #[trigger]
                    final(self).occupies(p) ==> p == old(self).target_point() || old(self).occupies(
                        p,
                    )
                &&& if cherry_pickup.position == old(self).target_point() {
                    &&& r == Ok::<NewCell, Collision>(NewCell::Pickup)
                    &&& final(self).spec_body() == old(self).grown_body()
                    &&& final(self).spec_body().len() == old(self).spec_body().len() + 1
                } else {
                    &&& r == Ok::<NewCell, Collision>(NewCell::Empty)
                    &&& final(self).spec_body() == old(self).moved_body()
                    &&& final(self).spec_body().len() == old(self).spec_body().len()
                    &&& !old(self).occupies(old(self).target_point())
                        ==> !final(self).occupies(old(self).tail_position())
                }
            },
            cherry_pickup.position != old(self).tail_position() ==> final(self).wf(),
    {
        let head = self.body[0];
        let delta = match self.next_direction {
            Direction::Left => Offset::new(-1, 0),
            Direction::Right => Offset::new(1, 0),
            Direction::Up => Offset::new(0, -1),
            Direction::Down => Offset::new(0, 1),
        };
        let t = head.0.offset(delta);

        if t.x < 0 || t.x as i64 >= self.field_size.width as i64 || t.y < 0 || t.y as i64
            >= self.field_size.height as i64 {
            return Err(Collision::Border);
        }
        if self.lands_on_body(t) {
            return Err(Collision::Body);
        }

        let picked = cherry_pickup.position == t;
        let ghost before = *self;
        proof {
            before.lemma_target_in_field();
        }
        self.direction = self.next_direction;

        let _ = self.body.pop_front();
        self.body.push_front((head.0, BodyPartKind::Middle, head.2));
        self.body.push_front((t, BodyPartKind::Head, self.direction));
        assert(self.spec_body() =~= before.grown_body());

        if picked {
            proof {
                if cherry_pickup.position != before.tail_position() {
                    before.lemma_grown_wf();
                }
                before.lemma_grown_cells();
            }
            Ok(NewCell::Pickup)
        } else {
            let _ = self.body.pop_back();
            let n = self.body.len();
            let last = self.body[n - 1];
            let neighbour = self.body[n - 2];
            assert(in_field(last.0.x as int, last.0.y as int, self.field_size));
            assert(in_field(neighbour.0.x as int, neighbour.0.y as int, self.field_size));
            let facing = facing_away(last.0, neighbour.0, last.2);
            let _ = self.body.pop_back();
            self.body.push_back((last.0, BodyPartKind::Tail, facing));
            assert(self.spec_body() =~= before.moved_body());
            proof {
                before.lemma_moved_wf();
                before.lemma_moved_cells();
            }
            Ok(NewCell::Empty)
        }
    }

    /// Queues the direction that the next advance takes.
    pub fn set_next_direction(&mut self, direction: Direction)
        ensures
            final(self).spec_body() == old(self).spec_body(),
            final(self).spec_direction() == old(self).spec_direction(),
            final(self).spec_next_direction() == direction,
            final(self).spec_field_size() == old(self).spec_field_size(),
    {
        self.next_direction = direction;
    }
}

} // verus!
