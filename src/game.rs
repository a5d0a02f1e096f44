pub mod pickup;
pub mod snake;

use crate::game::pickup::{Pickup, PickupKind};
use crate::game::snake::{in_field, Direction, NewCell, Snake};
use crate::point::Point;
use crate::size::Size;
use crate::sprite_renderer::{offset_fits, SubSpriteRenderingContext};
use vstd::prelude::*;

verus! {

/// The playing field inside a game grid: a border cell on each side and a
/// score line on top.
pub open spec fn spec_field_size_of(game_size: Size) -> Size {
    Size { width: (game_size.width - 2) as u32, height: (game_size.height - 3) as u32 }
}

/// The direction straight back from `d`.
pub open spec fn opposite_of(d: Direction) -> Direction {
    match d {
        Direction::Right => Direction::Left,
        Direction::Left => Direction::Right,
        Direction::Up => Direction::Down,
        Direction::Down => Direction::Up,
    }
}

/// Game grids that a new round can start on: room for the starting snake of
/// five cells at the top left of the field and at least one more free cell.
pub open spec fn playable_size(game_size: Size) -> bool {
    &&& 7 <= game_size.width
    &&& 4 <= game_size.height
    &&& game_size.width - 2 <= i32::MAX
    &&& game_size.height - 3 <= i32::MAX
    &&& spec_field_size_of(game_size).area() > 5
}

/// One round in progress: the grid, the snake, the pickup and the score.
pub struct PlayingState {
    game_size: Size,
    snake: Snake,
    cherry_pickup: Pickup,
    score: u32,
}

/// The round being played, or the score of the round that ended.
pub enum GameState {
    Playing(PlayingState),
    GameOver(u32),
}

/// A change of round that an update or a key press asks for.
#[derive(PartialEq, Eq, Structural, Debug, Clone, Copy)]
pub enum GameFlow {
    StartNew,
    ShowGameOver(u32),
}

/// The score after one more pickup; it stays at the largest `u32`.
pub open spec fn next_score(score: u32) -> u32 {
    if score < u32::MAX {
        (score + 1) as u32
    } else {
        score
    }
}

/// What one timed update of a round does: a collision ends the round and
/// leaves the state as it was; eating grows the snake, adds to the score and
/// places a new pickup, ending the round only when no cell is left for it; a
/// plain move moves the snake and keeps the rest.
pub open spec fn playing_update(o: PlayingState, f: PlayingState, r: Option<GameFlow>) -> bool {
    let s = o.spec_snake();
    &&& f.spec_game_size() == o.spec_game_size()
    &&& if s.hits_border() || s.hits_body() {
        &&& r == Some(GameFlow::ShowGameOver(o.spec_score()))
        &&& f == o
    } else if o.spec_pickup().position == s.target_point() {
        &&& f.spec_snake().spec_body() == s.grown_body()
        &&& f.spec_snake().spec_direction() == s.spec_next_direction()
        &&& f.spec_snake().spec_next_direction() == s.spec_next_direction()
        &&& f.spec_score() == next_score(o.spec_score())
        &&& r is None ==> f.spec_pickup().pickup_kind == PickupKind::Cherry
        &&& r is Some ==> {
            &&& r == Some(GameFlow::ShowGameOver(f.spec_score()))
            &&& f.spec_snake().cells().len() == spec_field_size_of(o.spec_game_size()).area()
        }
    } else {
        &&& r is None
        &&& f.spec_snake().spec_body() == s.moved_body()
        &&& f.spec_snake().spec_direction() == s.spec_next_direction()
        &&& f.spec_snake().spec_next_direction() == s.spec_next_direction()
        &&& f.spec_score() == o.spec_score()
        &&& f.spec_pickup() == o.spec_pickup()
    }
    &&& r is None ==> f.wf()
}

/// The size of the playing field inside a game grid.
pub fn field_size_of(game_size: Size) -> (r: Size)
    requires
        game_size.width >= 2,
        game_size.height >= 3,
    ensures
        r == spec_field_size_of(game_size),
{
    Size::new(game_size.width - 2, game_size.height - 3)
}

/// The direction straight back from `d`.
pub fn opposite(d: Direction) -> (r: Direction)
    ensures
        r == opposite_of(d),
{
    match d {
        Direction::Right => Direction::Left,
        Direction::Left => Direction::Right,
        Direction::Up => Direction::Down,
        Direction::Down => Direction::Up,
    }
}

/// Which of four pre-rotated sprites shows a segment facing `direction`:
/// right, down, left and up, in that order.
pub fn get_rotated_texture_variant(direction: Direction) -> (r: usize)
    ensures
        r < 4,
        r == match direction {
            Direction::Right => 0usize,
            Direction::Down => 1usize,
            Direction::Left => 2usize,
            Direction::Up => 3usize,
        },
{
    match direction {
        Direction::Right => 0,
        Direction::Down => 1,
        Direction::Left => 2,
        Direction::Up => 3,
    }
}

/// A region inside `context` with `left`, `top`, `bottom` and `right` cells
/// cut off its sides.
pub fn shrink_context(context: &SubSpriteRenderingContext, shrink_size: (u32, u32, u32, u32)) -> (r:
    SubSpriteRenderingContext)
    requires
        shrink_size.0 <= i32::MAX,
        shrink_size.1 <= i32::MAX,
        shrink_size.0 + shrink_size.3 <= context.spec_size().width,
        shrink_size.1 + shrink_size.2 <= context.spec_size().height,
        offset_fits(
            context.spec_offset().x + shrink_size.0,
            context.spec_offset().y + shrink_size.1,
        ),
    ensures
        r.spec_offset().x == context.spec_offset().x + shrink_size.0,
        r.spec_offset().y == context.spec_offset().y + shrink_size.1,
        r.spec_size().width == context.spec_size().width - shrink_size.0 - shrink_size.3,
        r.spec_size().height == context.spec_size().height - shrink_size.1 - shrink_size.2,
        r.spec_sprite_size() == context.spec_sprite_size(),
{
    let size = context.size();
    let (left, top, bottom, right) = shrink_size;
    context.view(
        Point::new(left as i32, top as i32),
        Size::new(size.width - left - right, size.height - top - bottom),
    )
}

/// The region below the score line.
pub fn get_border_context(context: &SubSpriteRenderingContext) -> (r: SubSpriteRenderingContext)
    requires
        1 <= context.spec_size().height,
        offset_fits(context.spec_offset().x as int, context.spec_offset().y + 1),
    ensures
        r.spec_offset().x == context.spec_offset().x,
        r.spec_offset().y == context.spec_offset().y + 1,
        r.spec_size().width == context.spec_size().width,
        r.spec_size().height == context.spec_size().height - 1,
        r.spec_sprite_size() == context.spec_sprite_size(),
{
    shrink_context(context, (0, 1, 0, 0))
}

/// The region inside a one-cell border.
pub fn get_playing_field_context(context: &SubSpriteRenderingContext) -> (r:
    SubSpriteRenderingContext)
    requires
        2 <= context.spec_size().width,
        2 <= context.spec_size().height,
        offset_fits(context.spec_offset().x + 1, context.spec_offset().y + 1),
    ensures
        r.spec_offset().x == context.spec_offset().x + 1,
        r.spec_offset().y == context.spec_offset().y + 1,
        r.spec_size().width == context.spec_size().width - 2,
        r.spec_size().height == context.spec_size().height - 2,
        r.spec_sprite_size() == context.spec_sprite_size(),
{
    shrink_context(context, (1, 1, 1, 1))
}

/// The `i`-th cell of the frame around a region of `size`, in drawing order:
/// for each column its top and its bottom cell, then for each inner row its
/// left and its right cell.
pub open spec fn border_cell(size: Size, i: int) -> Point {
    if i < 2 * size.width {
        Point { x: (i / 2) as i32, y: if i % 2 == 0 { 0 } else { (size.height - 1) as i32 } }
    } else {
        let k = i - 2 * size.width;
        Point {
            x: if k % 2 == 0 { 0 } else { (size.width - 1) as i32 },
            y: (k / 2 + 1) as i32,
        }
    }
}

/// How many cells `border_cells` lists.
pub open spec fn border_len(size: Size) -> int {
    if size.height >= 2 {
        2 * size.width + 2 * (size.height - 2)
    } else {
        2 * size.width
    }
}

/// The cells of a one-cell frame around a region of `size`; see `border_cell`.
pub fn border_cells(size: Size) -> (r: Vec<Point>)
    requires
        1 <= size.height,
        size.width <= i32::MAX,
        size.height <= i32::MAX,
    ensures
        r@.len() == border_len(size),
        forall|i: int| 0 <= i < r@.len() ==> r@[i] == #[trigger] border_cell(size, i),
{
    let mut cells: Vec<Point> = Vec::new();
    let mut x: u32 = 0;
    while x < size.width
        invariant
            x <= size.width,
            size.width <= i32::MAX,
            size.height <= i32::MAX,
            1 <= size.height,
            cells@.len() == 2 * x,
            forall|i: int| 0 <= i < cells@.len() ==> cells@[i] == #[trigger] border_cell(size, i),
        decreases size.width - x,
    {
        cells.push(Point::new(x as i32, 0));
        cells.push(Point::new(x as i32, size.height as i32 - 1));
        x = x + 1;
    }
    let mut y: u32 = 1;
    while y + 1 < size.height
        invariant
            1 <= y,
            y < size.height || size.height == 1,
            size.height == 1 ==> y == 1,
            size.width <= i32::MAX,
            size.height <= i32::MAX,
            1 <= size.height,
            cells@.len() == 2 * size.width + 2 * (y - 1),
            forall|i: int| 0 <= i < cells@.len() ==> cells@[i] == #[trigger] border_cell(size, i),
        decreases size.height - y,
    {
        cells.push(Point::new(0, y as i32));
        cells.push(Point::new(size.width as i32 - 1, y as i32));
        y = y + 1;
    }
    cells
}

/// A cherry on a random cell that the snake leaves free, or `None` when the
/// snake fills the field.
fn new_cherry_pickup(field_size: Size, snake: &Snake) -> (r: Option<Pickup>)
    requires
        snake.wf(),
        field_size == snake.spec_field_size(),
    ensures
        r.is_none() <==> snake.cells().len() == field_size.area(),
        r matches Some(pk) ==> {
            &&& pk.pickup_kind == PickupKind::Cherry
            &&& in_field(pk.position.x as int, pk.position.y as int, field_size)
            &&& !snake.occupies(pk.position)
        },
{
    proof {
        snake.lemma_cells_valid();
    }
    let cells = snake.get_occupied_cells();
    Pickup::new_cherry(field_size, cells.as_slice())
}

impl PlayingState {
    pub closed spec fn spec_game_size(&self) -> Size {
        self.game_size
    }

    pub closed spec fn spec_snake(&self) -> Snake {
        self.snake
    }

    pub closed spec fn spec_pickup(&self) -> Pickup {
        self.cherry_pickup
    }

    pub closed spec fn spec_score(&self) -> u32 {
        self.score
    }

    /// A well-formed round: a well-formed snake on the field inside the grid,
    /// and the pickup on a cell of the field that the snake leaves free.
    pub open spec fn wf(&self) -> bool {
        let field = spec_field_size_of(self.spec_game_size());
        &&& self.spec_game_size().width >= 2
        &&& self.spec_game_size().height >= 3
        &&& self.spec_snake().wf()
        &&& self.spec_snake().spec_field_size() == field
        &&& in_field(self.spec_pickup().position.x as int, self.spec_pickup().position.y as int, field)
        &&& !self.spec_snake().occupies(self.spec_pickup().position)
    }

    pub fn game_size(&self) -> (r: Size)
        ensures
            r == self.spec_game_size(),
    {
        self.game_size
    }

    pub fn snake(&self) -> (r: &Snake)
        ensures
            *r == self.spec_snake(),
    {
        &self.snake
    }

    pub fn cherry_pickup(&self) -> (r: Pickup)
        ensures
            r == self.spec_pickup(),
    {
        self.cherry_pickup
    }

    pub fn score(&self) -> (r: u32)
        ensures
            r == self.spec_score(),
    {
        self.score
    }
}

/// One timed move of the round; see `playing_update`.
pub fn update_playing(playing_state: &mut PlayingState) -> (r: Option<GameFlow>)
    requires
        old(playing_state).wf(),
    ensures
        playing_update(*old(playing_state), *final(playing_state), r),
{
    match playing_state.snake.advance(&playing_state.cherry_pickup) {
        Ok(NewCell::Pickup) => {
            playing_state.score = playing_state.score.saturating_add(1);
            let field = field_size_of(playing_state.game_size);
            match new_cherry_pickup(field, &playing_state.snake) {
                Some(pickup) => {
                    playing_state.cherry_pickup = pickup;
                    None
                },
                None => Some(GameFlow::ShowGameOver(playing_state.score)),
            }
        },
        Ok(NewCell::Empty) => None,
        Err(_) => Some(GameFlow::ShowGameOver(playing_state.score)),
    }
}

/// Queues `direction` for the snake unless it points straight back from the
/// direction of the last move.
pub fn request_direction(playing_state: &mut PlayingState, direction: Direction)
    requires
        old(playing_state).wf(),
    ensures
        final(playing_state).wf(),
        final(playing_state).spec_game_size() == old(playing_state).spec_game_size(),
        final(playing_state).spec_pickup() == old(playing_state).spec_pickup(),
        final(playing_state).spec_score() == old(playing_state).spec_score(),
        final(playing_state).spec_snake().spec_body() == old(
            playing_state,
        ).spec_snake().spec_body(),
        final(playing_state).spec_snake().spec_direction() == old(
            playing_state,
        ).spec_snake().spec_direction(),
        final(playing_state).spec_snake().spec_field_size() == old(
            playing_state,
        ).spec_snake().spec_field_size(),
        final(playing_state).spec_snake().spec_next_direction() == if direction == opposite_of(
            old(playing_state).spec_snake().spec_direction(),
        ) {
            old(playing_state).spec_snake().spec_next_direction()
        } else {
            direction
        },
{
    if direction != opposite(playing_state.snake.direction()) {
        playing_state.snake.set_next_direction(direction);
    }
}

impl GameState {
    /// Every round in progress is well formed.
    pub open spec fn wf(&self) -> bool {
        match self {
            GameState::Playing(ps) => ps.wf(),
            GameState::GameOver(_) => true,
        }
    }

    /// A new round: a five-cell snake with its head at `(4, 0)` of the field,
    /// moving right, a cherry on a free cell, and a score of zero.
    pub fn new_playing(game_size: Size) -> (r: GameState)
        requires
            playable_size(game_size),
        ensures
            r matches GameState::Playing(ps) && {
                &&& ps.wf()
                &&& ps.spec_game_size() == game_size
                &&& ps.spec_score() == 0
                &&& ps.spec_snake().spec_body() == snake::initial_body(Point { x: 4, y: 0 }, 5)
                &&& ps.spec_snake().spec_direction() == Direction::Right
                &&& ps.spec_snake().spec_next_direction() == Direction::Right
                &&& ps.spec_pickup().pickup_kind == PickupKind::Cherry
            },
    {
        let field_size = field_size_of(game_size);
        let snake = Snake::new(Point::new(4, 0), 5, field_size);
        match new_cherry_pickup(field_size, &snake) {
            Some(cherry_pickup) => GameState::Playing(
                PlayingState { game_size, snake, cherry_pickup, score: 0 },
            ),
            None => GameState::GameOver(0),
        }
    }

    /// The screen that shows the score of a finished round.
    pub fn new_game_over(score: u32) -> (r: GameState)
        ensures
            r == GameState::GameOver(score),
    {
        GameState::GameOver(score)
    }

    /// One timed update: the round in progress moves; a finished round waits.
    pub fn update(&mut self) -> (r: Option<GameFlow>)
        requires
            old(self).wf(),
        ensures
            match (*old(self), *final(self)) {
                (GameState::Playing(o), GameState::Playing(f)) => playing_update(o, f, r),
                (GameState::GameOver(a), GameState::GameOver(b)) => a == b && r is None,
                _ => false,
            },
    {
        match self {
            GameState::Playing(playing_state) => update_playing(playing_state),
            GameState::GameOver(_) => None,
        }
    }

    /// Starts a new round or shows the score, as `game_flow` asks.
    pub fn handle_game_flow(&mut self, game_flow: GameFlow, game_size: Size)
        requires
            playable_size(game_size),
        ensures
            final(self).wf(),
            game_flow == GameFlow::StartNew ==> (*final(self) matches GameState::Playing(ps) && {
                &&& ps.spec_game_size() == game_size
                &&& ps.spec_score() == 0
                &&& ps.spec_snake().spec_body() == snake::initial_body(Point { x: 4, y: 0 }, 5)
                &&& ps.spec_snake().spec_direction() == Direction::Right
                &&& ps.spec_snake().spec_next_direction() == Direction::Right
            }),
            game_flow matches GameFlow::ShowGameOver(score) ==> *final(self) == GameState::GameOver(
                score,
            ),
    {
        match game_flow {
            GameFlow::StartNew => {
                *self = GameState::new_playing(game_size);
            },
            GameFlow::ShowGameOver(score) => {
                *self = GameState::new_game_over(score);
            },
        }
    }
}

} // verus!
