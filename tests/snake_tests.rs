use snake::game::pickup::{Pickup, PickupKind};
use snake::game::snake::{BodyPartKind, Collision, Direction, NewCell, Snake};
use snake::point::Point;
use snake::size::Size;

fn cherry_at(x: i32, y: i32) -> Pickup {
    Pickup { pickup_kind: PickupKind::Cherry, position: Point::new(x, y) }
}

fn far_pickup() -> Pickup {
    cherry_at(9, 9)
}

fn cells(snake: &Snake) -> Vec<(i32, i32)> {
    snake.get_occupied_cells().iter().map(|p| (p.x, p.y)).collect()
}

#[test]
fn new_snake_is_a_straight_line_facing_right() {
    let snake = Snake::new(Point::new(4, 0), 5, Size::new(10, 10));
    assert_eq!(cells(&snake), vec![(4, 0), (3, 0), (2, 0), (1, 0), (0, 0)]);
    let segments = snake.segments();
    assert_eq!(segments[0].1, BodyPartKind::Head);
    assert_eq!(segments[1].1, BodyPartKind::Middle);
    assert_eq!(segments[3].1, BodyPartKind::Middle);
    assert_eq!(segments[4].1, BodyPartKind::Tail);
    assert!(segments.iter().all(|s| s.2 == Direction::Right));
    assert_eq!(snake.direction(), Direction::Right);
}

#[test]
fn new_snake_of_two_cells_has_head_and_tail() {
    let snake = Snake::new(Point::new(1, 2), 2, Size::new(4, 4));
    let segments = snake.segments();
    assert_eq!(segments.len(), 2);
    assert_eq!(segments[0], (Point::new(1, 2), BodyPartKind::Head, Direction::Right));
    assert_eq!(segments[1], (Point::new(0, 2), BodyPartKind::Tail, Direction::Right));
}

#[test]
fn advance_into_open_cell_moves_without_growing() {
    let mut snake = Snake::new(Point::new(4, 0), 5, Size::new(10, 10));
    let result = snake.advance(&far_pickup());
    assert_eq!(result, Ok(NewCell::Empty));
    assert_eq!(cells(&snake), vec![(5, 0), (4, 0), (3, 0), (2, 0), (1, 0)]);
    assert!(!cells(&snake).contains(&(0, 0)));
    let segments = snake.segments();
    assert_eq!(segments[0].1, BodyPartKind::Head);
    assert_eq!(segments[1].1, BodyPartKind::Middle);
    assert_eq!(segments[4].1, BodyPartKind::Tail);
}

#[test]
fn advance_onto_pickup_grows_by_one_and_keeps_the_tail() {
    let mut snake = Snake::new(Point::new(4, 0), 5, Size::new(10, 10));
    let result = snake.advance(&cherry_at(5, 0));
    assert_eq!(result, Ok(NewCell::Pickup));
    assert_eq!(cells(&snake), vec![(5, 0), (4, 0), (3, 0), (2, 0), (1, 0), (0, 0)]);
    let segments = snake.segments();
    assert_eq!(segments[0].1, BodyPartKind::Head);
    assert_eq!(segments[1].1, BodyPartKind::Middle);
    assert_eq!(segments[5].1, BodyPartKind::Tail);
}

#[test]
fn advance_off_the_field_is_a_border_collision() {
    let mut snake = Snake::new(Point::new(4, 0), 5, Size::new(10, 10));
    snake.set_next_direction(Direction::Up);
    let before = snake.segments();
    assert_eq!(snake.advance(&far_pickup()), Err(Collision::Border));
    assert_eq!(snake.segments(), before);
    assert_eq!(snake.direction(), Direction::Right);

    let mut snake = Snake::new(Point::new(1, 0), 2, Size::new(2, 1));
    assert_eq!(snake.advance(&far_pickup()), Err(Collision::Border));
    assert_eq!(cells(&snake), vec![(1, 0), (0, 0)]);
}

#[test]
fn advance_at_left_edge_moving_left_is_a_border_collision() {
    let mut snake = Snake::new(Point::new(1, 0), 2, Size::new(3, 3));
    snake.set_next_direction(Direction::Down);
    assert_eq!(snake.advance(&far_pickup()), Ok(NewCell::Empty));
    snake.set_next_direction(Direction::Left);
    assert_eq!(snake.advance(&far_pickup()), Ok(NewCell::Empty));
    assert_eq!(cells(&snake), vec![(0, 1), (1, 1)]);
    assert_eq!(snake.advance(&far_pickup()), Err(Collision::Border));
    assert_eq!(cells(&snake), vec![(0, 1), (1, 1)]);
}

#[test]
fn advance_into_body_is_a_body_collision() {
    let mut snake = Snake::new(Point::new(4, 0), 5, Size::new(10, 10));
    snake.set_next_direction(Direction::Down);
    assert_eq!(snake.advance(&far_pickup()), Ok(NewCell::Empty));
    snake.set_next_direction(Direction::Left);
    assert_eq!(snake.advance(&far_pickup()), Ok(NewCell::Empty));
    snake.set_next_direction(Direction::Up);
    let before = snake.segments();
    assert_eq!(snake.advance(&far_pickup()), Err(Collision::Body));
    assert_eq!(snake.segments(), before);
    assert_eq!(snake.direction(), Direction::Left);
}

#[test]
fn advance_into_the_vacating_tail_cell_succeeds() {
    let mut snake = Snake::new(Point::new(3, 0), 4, Size::new(10, 10));
    snake.set_next_direction(Direction::Down);
    assert_eq!(snake.advance(&far_pickup()), Ok(NewCell::Empty));
    snake.set_next_direction(Direction::Left);
    assert_eq!(snake.advance(&far_pickup()), Ok(NewCell::Empty));
    assert_eq!(cells(&snake), vec![(2, 1), (3, 1), (3, 0), (2, 0)]);
    snake.set_next_direction(Direction::Up);
    assert_eq!(snake.advance(&far_pickup()), Ok(NewCell::Empty));
    assert_eq!(cells(&snake), vec![(2, 0), (2, 1), (3, 1), (3, 0)]);
}

#[test]
fn reversing_straight_into_the_neck_is_a_body_collision() {
    let mut snake = Snake::new(Point::new(4, 0), 5, Size::new(10, 10));
    snake.set_next_direction(Direction::Left);
    assert_eq!(snake.advance(&far_pickup()), Err(Collision::Body));
}

#[test]
fn tail_faces_away_from_its_neighbour() {
    let mut snake = Snake::new(Point::new(2, 0), 3, Size::new(10, 10));
    snake.set_next_direction(Direction::Down);
    assert_eq!(snake.advance(&far_pickup()), Ok(NewCell::Empty));
    // tail (1,0) left of its neighbour (2,0)
    assert_eq!(snake.segments()[2].2, Direction::Right);
    assert_eq!(snake.advance(&far_pickup()), Ok(NewCell::Empty));
    // tail (2,0) above its neighbour (2,1)
    assert_eq!(snake.segments()[2], (Point::new(2, 0), BodyPartKind::Tail, Direction::Down));
    snake.set_next_direction(Direction::Left);
    assert_eq!(snake.advance(&far_pickup()), Ok(NewCell::Empty));
    assert_eq!(snake.advance(&far_pickup()), Ok(NewCell::Empty));
    // tail (2,2) right of its neighbour (1,2)
    assert_eq!(snake.segments()[2], (Point::new(2, 2), BodyPartKind::Tail, Direction::Left));
    snake.set_next_direction(Direction::Up);
    assert_eq!(snake.advance(&far_pickup()), Ok(NewCell::Empty));
    assert_eq!(snake.advance(&far_pickup()), Ok(NewCell::Empty));
    // tail (0,2) below its neighbour (0,1)
    assert_eq!(snake.segments()[2], (Point::new(0, 2), BodyPartKind::Tail, Direction::Up));
}

#[test]
fn heads_face_the_committed_direction() {
    let mut snake = Snake::new(Point::new(4, 4), 3, Size::new(10, 10));
    snake.set_next_direction(Direction::Up);
    assert_eq!(snake.direction(), Direction::Right);
    assert_eq!(snake.advance(&far_pickup()), Ok(NewCell::Empty));
    assert_eq!(snake.direction(), Direction::Up);
    assert_eq!(snake.segments()[0], (Point::new(4, 3), BodyPartKind::Head, Direction::Up));
    assert_eq!(snake.segments()[1], (Point::new(4, 4), BodyPartKind::Middle, Direction::Right));
}
