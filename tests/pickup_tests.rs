use snake::game::pickup::{find_non_occupied_cell, find_nth_free_cell, Pickup, PickupKind};
use snake::point::Point;
use snake::size::Size;

fn points(cells: &[(i32, i32)]) -> Vec<Point> {
    cells.iter().map(|&(x, y)| Point::new(x, y)).collect()
}

#[test]
fn test_find_non_occupied_cell() {
    let cells = points(&[(0, 0), (1, 0), (1, 1)]);
    assert_eq!(
        find_non_occupied_cell(Size::new(2, 2), &cells),
        Some((0_i32, 1_i32).into())
    );

    let cells = points(&[(0, 0), (1, 0), (0, 1)]);
    assert_eq!(find_non_occupied_cell(Size::new(2, 2), &cells), Some((1, 1).into()));

    let cells = points(&[(0, 0), (1, 0), (0, 1), (1, 1)]);
    assert_eq!(find_non_occupied_cell(Size::new(2, 2), &cells), None);
}

#[test]
fn nth_free_cell_scans_row_major_and_skips_occupied() {
    let occupied = points(&[(1, 0), (0, 1)]);
    let size = Size::new(3, 2);
    assert_eq!(find_nth_free_cell(size, &occupied, 0), Some(Point::new(0, 0)));
    assert_eq!(find_nth_free_cell(size, &occupied, 1), Some(Point::new(2, 0)));
    assert_eq!(find_nth_free_cell(size, &occupied, 2), Some(Point::new(1, 1)));
    assert_eq!(find_nth_free_cell(size, &occupied, 3), Some(Point::new(2, 1)));
    assert_eq!(find_nth_free_cell(size, &occupied, 4), None);
}

#[test]
fn nth_free_cell_on_empty_field_is_the_row_major_index() {
    let size = Size::new(4, 3);
    assert_eq!(find_nth_free_cell(size, &[], 0), Some(Point::new(0, 0)));
    assert_eq!(find_nth_free_cell(size, &[], 5), Some(Point::new(1, 1)));
    assert_eq!(find_nth_free_cell(size, &[], 11), Some(Point::new(3, 2)));
    assert_eq!(find_nth_free_cell(size, &[], 12), None);
}

#[test]
fn nth_free_cell_on_zero_area_field_is_none() {
    assert_eq!(find_nth_free_cell(Size::new(0, 5), &[], 0), None);
    assert_eq!(find_nth_free_cell(Size::new(5, 0), &[], 0), None);
}

#[test]
fn placement_never_lands_on_occupied_cells_and_stays_in_bounds() {
    let occupied = points(&[(0, 0), (1, 0), (2, 0), (2, 1), (0, 2)]);
    let size = Size::new(3, 3);
    for _ in 0..500 {
        let p = find_non_occupied_cell(size, &occupied).expect("field has free cells");
        assert!(p.x >= 0 && p.x < 3 && p.y >= 0 && p.y < 3);
        assert!(!occupied.contains(&p));
    }
}

#[test]
fn placement_is_uniform_over_free_cells() {
    let occupied = points(&[(0, 0), (1, 1), (2, 2)]);
    let size = Size::new(3, 3);
    let free = [(1, 0), (2, 0), (0, 1), (2, 1), (0, 2), (1, 2)];
    let mut counts = [0u32; 6];
    let trials = 6000;
    for _ in 0..trials {
        let p = find_non_occupied_cell(size, &occupied).expect("field has free cells");
        let k = free
            .iter()
            .position(|&(x, y)| x == p.x && y == p.y)
            .expect("result is a free cell");
        counts[k] += 1;
    }
    let expected = trials as f64 / 6.0;
    let chi_square: f64 = counts
        .iter()
        .map(|&c| {
            let d = c as f64 - expected;
            d * d / expected
        })
        .sum();
    // five degrees of freedom: 30 lies far beyond the 0.001 quantile (about 20.5)
    assert!(chi_square < 30.0, "chi square {} for counts {:?}", chi_square, counts);
}

#[test]
fn placement_on_full_field_is_none() {
    let occupied = points(&[(0, 0), (1, 0), (2, 0)]);
    assert_eq!(find_non_occupied_cell(Size::new(3, 1), &occupied), None);
    assert_eq!(find_non_occupied_cell(Size::new(0, 0), &[]), None);
    assert!(Pickup::new_cherry(Size::new(3, 1), &occupied).is_none());
    assert!(Pickup::new_apple(Size::new(3, 1), &occupied).is_none());
}

#[test]
fn single_free_cell_is_always_chosen() {
    let occupied = points(&[(0, 0), (2, 0), (0, 1), (1, 1), (2, 1)]);
    for _ in 0..50 {
        assert_eq!(
            find_non_occupied_cell(Size::new(3, 2), &occupied),
            Some(Point::new(1, 0))
        );
    }
}

#[test]
fn pickups_carry_their_kind_and_a_free_position() {
    let occupied = points(&[(0, 0), (1, 0), (2, 0)]);
    let cherry = Pickup::new_cherry(Size::new(4, 1), &occupied).expect("one free cell");
    assert_eq!(cherry.pickup_kind, PickupKind::Cherry);
    assert_eq!(cherry.position, Point::new(3, 0));
    let apple = Pickup::new_apple(Size::new(4, 1), &occupied).expect("one free cell");
    assert_eq!(apple.pickup_kind, PickupKind::Apple);
    assert_eq!(apple.position, Point::new(3, 0));
}
