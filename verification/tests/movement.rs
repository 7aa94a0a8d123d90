use snake_game::{Direction, Grid, Key, Snake, SnakePiece};

fn cells(points: &[(u32, u32)]) -> Vec<SnakePiece> {
    points.iter().map(|p| SnakePiece(p.0, p.1)).collect()
}

fn snake(points: &[(u32, u32)], dir: Direction) -> Snake {
    Snake::new(cells(points), dir).unwrap()
}

#[test]
fn grid_bounds_are_half_open() {
    let grid = Grid::new(10, 5);
    assert!(grid.in_bounds(SnakePiece(0, 0)));
    assert!(grid.in_bounds(SnakePiece(9, 4)));
    assert!(!grid.in_bounds(SnakePiece(10, 4)));
    assert!(!grid.in_bounds(SnakePiece(9, 5)));
    assert!(!grid.in_bounds(SnakePiece(u32::MAX, 0)));
}

#[test]
fn empty_grid_holds_no_cell() {
    assert!(!Grid::new(0, 5).in_bounds(SnakePiece(0, 0)));
    assert!(!Grid::new(5, 0).in_bounds(SnakePiece(0, 0)));
}

#[test]
fn snake_needs_a_cell() {
    assert!(Snake::new(Vec::new(), Direction::Still).is_none());
}

#[test]
fn new_snake_keeps_cells_and_heading() {
    let s = snake(&[(3, 3), (3, 4), (9, 9)], Direction::Left);
    assert_eq!(s.body(), cells(&[(3, 3), (3, 4), (9, 9)]));
    assert_eq!(s.head(), SnakePiece(3, 3));
    assert_eq!(s.dir(), Direction::Left);
}

#[test]
fn arrows_turn_a_resting_snake() {
    assert_eq!(Direction::Still.apply(Key::Up), Direction::Up);
    assert_eq!(Direction::Still.apply(Key::Down), Direction::Down);
    assert_eq!(Direction::Still.apply(Key::Left), Direction::Left);
    assert_eq!(Direction::Still.apply(Key::Right), Direction::Right);
    assert_eq!(Direction::Still.apply(Key::Other), Direction::Still);
}

#[test]
fn reversal_is_refused() {
    assert_eq!(Direction::Up.apply(Key::Down), Direction::Up);
    assert_eq!(Direction::Down.apply(Key::Up), Direction::Down);
    assert_eq!(Direction::Left.apply(Key::Right), Direction::Left);
    assert_eq!(Direction::Right.apply(Key::Left), Direction::Right);
}

#[test]
fn quarter_turns_and_repeats_are_taken() {
    assert_eq!(Direction::Up.apply(Key::Left), Direction::Left);
    assert_eq!(Direction::Up.apply(Key::Right), Direction::Right);
    assert_eq!(Direction::Up.apply(Key::Up), Direction::Up);
    assert_eq!(Direction::Left.apply(Key::Up), Direction::Up);
    assert_eq!(Direction::Left.apply(Key::Down), Direction::Down);
    assert_eq!(Direction::Right.apply(Key::Down), Direction::Down);
    assert_eq!(Direction::Down.apply(Key::Right), Direction::Right);
}

#[test]
fn no_key_reverses_any_heading() {
    let headings = [Direction::Up, Direction::Down, Direction::Left, Direction::Right];
    let reverse = [Direction::Down, Direction::Up, Direction::Right, Direction::Left];
    let keys = [Key::Up, Key::Down, Key::Left, Key::Right, Key::Other];
    for i in 0..4 {
        for key in keys {
            let next = headings[i].apply(key);
            assert_ne!(next, reverse[i]);
            assert_ne!(next, Direction::Still);
        }
    }
}

#[test]
fn other_keys_change_nothing() {
    let headings = [Direction::Up, Direction::Down, Direction::Left, Direction::Right];
    for h in headings {
        assert_eq!(h.apply(Key::Other), h);
    }
}

#[test]
fn step_moves_one_cell() {
    let c = SnakePiece(4, 7);
    assert_eq!(Direction::Up.step(c), Some(SnakePiece(4, 6)));
    assert_eq!(Direction::Down.step(c), Some(SnakePiece(4, 8)));
    assert_eq!(Direction::Left.step(c), Some(SnakePiece(3, 7)));
    assert_eq!(Direction::Right.step(c), Some(SnakePiece(5, 7)));
    assert_eq!(Direction::Still.step(c), Some(c));
}

#[test]
fn step_stops_at_the_ends_of_the_number_range() {
    assert_eq!(Direction::Up.step(SnakePiece(3, 0)), None);
    assert_eq!(Direction::Left.step(SnakePiece(0, 3)), None);
    assert_eq!(Direction::Right.step(SnakePiece(u32::MAX, 3)), None);
    assert_eq!(Direction::Down.step(SnakePiece(3, u32::MAX)), None);
}

#[test]
fn steer_turns_the_snake_only() {
    let mut s = snake(&[(2, 2), (1, 2)], Direction::Right);
    s.steer(Key::Left);
    assert_eq!(s.dir(), Direction::Right);
    s.steer(Key::Up);
    assert_eq!(s.dir(), Direction::Up);
    s.steer(Key::Other);
    assert_eq!(s.dir(), Direction::Up);
    assert_eq!(s.body(), cells(&[(2, 2), (1, 2)]));
}

#[test]
fn single_cell_slides_right() {
    let mut s = snake(&[(5, 5)], Direction::Right);
    assert!(s.update(false, 10, 10));
    assert_eq!(s.body(), cells(&[(6, 5)]));
    assert_eq!(s.dir(), Direction::Right);
}

#[test]
fn single_cell_grows_right() {
    let mut s = snake(&[(5, 5)], Direction::Right);
    assert!(s.update(true, 10, 10));
    assert_eq!(s.body(), cells(&[(6, 5), (5, 5)]));
}

#[test]
fn slide_moves_each_cell_back_by_one() {
    let mut s = snake(&[(3, 3), (3, 4), (3, 5)], Direction::Up);
    assert!(s.update(false, 10, 10));
    assert_eq!(s.body(), cells(&[(3, 2), (3, 3), (3, 4)]));
    s.steer(Key::Left);
    assert!(s.update(false, 10, 10));
    assert_eq!(s.body(), cells(&[(2, 2), (3, 2), (3, 3)]));
    s.steer(Key::Down);
    assert!(s.update(true, 10, 10));
    assert_eq!(s.body(), cells(&[(2, 3), (2, 2), (3, 2), (3, 3)]));
}

#[test]
fn length_stays_on_slide_and_grows_by_one_on_growth() {
    let mut s = snake(&[(4, 4), (4, 5), (4, 6)], Direction::Up);
    assert!(s.update(false, 10, 10));
    assert_eq!(s.body().len(), 3);
    assert!(s.update(true, 10, 10));
    assert_eq!(s.body().len(), 4);
    assert!(s.update(true, 10, 10));
    assert_eq!(s.body().len(), 5);
    assert!(s.update(false, 10, 10));
    assert_eq!(s.body().len(), 5);
}

#[test]
fn right_wall_kills_and_leaves_the_body() {
    let mut s = snake(&[(4, 2)], Direction::Right);
    assert!(!s.update(false, 5, 5));
    assert_eq!(s.body(), cells(&[(4, 2)]));
    assert_eq!(s.dir(), Direction::Right);
}

#[test]
fn left_wall_kills_and_leaves_the_body() {
    let mut s = snake(&[(0, 2), (1, 2), (2, 2)], Direction::Left);
    assert!(!s.update(false, 5, 5));
    assert_eq!(s.body(), cells(&[(0, 2), (1, 2), (2, 2)]));
    assert!(!s.update(true, 5, 5));
    assert_eq!(s.body(), cells(&[(0, 2), (1, 2), (2, 2)]));
}

#[test]
fn top_wall_kills_and_leaves_the_body() {
    let mut s = snake(&[(3, 0), (3, 1)], Direction::Up);
    assert!(!s.update(false, 5, 5));
    assert_eq!(s.body(), cells(&[(3, 0), (3, 1)]));
}

#[test]
fn bottom_wall_kills_and_leaves_the_body() {
    let mut s = snake(&[(3, 4), (3, 3)], Direction::Down);
    assert!(!s.update(false, 5, 5));
    assert_eq!(s.body(), cells(&[(3, 4), (3, 3)]));
}

#[test]
fn wall_is_not_masked_by_the_tail() {
    let mut s = snake(&[(4, 2), (3, 2)], Direction::Right);
    assert!(!s.update(false, 5, 5));
    assert_eq!(s.body(), cells(&[(4, 2), (3, 2)]));
}

#[test]
fn one_cell_before_the_wall_is_safe() {
    let mut s = snake(&[(3, 2)], Direction::Right);
    assert!(s.update(false, 5, 5));
    assert_eq!(s.body(), cells(&[(4, 2)]));
    assert!(!s.update(false, 5, 5));
    assert_eq!(s.body(), cells(&[(4, 2)]));
}

#[test]
fn a_dead_snake_stays_dead() {
    let mut s = snake(&[(0, 0)], Direction::Up);
    for _ in 0..3 {
        assert!(!s.update(false, 5, 5));
        assert_eq!(s.body(), cells(&[(0, 0)]));
    }
}

#[test]
fn widest_grid_has_a_wall_too() {
    let mut s = snake(&[(u32::MAX - 1, 0)], Direction::Right);
    assert!(!s.update(false, u32::MAX, 1));
    assert_eq!(s.body(), cells(&[(u32::MAX - 1, 0)]));
    let mut t = snake(&[(u32::MAX, 0)], Direction::Right);
    assert!(!t.update(false, u32::MAX, 1));
    assert_eq!(t.body(), cells(&[(u32::MAX, 0)]));
}

#[test]
fn nothing_lives_on_an_empty_grid() {
    let mut s = snake(&[(0, 0)], Direction::Still);
    assert!(!s.update(false, 0, 0));
    assert!(!s.update(false, 0, 5));
    assert!(!s.update(false, 5, 0));
    assert_eq!(s.body(), cells(&[(0, 0)]));
}

#[test]
fn head_off_the_grid_may_step_onto_it() {
    let mut s = snake(&[(5, 2)], Direction::Left);
    assert!(s.update(false, 5, 5));
    assert_eq!(s.body(), cells(&[(4, 2)]));
}

#[test]
fn head_off_the_grid_dies_where_it_stays_off() {
    let mut s = snake(&[(7, 2)], Direction::Left);
    assert!(!s.update(false, 5, 5));
    assert_eq!(s.body(), cells(&[(7, 2)]));
}

#[test]
fn running_into_the_body_kills_and_leaves_the_body() {
    let body = [(1, 1), (1, 2), (2, 2), (2, 1), (3, 1)];
    let mut s = snake(&body, Direction::Right);
    assert!(!s.update(false, 10, 10));
    assert_eq!(s.body(), cells(&body));
    assert!(!s.update(true, 10, 10));
    assert_eq!(s.body(), cells(&body));
}

#[test]
fn sliding_snake_follows_its_tail() {
    let mut s = snake(&[(1, 1), (1, 2), (2, 2), (2, 1)], Direction::Right);
    assert!(s.update(false, 10, 10));
    assert_eq!(s.body(), cells(&[(2, 1), (1, 1), (1, 2), (2, 2)]));
}

#[test]
fn growing_snake_runs_into_its_tail() {
    let body = [(1, 1), (1, 2), (2, 2), (2, 1)];
    let mut s = snake(&body, Direction::Right);
    assert!(!s.update(true, 10, 10));
    assert_eq!(s.body(), cells(&body));
}

#[test]
fn two_cells_swap_when_the_head_turns_back_on_the_tail() {
    let mut s = snake(&[(1, 1), (2, 1)], Direction::Right);
    assert!(s.update(false, 10, 10));
    assert_eq!(s.body(), cells(&[(2, 1), (1, 1)]));
}

#[test]
fn resting_single_cell_stays_alive_in_place() {
    let mut s = snake(&[(5, 5)], Direction::Still);
    assert!(s.update(false, 10, 10));
    assert_eq!(s.body(), cells(&[(5, 5)]));
}

#[test]
fn resting_snake_that_grows_lies_on_itself() {
    let mut s = snake(&[(5, 5)], Direction::Still);
    assert!(!s.update(true, 10, 10));
    assert_eq!(s.body(), cells(&[(5, 5)]));
}

#[test]
fn resting_snake_of_two_cells_lies_on_itself() {
    let mut s = snake(&[(5, 5), (5, 6)], Direction::Still);
    assert!(!s.update(false, 10, 10));
    assert_eq!(s.body(), cells(&[(5, 5), (5, 6)]));
}

#[test]
fn is_collide_finds_every_cell_of_the_body() {
    let s = snake(&[(1, 1), (1, 2), (2, 2)], Direction::Still);
    assert!(s.is_collide(1, 1));
    assert!(s.is_collide(1, 2));
    assert!(s.is_collide(2, 2));
    assert!(!s.is_collide(2, 1));
    assert!(!s.is_collide(0, 0));
}

#[test]
fn first_free_reads_row_by_row() {
    let grid = Grid::new(3, 2);
    let s = snake(&[(0, 0), (1, 0), (0, 1)], Direction::Still);
    assert_eq!(s.first_free(&grid), Some(SnakePiece(2, 0)));
    let t = snake(&[(2, 0), (0, 0), (1, 0)], Direction::Still);
    assert_eq!(t.first_free(&grid), Some(SnakePiece(0, 1)));
    let u = snake(&[(1, 1)], Direction::Still);
    assert_eq!(u.first_free(&grid), Some(SnakePiece(0, 0)));
}

#[test]
fn first_free_finds_nothing_on_a_full_grid() {
    let grid = Grid::new(2, 2);
    let s = snake(&[(0, 0), (1, 0), (1, 1), (0, 1)], Direction::Still);
    assert_eq!(s.first_free(&grid), None);
    assert_eq!(s.first_free(&Grid::new(0, 0)), None);
}

fn neighbours(a: SnakePiece, b: SnakePiece) -> bool {
    let dx = if a.0 > b.0 { a.0 - b.0 } else { b.0 - a.0 };
    let dy = if a.1 > b.1 { a.1 - b.1 } else { b.1 - a.1 };
    dx + dy == 1
}

#[test]
fn a_chain_stays_a_chain_and_on_the_grid() {
    let grid = Grid::new(6, 6);
    let mut s = snake(&[(2, 2), (1, 2), (0, 2)], Direction::Right);
    let keys = [Key::Other, Key::Down, Key::Down, Key::Left, Key::Up, Key::Left, Key::Left];
    let grows = [false, true, false, false, true, false, false];
    for (key, grow) in keys.iter().zip(grows.iter()) {
        s.steer(*key);
        assert!(s.update(*grow, grid.cols, grid.rows));
        let body = s.body();
        for i in 0..body.len() {
            assert!(grid.in_bounds(body[i]));
            if i + 1 < body.len() {
                assert!(neighbours(body[i], body[i + 1]));
            }
        }
    }
    assert_eq!(
        s.body(),
        cells(&[(0, 3), (1, 3), (2, 3), (2, 4), (3, 4)])
    );
}

#[test]
fn the_new_head_is_the_cell_in_front() {
    let mut s = snake(&[(9, 9), (0, 0), (4, 4)], Direction::Up);
    assert!(s.update(false, 20, 20));
    assert_eq!(s.body(), cells(&[(9, 8), (9, 9), (0, 0)]));
    assert_eq!(s.head(), SnakePiece(9, 8));
}
