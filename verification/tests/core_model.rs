//! Tests of the tetromino geometry, the board, and the collision rules.

use tetris_core::board::TileBoard;
use tetris_core::collision::{
    can_move_down, can_move_left, can_move_right, can_rotate_left, can_rotate_right,
};
use tetris_core::scene::GameState;
use tetris_core::tetromino::{Pos, Tetromino, TetrominoType};

fn all_types() -> Vec<TetrominoType> {
    vec![
        TetrominoType::I,
        TetrominoType::J,
        TetrominoType::L,
        TetrominoType::O,
        TetrominoType::S,
        TetrominoType::T,
        TetrominoType::Z,
    ]
}

fn state_with(t: Tetromino, x: i32, y: i32) -> GameState {
    GameState {
        current_tetromino: t,
        next_tetromino: (TetrominoType::I, 0),
        next_tetromino2: (TetrominoType::J, 1),
        current_position: Pos { x, y },
        step_timer: 0,
        move_timer: 0,
        hit_bottom_timer: 0,
    }
}

#[test]
fn test_cell_tables() {
    let t = Tetromino::new(TetrominoType::I, 0);
    assert_eq!(
        t.get_position(),
        vec![
            Pos { x: -1, y: 1 },
            Pos { x: 0, y: 1 },
            Pos { x: 1, y: 1 },
            Pos { x: 2, y: 1 }
        ]
    );
    let o = Tetromino::new(TetrominoType::O, 3);
    assert_eq!(
        o.get_position2(2),
        vec![
            Pos { x: 1, y: 1 },
            Pos { x: 0, y: 1 },
            Pos { x: 0, y: 0 },
            Pos { x: 1, y: 0 }
        ]
    );
}

#[test]
fn test_extremal_examples() {
    // vertical I: a single down-most cell, the whole column left and right
    let mut i = Tetromino::new(TetrominoType::I, 0);
    i.rotate_right();
    assert_eq!(i.down_most_position(), vec![Pos { x: 0, y: 0 }]);
    assert_eq!(i.left_most_position().len(), 4);
    assert_eq!(i.right_most_position().len(), 4);

    // T pointing up: three down-most cells, two left-most cells
    let t = Tetromino::new(TetrominoType::T, 5);
    let down = t.down_most_position();
    assert_eq!(down, vec![Pos { x: 1, y: 0 }, Pos { x: 0, y: 0 }, Pos { x: -1, y: 0 }]);
    let left = t.left_most_position();
    assert_eq!(left, vec![Pos { x: 0, y: 1 }, Pos { x: -1, y: 0 }]);
    let right = t.right_most_position();
    assert_eq!(right, vec![Pos { x: 0, y: 1 }, Pos { x: 1, y: 0 }]);
}

#[test]
fn test_extremal_one_per_column_and_row() {
    // for every shape and rotation state: one down-most cell per occupied
    // column, one left-most and one right-most cell per occupied row, all
    // within the footprint
    for ty in all_types() {
        let mut t = Tetromino::new(ty, 0);
        for _rot in 0..4 {
            let cells = t.get_position();
            let down = t.down_most_position();
            let left = t.left_most_position();
            let right = t.right_most_position();
            for c in &cells {
                assert_eq!(down.iter().filter(|d| d.x == c.x).count(), 1);
                assert_eq!(left.iter().filter(|l| l.y == c.y).count(), 1);
                assert_eq!(right.iter().filter(|r| r.y == c.y).count(), 1);
            }
            for d in &down {
                assert!(cells.contains(d));
                assert!(cells.iter().all(|c| c.x != d.x || d.y <= c.y));
            }
            for l in &left {
                assert!(cells.contains(l));
                assert!(cells.iter().all(|c| c.y != l.y || l.x <= c.x));
            }
            for r in &right {
                assert!(cells.contains(r));
                assert!(cells.iter().all(|c| c.y != r.y || r.x >= c.x));
            }
            t.rotate_right();
        }
    }
}

#[test]
fn test_rotation_cycle() {
    for ty in all_types() {
        let t0 = Tetromino::new(ty, 2);
        let mut t = t0;
        for _ in 0..4 {
            t.rotate_right();
        }
        assert_eq!(t, t0);
        assert_eq!(t.get_position(), t0.get_position());
        for _ in 0..4 {
            t.rotate_left();
        }
        assert_eq!(t, t0);
    }
}

#[test]
fn test_board_set_remove() {
    let mut b = TileBoard::new(10, 20);
    assert!(b.entity_at(3, 7).is_none());
    b.set(3, 7, 42);
    assert_eq!(b.entity_at(3, 7), Some(42));
    let taken = b.remove(3, 7);
    assert_eq!(taken, Some(42));
    assert!(b.entity_at(3, 7).is_none());
}

#[test]
fn test_board_swap_preserves_identity() {
    let mut b = TileBoard::new(10, 20);
    b.set(2, 5, 7);
    let moved = b.swap_tile((2, 5), (2, 1));
    assert_eq!(moved, 7);
    assert_eq!(b.entity_at(2, 1), Some(7));
    assert!(b.entity_at(2, 5).is_none());
}

#[test]
fn test_board_clear_and_get_all() {
    let mut b = TileBoard::new(10, 20);
    b.set(0, 0, 1);
    b.set(9, 19, 2);
    b.set(5, 10, 3);
    let all = b.get_all_entitys();
    assert_eq!(all, vec![1, 3, 2]);
    b.clear();
    assert!(b.get_all_entitys().is_empty());
}

#[test]
fn test_can_move_down_boundary() {
    let b = TileBoard::new(10, 20);
    let o = Tetromino::new(TetrominoType::O, 3);
    // down-most cells on row 0: blocked by the floor
    let grounded = state_with(o, 4, 0);
    assert!(!can_move_down(&grounded, &b));
    // one row above the floor: free
    let above = state_with(o, 4, 1);
    assert!(can_move_down(&above, &b));
    // abutting an occupied cell
    let mut b2 = TileBoard::new(10, 20);
    b2.set(4, 4, 9);
    let over_block = state_with(o, 4, 5);
    assert!(!can_move_down(&over_block, &b2));
    let beside_block = state_with(o, 5, 5);
    assert!(can_move_down(&beside_block, &b2));
}

#[test]
fn test_can_move_left_right_walls() {
    let b = TileBoard::new(10, 20);
    let o = Tetromino::new(TetrominoType::O, 3);
    // O occupies columns x and x+1
    let at_left_wall = state_with(o, 0, 5);
    assert!(!can_move_left(&at_left_wall, &b));
    assert!(can_move_right(&at_left_wall, &b));
    let at_right_wall = state_with(o, 8, 5);
    assert!(can_move_left(&at_right_wall, &b));
    assert!(!can_move_right(&at_right_wall, &b));
}

#[test]
fn test_can_move_in_spawn_buffer() {
    // pieces may exist and move freely above the visible top
    let b = TileBoard::new(10, 20);
    let o = Tetromino::new(TetrominoType::O, 3);
    let high = state_with(o, 4, 25);
    assert!(can_move_down(&high, &b));
    assert!(can_move_left(&high, &b));
    assert!(can_move_right(&high, &b));
}

#[test]
fn test_can_rotate() {
    let b = TileBoard::new(10, 20);
    // vertical I against the left wall: rotating to horizontal needs
    // columns -1..=2 around the origin, so it is rejected at x = 0
    let mut i = Tetromino::new(TetrominoType::I, 0);
    i.rotate_right();
    let at_wall = state_with(i, 0, 5);
    assert!(!can_rotate_left(&at_wall, &b));
    assert!(!can_rotate_right(&at_wall, &b));
    let mid = state_with(i, 4, 5);
    assert!(can_rotate_left(&mid, &b));
    assert!(can_rotate_right(&mid, &b));
    // O rotations never occupy new cells, so they are always legal
    let o = state_with(Tetromino::new(TetrominoType::O, 3), 0, 0);
    assert!(can_rotate_left(&o, &b));
    assert!(can_rotate_right(&o, &b));
}
