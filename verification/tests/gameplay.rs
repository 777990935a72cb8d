//! Tests of the line-clear engine and the game state machine.

use tetris_core::board::TileBoard;
use tetris_core::config::GameConfig;
use tetris_core::game_logic::{draw_piece, tick, AppState, Game, InputState};
use tetris_core::line_clear::{clear_lines, is_full_line};
use tetris_core::scene::{get_rand_tetromino, GameState, init_game_state};
use tetris_core::tetromino::{Pos, Tetromino, TetrominoType};

fn state_with(t: Tetromino, x: i32, y: i32) -> GameState {
    GameState {
        current_tetromino: t,
        next_tetromino: (TetrominoType::O, 3),
        next_tetromino2: (TetrominoType::J, 1),
        current_position: Pos { x, y },
        step_timer: 0,
        move_timer: 0,
        hit_bottom_timer: 0,
    }
}

fn game_with(state: GameState, board: TileBoard) -> Game {
    Game { phase: AppState::RUNNING, state, tile_board: board, elapsed: 0, next_block_id: 1000 }
}

fn fill_row(b: &mut TileBoard, y: u32, except: Option<u32>) {
    for x in 0..10 {
        if Some(x) != except {
            b.set(x, y, (1000 + y * 10 + x) as u64);
        }
    }
}

#[test]
fn test_lock_round_trip() {
    // locking a piece makes exactly its four cells occupied
    let mut b = TileBoard::new(10, 20);
    let s = state_with(Tetromino::new(TetrominoType::O, 3), 4, 0);
    draw_piece(&s, &mut b, 100);
    let mut occupied = 0;
    for y in 0..20 {
        for x in 0..10 {
            if b.entity_at(x, y).is_some() {
                occupied += 1;
            }
        }
    }
    assert_eq!(occupied, 4);
    assert!(b.occupied(4, 0) && b.occupied(5, 0) && b.occupied(4, 1) && b.occupied(5, 1));
    assert!(!b.occupied(3, 0) && !b.occupied(6, 0) && !b.occupied(4, 2));
    // the spawn buffer above the top is never occupied
    assert!(!b.occupied(4, 25));
    assert_eq!(b.entity_at(4, 0), Some(100));
    assert_eq!(b.entity_at(5, 0), Some(101));
    assert_eq!(b.entity_at(5, 1), Some(102));
    assert_eq!(b.entity_at(4, 1), Some(103));
}

#[test]
fn test_clear_lines_noop() {
    // clearing zero full rows leaves the board cell-for-cell identical
    let mut b = TileBoard::new(10, 20);
    b.set(0, 0, 1);
    b.set(9, 0, 2);
    b.set(3, 2, 3);
    let before: Vec<Option<u64>> = (0..20)
        .flat_map(|y| (0..10).map(move |x| (x, y)))
        .map(|(x, y)| b.entity_at(x, y))
        .collect();
    let s = state_with(Tetromino::new(TetrominoType::O, 3), 4, 0);
    clear_lines(&s, &mut b);
    let after: Vec<Option<u64>> = (0..20)
        .flat_map(|y| (0..10).map(move |x| (x, y)))
        .map(|(x, y)| b.entity_at(x, y))
        .collect();
    assert_eq!(before, after);
}

#[test]
fn test_clear_single_row_shifts_down() {
    // row 0 full except column 9; a vertical I locks into column 9
    let mut b = TileBoard::new(10, 20);
    fill_row(&mut b, 0, Some(9));
    b.set(0, 5, 77);
    let mut i = Tetromino::new(TetrominoType::I, 0);
    i.rotate_right();
    let s = state_with(i, 9, 0);
    draw_piece(&s, &mut b, 500);
    assert!(is_full_line(0, &b));
    clear_lines(&s, &mut b);
    // row 0 cleared; everything above dropped one row
    assert!(!is_full_line(0, &b));
    // the surviving I-piece blocks moved from rows 1..=3 to rows 0..=2
    assert_eq!(b.entity_at(9, 0), Some(502));
    assert_eq!(b.entity_at(9, 1), Some(501));
    assert_eq!(b.entity_at(9, 2), Some(500));
    assert!(b.entity_at(9, 3).is_none());
    // the marker in row 5 moved to row 4
    assert_eq!(b.entity_at(0, 4), Some(77));
    assert!(b.entity_at(0, 5).is_none());
    // the cleared cells of row 0 are gone
    for x in 0..9 {
        assert!(b.entity_at(x, 0).is_none());
    }
    // the top row is empty
    for x in 0..10 {
        assert!(b.entity_at(x, 19).is_none());
    }
}

#[test]
fn test_compaction_rows_two_and_five() {
    // rows 2 and 5 full, piece spanning rows 0..=3: clearing row 2 moves
    // every surviving block of rows 3..=19 down exactly one row
    let mut b = TileBoard::new(10, 20);
    fill_row(&mut b, 2, None);
    fill_row(&mut b, 5, None);
    b.set(7, 3, 41);
    b.set(2, 10, 42);
    let mut i = Tetromino::new(TetrominoType::I, 0);
    i.rotate_right();
    let s = state_with(i, 0, 0);
    clear_lines(&s, &mut b);
    // row 5 was outside the scan window: not cleared, only shifted
    assert!(is_full_line(4, &b));
    assert!(!is_full_line(5, &b));
    assert_eq!(b.entity_at(7, 2), Some(41));
    assert_eq!(b.entity_at(2, 9), Some(42));
    for x in 0..10 {
        assert!(b.entity_at(x, 19).is_none());
    }
}

#[test]
fn test_clear_non_contiguous_rows() {
    // rows 2 and 4 full but row 3 not: one pairing pass handles the gap
    let mut b = TileBoard::new(10, 20);
    fill_row(&mut b, 2, None);
    fill_row(&mut b, 4, None);
    b.set(5, 3, 31);
    b.set(6, 6, 61);
    let mut i = Tetromino::new(TetrominoType::I, 0);
    i.rotate_right();
    let s = state_with(i, 0, 1);
    clear_lines(&s, &mut b);
    // survivors from row 2 upward are rows 3, 5, 6, ...: row 3 lands on
    // row 2, row 5 on row 3, row 6 on row 4
    assert_eq!(b.entity_at(5, 2), Some(31));
    assert_eq!(b.entity_at(6, 4), Some(61));
    assert!(b.entity_at(5, 3).is_none());
    assert!(b.entity_at(6, 6).is_none());
}

#[test]
fn test_step_down_after_half_second() {
    // board empty, step_delay 500 ms, O piece at (4, 18): advancing the
    // clock 500 ms with no input moves the piece down one row and resets
    // the step timer
    let config = GameConfig::new();
    let s = state_with(Tetromino::new(TetrominoType::O, 3), 4, 18);
    let mut game = game_with(s, TileBoard::new(10, 20));
    tick(&mut game, &config, &InputState::released(), 500);
    assert_eq!(game.state.current_position, Pos { x: 4, y: 17 });
    assert_eq!(game.state.step_timer, 0);
    assert!(matches!(game.phase, AppState::RUNNING));
}

#[test]
fn test_frame_rate_independence() {
    // 1.0 s in one tick lands the piece exactly where 0.1 s over ten
    // ticks does, with the same residual step timer
    let config = GameConfig::new();
    let s = state_with(Tetromino::new(TetrominoType::T, 5), 4, 18);
    let mut one = game_with(s, TileBoard::new(10, 20));
    let mut many = game_with(s, TileBoard::new(10, 20));
    tick(&mut one, &config, &InputState::released(), 1000);
    for _ in 0..10 {
        tick(&mut many, &config, &InputState::released(), 100);
    }
    assert_eq!(one.state.current_position, many.state.current_position);
    assert_eq!(one.state.step_timer, many.state.step_timer);
}

#[test]
fn test_hard_drop_locks_and_clears() {
    // hard-dropping a vertical I into the last gap of row 0 clears it
    let mut b = TileBoard::new(10, 20);
    fill_row(&mut b, 0, Some(9));
    let config = GameConfig::new();
    let mut i = Tetromino::new(TetrominoType::I, 0);
    i.rotate_right();
    let s = state_with(i, 9, 10);
    let mut game = game_with(s, b);
    let mut input = InputState::released();
    input.drop.just_pressed = true;
    input.drop.held = true;
    tick(&mut game, &config, &input, 16);
    // the drop grounded the piece and credited a full lock interval, so
    // this very tick locked it, cleared row 0, and spawned the O piece
    assert!(matches!(game.phase, AppState::RUNNING));
    assert_eq!(game.state.current_position, Pos { x: 4, y: 18 });
    assert!(matches!(game.state.current_tetromino.tetromino_type, TetrominoType::O));
    assert!(!is_full_line(0, &game.tile_board));
    // the remaining three I blocks compacted to rows 0..=2 of column 9
    assert!(game.tile_board.entity_at(9, 0).is_some());
    assert!(game.tile_board.entity_at(9, 2).is_some());
    assert!(game.tile_board.entity_at(9, 3).is_none());
}

#[test]
fn test_left_right_and_rotate_inputs() {
    let config = GameConfig::new();
    let s = state_with(Tetromino::new(TetrominoType::T, 5), 4, 10);
    let mut game = game_with(s, TileBoard::new(10, 20));
    let mut input = InputState::released();
    input.left.just_pressed = true;
    tick(&mut game, &config, &input, 16);
    assert_eq!(game.state.current_position.x, 3);
    let mut input = InputState::released();
    input.right.just_pressed = true;
    tick(&mut game, &config, &input, 16);
    tick(&mut game, &config, &input, 16);
    assert_eq!(game.state.current_position.x, 5);
    let mut input = InputState::released();
    input.rotate_right.just_pressed = true;
    tick(&mut game, &config, &input, 16);
    assert_eq!(game.state.current_tetromino.rotate, 1);
    let mut input = InputState::released();
    input.rotate_left.just_pressed = true;
    tick(&mut game, &config, &input, 16);
    assert_eq!(game.state.current_tetromino.rotate, 0);
}

#[test]
fn test_key_repeat_cadence() {
    // a held key repeats only once its deadline has passed
    let config = GameConfig::new();
    let s = state_with(Tetromino::new(TetrominoType::O, 3), 4, 15);
    let mut game = game_with(s, TileBoard::new(10, 20));
    let mut press = InputState::released();
    press.left.just_pressed = true;
    press.left.held = true;
    tick(&mut game, &config, &press, 10);
    assert_eq!(game.state.current_position.x, 3);
    // still held, but within the first repeat delay of 150 ms: no move
    let mut hold = InputState::released();
    hold.left.held = true;
    tick(&mut game, &config, &hold, 50);
    assert_eq!(game.state.current_position.x, 3);
    // past the deadline: the held key repeats
    tick(&mut game, &config, &hold, 200);
    assert_eq!(game.state.current_position.x, 2);
}

#[test]
fn test_pause_and_resume() {
    let config = GameConfig::new();
    let s = state_with(Tetromino::new(TetrominoType::O, 3), 4, 15);
    let mut game = game_with(s, TileBoard::new(10, 20));
    let mut pause = InputState::released();
    pause.pause.just_pressed = true;
    tick(&mut game, &config, &pause, 16);
    assert!(matches!(game.phase, AppState::PAUSED));
    let pos = game.state.current_position;
    // while paused, nothing advances
    tick(&mut game, &config, &InputState::released(), 5000);
    assert!(matches!(game.phase, AppState::PAUSED));
    assert_eq!(game.state.current_position, pos);
    // the pause key resumes
    tick(&mut game, &config, &pause, 16);
    assert!(matches!(game.phase, AppState::RUNNING));
}

#[test]
fn test_spawn_blocked_dies_and_restart_revives() {
    // the spawn area is walled off, and the active piece locks at once:
    // the next spawn has no room, so the game dies; restart then clears
    // the board and returns to the running phase
    let config = GameConfig::new();
    let mut b = TileBoard::new(10, 20);
    fill_row(&mut b, 18, None);
    fill_row(&mut b, 19, None);
    let mut s = state_with(Tetromino::new(TetrominoType::O, 3), 4, 0);
    s.hit_bottom_timer = 500;
    let mut game = game_with(s, b);
    tick(&mut game, &config, &InputState::released(), 0);
    assert!(matches!(game.phase, AppState::DEAD));
    // inputs other than restart do nothing while dead
    tick(&mut game, &config, &InputState::released(), 1000);
    assert!(matches!(game.phase, AppState::DEAD));
    let mut restart = InputState::released();
    restart.restart.just_pressed = true;
    tick(&mut game, &config, &restart, 16);
    assert!(matches!(game.phase, AppState::RUNNING));
    assert_eq!(game.state.current_position, Pos { x: 4, y: 19 });
    assert!(game.tile_board.get_all_entitys().is_empty());
}

#[test]
fn test_get_rand_tetromino_range() {
    for _ in 0..100 {
        let (ty, idx) = get_rand_tetromino();
        assert!(idx < 7);
        let expected = match idx {
            0 => TetrominoType::I,
            1 => TetrominoType::J,
            2 => TetrominoType::L,
            3 => TetrominoType::O,
            4 => TetrominoType::S,
            5 => TetrominoType::T,
            _ => TetrominoType::Z,
        };
        assert_eq!(ty, expected);
    }
}

#[test]
fn test_init_game_state() {
    let s = init_game_state();
    assert_eq!(s.current_position, Pos { x: 4, y: 18 });
    assert_eq!(s.current_tetromino.rotate, 0);
    assert_eq!(s.step_timer, 0);
    assert_eq!(s.hit_bottom_timer, 0);
    assert!(s.next_tetromino.1 < 7);
    assert!(s.next_tetromino2.1 < 7);
}

#[test]
fn test_soft_drop_resets_timers() {
    // a successful manual downward move resets both the step timer and
    // the lock-delay timer
    let config = GameConfig::new();
    let mut s = state_with(Tetromino::new(TetrominoType::O, 3), 4, 10);
    s.step_timer = 300;
    s.hit_bottom_timer = 300;
    let mut game = game_with(s, TileBoard::new(10, 20));
    let mut input = InputState::released();
    input.down.just_pressed = true;
    tick(&mut game, &config, &input, 0);
    assert_eq!(game.state.current_position, Pos { x: 4, y: 9 });
    assert_eq!(game.state.step_timer, 0);
    assert_eq!(game.state.hit_bottom_timer, 0);
}

#[test]
fn test_spawn_promotes_lookahead() {
    // at lock, the first preview piece becomes active, the second moves
    // up, and a fresh draw fills the second slot
    let config = GameConfig::new();
    let mut s = state_with(Tetromino::new(TetrominoType::T, 5), 4, 0);
    s.next_tetromino = (TetrominoType::L, 2);
    s.next_tetromino2 = (TetrominoType::S, 4);
    s.hit_bottom_timer = 500;
    let mut game = game_with(s, TileBoard::new(10, 20));
    tick(&mut game, &config, &InputState::released(), 0);
    assert!(matches!(game.phase, AppState::RUNNING));
    assert!(matches!(game.state.current_tetromino.tetromino_type, TetrominoType::L));
    assert_eq!(game.state.current_tetromino.index, 2);
    assert_eq!(game.state.current_tetromino.rotate, 0);
    assert!(matches!(game.state.next_tetromino.0, TetrominoType::S));
    assert_eq!(game.state.next_tetromino.1, 4);
    assert!(game.state.next_tetromino2.1 < 7);
    assert_eq!(game.state.current_position, Pos { x: 4, y: 18 });
}
