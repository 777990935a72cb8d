//! The mutable game state: the active piece and its position, the
//! two-piece lookahead queue, and the three gameplay timers.
//!
//! The lookahead queue is refilled with independent uniform draws over the
//! seven shapes (no seven-bag fairness), through the one randomness
//! wrapper of the crate.

use vstd::prelude::*;
use crate::tetromino::{Pos, Tetromino, TetrominoType};

verus! {

/// The per-session game state.  Timers are in integer milliseconds:
/// - `step_timer`: time since the last automatic downward step;
/// - `move_timer`: the absolute clock instant from which a held key may
///   repeat;
/// - `hit_bottom_timer`: how long the active piece has been unable to
///   descend.
#[derive(Clone, Copy, Debug)]
pub struct GameState {
    pub current_tetromino: Tetromino,
    pub next_tetromino: (TetrominoType, usize),
    pub next_tetromino2: (TetrominoType, usize),
    pub current_position: Pos,
    pub step_timer: u64,
    pub move_timer: u64,
    pub hit_bottom_timer: u64,
}

/// The shape drawn for sprite index `i`.
pub open spec fn type_of_index(i: int) -> TetrominoType {
    if i == 0 {
        TetrominoType::I
    } else if i == 1 {
        TetrominoType::J
    } else if i == 2 {
        TetrominoType::L
    } else if i == 3 {
        TetrominoType::O
    } else if i == 4 {
        TetrominoType::S
    } else if i == 5 {
        TetrominoType::T
    } else {
        TetrominoType::Z
    }
}

/// A lookahead entry is one of the seven shapes with its matching sprite
/// index.
pub open spec fn lookahead_wf(t: (TetrominoType, usize)) -> bool {
    t.1 < 7 && t.0 == type_of_index(t.1 as int)
}

impl GameState {
    /// Well-formedness: the active piece is valid, the lookahead entries
    /// are valid, and the piece position stays in the small window that
    /// legal moves can ever reach (the board plus the spawn buffer).
    pub open spec fn wf(self) -> bool {
        &&& self.current_tetromino.wf()
        &&& lookahead_wf(self.next_tetromino)
        &&& lookahead_wf(self.next_tetromino2)
        &&& -3 <= self.current_position.x <= 12
        &&& -3 <= self.current_position.y <= 19
    }
}

/// Relies on `rand::thread_rng` and `rand::Rng::gen_range`: a sample from
/// the non-empty range `0..7` lies within it.  Nothing else is assumed of
/// the draw.
#[verifier::external_body]
fn rand_index() -> (n: usize)
    ensures
        n < 7,
{
    rand::Rng::gen_range(&mut rand::thread_rng(), 0..7)
}

/// Draw one piece identity uniformly at random: a shape and its sprite
/// index.  Successive draws are independent; no seven-bag fairness is
/// provided.
pub fn get_rand_tetromino() -> (t: (TetrominoType, usize))
    ensures
        lookahead_wf(t),
{
    let num = rand_index();
    match num {
        0 => (TetrominoType::I, 0),
        1 => (TetrominoType::J, 1),
        2 => (TetrominoType::L, 2),
        3 => (TetrominoType::O, 3),
        4 => (TetrominoType::S, 4),
        5 => (TetrominoType::T, 5),
        _ => (TetrominoType::Z, 6),
    }
}

/// A fresh game state: a random active piece in rotation state 0 at the
/// spawn position, a freshly drawn two-piece lookahead, and all timers
/// at zero.
pub fn init_game_state() -> (s: GameState)
    ensures
        s.wf(),
        s.current_position == (Pos { x: 4, y: 18 }),
        s.current_tetromino.rotate == 0,
        s.step_timer == 0,
        s.move_timer == 0,
        s.hit_bottom_timer == 0,
{
    let t = get_rand_tetromino();
    GameState {
        current_tetromino: Tetromino::new(t.0, t.1),
        next_tetromino: get_rand_tetromino(),
        next_tetromino2: get_rand_tetromino(),
        current_position: Pos { x: 4, y: 18 },
        step_timer: 0,
        move_timer: 0,
        hit_bottom_timer: 0,
    }
}

} // verus!
