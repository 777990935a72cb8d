//! The game state machine: automatic descent, key handling with two-tier
//! repeat, lock delay, spawning, line clearing and the three phases
//! (running, paused, dead), orchestrated by a single deterministic tick.
//!
//! The tick takes the per-frame input snapshot and the elapsed time and
//! advances the whole game state; nothing else mutates it.  Time is in
//! integer milliseconds, and timer additions saturate at the top of the
//! range, so every operation is total.

use vstd::prelude::*;
use crate::board::TileBoard;
use crate::collision::{
    can_move_down, can_move_down_spec, can_move_left, can_move_left_spec, can_move_right,
    can_move_right_spec, can_rotate_left, can_rotate_right, can_rotate_spec, cell_free,
    placement_free, placement_free_spec,
};
use crate::config::GameConfig;
use crate::line_clear::{clear_lines, clear_lines_spec, lowest_y_spec};
use crate::scene::{lookahead_wf, GameState, get_rand_tetromino};
use crate::tetromino::{
    down_most_spec, lemma_extremal_bounds, lemma_extremal_nonempty, lemma_piece_cells_props,
    rot_ccw, rot_cw, Dir, Pos, Tetromino, TetrominoType,
};

verus! {

/// The three phases of a session.  `RUNNING` is the initial phase;
/// `PAUSED` is entered and left through the pause key; `DEAD` is entered
/// when a freshly spawned piece has no room, and left through the restart
/// key.
#[allow(non_camel_case_types)]
#[derive(Clone, Copy, PartialEq, Eq, Structural, Debug)]
pub enum AppState {
    RUNNING,
    PAUSED,
    DEAD,
}

/// The per-tick snapshot of one logical key: whether it was pressed this
/// very tick, and whether it is currently held (a key just pressed is
/// also held).
#[derive(Clone, Copy, PartialEq, Eq, Structural, Debug)]
pub struct KeyState {
    pub just_pressed: bool,
    pub held: bool,
}

/// The per-tick snapshot of all eight logical actions, decoupled from any
/// keyboard encoding.
#[derive(Clone, Copy, PartialEq, Eq, Structural, Debug)]
pub struct InputState {
    pub left: KeyState,
    pub right: KeyState,
    pub down: KeyState,
    pub drop: KeyState,
    pub rotate_left: KeyState,
    pub rotate_right: KeyState,
    pub pause: KeyState,
    pub restart: KeyState,
}

impl KeyState {
    /// A key that is neither pressed nor held.
    pub fn released() -> (k: KeyState)
        ensures
            k == (KeyState { just_pressed: false, held: false }),
    {
        KeyState { just_pressed: false, held: false }
    }
}

impl InputState {
    /// A snapshot with no action active.
    pub fn released() -> (inp: InputState)
        ensures
            inp == (InputState {
                left: KeyState { just_pressed: false, held: false },
                right: KeyState { just_pressed: false, held: false },
                down: KeyState { just_pressed: false, held: false },
                drop: KeyState { just_pressed: false, held: false },
                rotate_left: KeyState { just_pressed: false, held: false },
                rotate_right: KeyState { just_pressed: false, held: false },
                pause: KeyState { just_pressed: false, held: false },
                restart: KeyState { just_pressed: false, held: false },
            }),
    {
        InputState {
            left: KeyState::released(),
            right: KeyState::released(),
            down: KeyState::released(),
            drop: KeyState::released(),
            rotate_left: KeyState::released(),
            rotate_right: KeyState::released(),
            pause: KeyState::released(),
            restart: KeyState::released(),
        }
    }
}

/// Addition on the millisecond clock, saturating at the top of `u64`.
pub open spec fn sat_add_spec(a: u64, b: u64) -> u64 {
    if a + b > u64::MAX {
        u64::MAX
    } else {
        (a + b) as u64
    }
}

/// Saturating addition on the millisecond clock.
pub fn sat_add(a: u64, b: u64) -> (r: u64)
    ensures
        r == sat_add_spec(a, b),
{
    if a <= u64::MAX - b {
        a + b
    } else {
        u64::MAX
    }
}

/// Advancing the two elapsed-time timers by one frame delta.
pub open spec fn update_timer_spec(s: GameState, dt: u64) -> GameState {
    GameState {
        step_timer: sat_add_spec(s.step_timer, dt),
        hit_bottom_timer: sat_add_spec(s.hit_bottom_timer, dt),
        ..s
    }
}

/// Advance `step_timer` and `hit_bottom_timer` by the frame delta.
pub fn update_timer(state: &mut GameState, dt: u64)
    requires
        old(state).wf(),
    ensures
        *final (state) == update_timer_spec(*old(state), dt),
        final (state).wf(),
{
    state.step_timer = sat_add(state.step_timer, dt);
    state.hit_bottom_timer = sat_add(state.hit_bottom_timer, dt);
}

/// Automatic descent: as long as a full step interval has elapsed and the
/// piece can still descend, move it down one row and consume one interval.
/// Descending resets the lock-delay timer.  Consuming whole intervals
/// (rather than zeroing the timer) makes the descent independent of how
/// the elapsed time was divided into ticks.
pub open spec fn step_down_spec(s: GameState, config: GameConfig, b: TileBoard) -> GameState
    decreases s.step_timer,
{
    if config.step_delay > 0 && s.step_timer >= config.step_delay && can_move_down_spec(s, b) {
        step_down_spec(
            GameState {
                current_position: Pos {
                    x: s.current_position.x,
                    y: (s.current_position.y - 1) as i32,
                },
                step_timer: (s.step_timer - config.step_delay) as u64,
                hit_bottom_timer: 0,
                ..s
            },
            config,
            b,
        )
    } else {
        s
    }
}

/// A legal downward move keeps the piece position inside the window that
/// the state well-formedness demands.
proof fn lemma_down_move_wf(s: GameState, b: TileBoard)
    requires
        s.wf(),
        b.wf(),
        can_move_down_spec(s, b),
    ensures
        s.current_position.y >= -2,
{
    let cells = s.current_tetromino.cells();
    let dm = down_most_spec(cells);
    lemma_piece_cells_props(s.current_tetromino.tetromino_type, s.current_tetromino.rotate as int);
    lemma_extremal_bounds(cells, Dir::Down);
    lemma_extremal_nonempty(cells, Dir::Down);
    assert(cell_free(b, dm[0].x + s.current_position.x, dm[0].y + s.current_position.y - 1));
}

/// Apply the automatic descent that the elapsed step intervals allow.
pub fn step_down(state: &mut GameState, config: &GameConfig, tile_board: &TileBoard)
    requires
        old(state).wf(),
        config.wf(),
        tile_board.wf(),
    ensures
        *final (state) == step_down_spec(*old(state), *config, *tile_board),
        final (state).wf(),
{
    let mut cont = state.step_timer >= config.step_delay && can_move_down(state, tile_board);
    while cont
        invariant
            state.wf(),
            config.wf(),
            tile_board.wf(),
            cont == (state.step_timer >= config.step_delay && can_move_down_spec(
                *state,
                *tile_board,
            )),
            step_down_spec(*old(state), *config, *tile_board) == step_down_spec(
                *state,
                *config,
                *tile_board,
            ),
        decreases state.step_timer,
    {
        proof {
            lemma_down_move_wf(*state, *tile_board);
        }
        state.current_position = Pos { x: state.current_position.x, y: state.current_position.y
            - 1 };
        state.step_timer = state.step_timer - config.step_delay;
        state.hit_bottom_timer = 0;
        cont = state.step_timer >= config.step_delay && can_move_down(state, tile_board);
    }
}

/// The lock condition: the piece cannot descend and has been grounded for
/// a full step interval.
pub open spec fn hit_bottom_spec(s: GameState, b: TileBoard, config: GameConfig) -> bool {
    !can_move_down_spec(s, b) && s.hit_bottom_timer >= config.step_delay
}

/// Whether the active piece has hit bottom and its lock delay has elapsed.
pub fn hit_bottom(state: &GameState, tile_board: &TileBoard, config: &GameConfig) -> (r: bool)
    requires
        state.wf(),
        tile_board.wf(),
    ensures
        r == hit_bottom_spec(*state, *tile_board, *config),
{
    !can_move_down(state, tile_board) && state.hit_bottom_timer >= config.step_delay
}

/// The grid after committing `cells[..n]`, offset by `base`, with block
/// identities `id0`, `id0 + 1`, ...; cells outside the playable region are
/// skipped.
pub open spec fn draw_rec(
    b: Seq<Option<u64>>,
    cells: Seq<Pos>,
    base: Pos,
    id0: u64,
    n: int,
) -> Seq<Option<u64>>
    decreases n,
{
    if n <= 0 {
        b
    } else {
        let b1 = draw_rec(b, cells, base, id0, n - 1);
        let tx = cells[n - 1].x + base.x;
        let ty = cells[n - 1].y + base.y;
        if 0 <= tx < 10 && 0 <= ty < 20 {
            b1.update(ty * 10 + tx, Some((id0 + n - 1) as u64))
        } else {
            b1
        }
    }
}

/// Commit the active piece's cells into the board, giving each block a
/// fresh identity.  Cells above the visible top are not stored.
pub fn draw_piece(state: &GameState, tile_board: &mut TileBoard, first_id: u64)
    requires
        state.wf(),
        old(tile_board).wf(),
        first_id <= u64::MAX - 4,
    ensures
        final (tile_board).wf(),
        final (tile_board).width == old(tile_board).width,
        final (tile_board).height == old(tile_board).height,
        final (tile_board).tile_map@ == draw_rec(
            old(tile_board).tile_map@,
            state.current_tetromino.cells(),
            state.current_position,
            first_id,
            4,
        ),
{
    let cells = state.current_tetromino.get_position();
    proof {
        lemma_piece_cells_props(
            state.current_tetromino.tetromino_type,
            state.current_tetromino.rotate as int,
        );
    }
    let ghost b0 = tile_board.tile_map@;
    let mut k: usize = 0;
    while k < cells.len()
        invariant
            state.wf(),
            tile_board.wf(),
            tile_board.width == old(tile_board).width,
            tile_board.height == old(tile_board).height,
            0 <= k <= cells@.len(),
            cells@ == state.current_tetromino.cells(),
            cells@.len() == 4,
            forall|i: int|
                0 <= i < cells@.len() ==> -2 <= (#[trigger] cells@[i]).x <= 2 && 0 <= cells@[i].y
                    <= 3,
            first_id <= u64::MAX - 4,
            b0 == old(tile_board).tile_map@,
            tile_board.tile_map@ == draw_rec(
                b0,
                cells@,
                state.current_position,
                first_id,
                k as int,
            ),
        decreases cells@.len() - k,
    {
        let c = cells[k];
        let tx = c.x + state.current_position.x;
        let ty = c.y + state.current_position.y;
        if 0 <= tx && tx <= 9 && 0 <= ty && ty <= 19 {
            tile_board.set(tx as u32, ty as u32, first_id + k as u64);
        }
        k += 1;
    }
}

/// Law (lock round trip): committing a piece whose footprint lies inside
/// the playable region makes exactly its four cells occupied, with the
/// fresh identities, and leaves every other cell as it was.  On cells the
/// piece does not cover, `occupied` answers as before the lock.
pub proof fn lemma_lock_round_trip(
    b: Seq<Option<u64>>,
    cells: Seq<Pos>,
    base: Pos,
    id0: u64,
    n: int,
)
    requires
        b.len() == 200,
        0 <= n <= cells.len(),
        cells.no_duplicates(),
    ensures
        draw_rec(b, cells, base, id0, n).len() == 200,
        forall|k: int|
            0 <= k < n && 0 <= cells[k].x + base.x < 10 && 0 <= cells[k].y + base.y < 20
                ==> #[trigger] draw_rec(b, cells, base, id0, n)[(cells[k].y + base.y) * 10 + (
            cells[k].x + base.x)] == Some((id0 + k) as u64),
        forall|c: int|
            0 <= c < 200 && (forall|k: int|
                0 <= k < n ==> !((#[trigger] cells[k]).y + base.y == c / 10 && cells[k].x + base.x
                    == c % 10)) ==> #[trigger] draw_rec(b, cells, base, id0, n)[c] == b[c],
    decreases n,
{
    if n > 0 {
        lemma_lock_round_trip(b, cells, base, id0, n - 1);
        let prev = draw_rec(b, cells, base, id0, n - 1);
        let whole = draw_rec(b, cells, base, id0, n);
        let tx = cells[n - 1].x + base.x;
        let ty = cells[n - 1].y + base.y;
        assert forall|k: int|
            0 <= k < n && 0 <= cells[k].x + base.x < 10 && 0 <= cells[k].y + base.y < 20
                implies #[trigger] whole[(cells[k].y + base.y) * 10 + (cells[k].x + base.x)]
            == Some((id0 + k) as u64) by {
            let c = (cells[k].y + base.y) * 10 + (cells[k].x + base.x);
            assert(c / 10 == cells[k].y + base.y && c % 10 == cells[k].x + base.x);
            if k < n - 1 {
                // later cells are distinct, so this one is not overwritten
                assert(prev[c] == Some((id0 + k) as u64));
                if 0 <= tx < 10 && 0 <= ty < 20 {
                    assert(cells[k] != cells[n - 1]);
                    assert(ty * 10 + tx != c);
                }
            } else {
                assert(0 <= tx < 10 && 0 <= ty < 20);
            }
        }
        assert forall|c: int|
            0 <= c < 200 && (forall|k: int|
                0 <= k < n ==> !((#[trigger] cells[k]).y + base.y == c / 10 && cells[k].x + base.x
                    == c % 10)) implies #[trigger] whole[c] == b[c] by {
            assert(prev[c] == b[c]);
            if 0 <= tx < 10 && 0 <= ty < 20 {
                assert(!(cells[n - 1].y + base.y == c / 10 && cells[n - 1].x + base.x == c % 10));
                assert(ty * 10 + tx != c) by {
                    if ty * 10 + tx == c {
                        assert(c / 10 == ty && c % 10 == tx);
                    }
                }
            }
        }
    }
}


/// Which snapshot bit a handler pass reads: the just-pressed bits on the
/// key-down pass, the held bits on the repeat pass.
pub open spec fn key_active(k: KeyState, just_pressed: bool) -> bool {
    if just_pressed {
        k.just_pressed
    } else {
        k.held
    }
}

/// One handler step: move left when the key is active and the move is
/// legal, rescheduling the key repeat.
pub open spec fn apply_left(
    s: GameState,
    b: TileBoard,
    input: InputState,
    now: u64,
    rd: u64,
    jp: bool,
) -> GameState {
    if key_active(input.left, jp) && can_move_left_spec(s, b) {
        GameState {
            current_position: Pos {
                x: (s.current_position.x - 1) as i32,
                y: s.current_position.y,
            },
            move_timer: sat_add_spec(now, rd),
            ..s
        }
    } else {
        s
    }
}

/// One handler step: move right.
pub open spec fn apply_right(
    s: GameState,
    b: TileBoard,
    input: InputState,
    now: u64,
    rd: u64,
    jp: bool,
) -> GameState {
    if key_active(input.right, jp) && can_move_right_spec(s, b) {
        GameState {
            current_position: Pos {
                x: (s.current_position.x + 1) as i32,
                y: s.current_position.y,
            },
            move_timer: sat_add_spec(now, rd),
            ..s
        }
    } else {
        s
    }
}

/// One handler step: soft drop.  A successful manual downward move resets
/// both the lock-delay timer and the automatic step timer.
pub open spec fn apply_down(
    s: GameState,
    b: TileBoard,
    input: InputState,
    now: u64,
    rd: u64,
    jp: bool,
) -> GameState {
    if key_active(input.down, jp) && can_move_down_spec(s, b) {
        GameState {
            current_position: Pos {
                x: s.current_position.x,
                y: (s.current_position.y - 1) as i32,
            },
            move_timer: sat_add_spec(now, rd),
            hit_bottom_timer: 0,
            step_timer: 0,
            ..s
        }
    } else {
        s
    }
}

/// One handler step: rotate counter-clockwise, when the newly occupied
/// cells are legal.
pub open spec fn apply_rotate_left(
    s: GameState,
    b: TileBoard,
    input: InputState,
    now: u64,
    rd: u64,
    jp: bool,
) -> GameState {
    if key_active(input.rotate_left, jp) && can_rotate_spec(
        s,
        b,
        rot_ccw(s.current_tetromino.rotate as int),
    ) {
        GameState {
            current_tetromino: Tetromino {
                rotate: rot_ccw(s.current_tetromino.rotate as int) as usize,
                ..s.current_tetromino
            },
            move_timer: sat_add_spec(now, rd),
            ..s
        }
    } else {
        s
    }
}

/// One handler step: rotate clockwise.
pub open spec fn apply_rotate_right(
    s: GameState,
    b: TileBoard,
    input: InputState,
    now: u64,
    rd: u64,
    jp: bool,
) -> GameState {
    if key_active(input.rotate_right, jp) && can_rotate_spec(
        s,
        b,
        rot_cw(s.current_tetromino.rotate as int),
    ) {
        GameState {
            current_tetromino: Tetromino {
                rotate: rot_cw(s.current_tetromino.rotate as int) as usize,
                ..s.current_tetromino
            },
            move_timer: sat_add_spec(now, rd),
            ..s
        }
    } else {
        s
    }
}

/// The hard-drop descent: move down while legal.
pub open spec fn drop_spec(s: GameState, b: TileBoard) -> GameState
    decreases s.current_position.y + 5,
{
    if can_move_down_spec(s, b) && s.current_position.y > -5 {
        drop_spec(
            GameState {
                current_position: Pos {
                    x: s.current_position.x,
                    y: (s.current_position.y - 1) as i32,
                },
                ..s
            },
            b,
        )
    } else {
        s
    }
}

/// One handler step: hard drop.  The piece falls as far as it can, and a
/// full lock-delay interval is credited so that the lock condition holds
/// on this very tick.
pub open spec fn apply_drop(
    s: GameState,
    b: TileBoard,
    config: GameConfig,
    input: InputState,
    now: u64,
    rd: u64,
    jp: bool,
) -> GameState {
    if key_active(input.drop, jp) {
        let d = drop_spec(s, b);
        GameState {
            move_timer: sat_add_spec(now, rd),
            hit_bottom_timer: sat_add_spec(d.hit_bottom_timer, config.step_delay),
            ..d
        }
    } else {
        s
    }
}

/// One full pass over the discrete inputs, in the fixed priority order:
/// pause (key-down pass only, aborting the pass), then left, right, soft
/// drop, the two rotations, and hard drop.  The second component reports
/// whether pause was requested.
pub open spec fn handler_key_event_spec(
    s: GameState,
    b: TileBoard,
    config: GameConfig,
    input: InputState,
    now: u64,
    jp: bool,
) -> (GameState, bool) {
    if jp && input.pause.just_pressed {
        (s, true)
    } else {
        let rd = if jp {
            config.first_repeat_delay
        } else {
            config.repeat_delay
        };
        let s1 = apply_left(s, b, input, now, rd, jp);
        let s2 = apply_right(s1, b, input, now, rd, jp);
        let s3 = apply_down(s2, b, input, now, rd, jp);
        let s4 = apply_rotate_left(s3, b, input, now, rd, jp);
        let s5 = apply_rotate_right(s4, b, input, now, rd, jp);
        let s6 = apply_drop(s5, b, config, input, now, rd, jp);
        (s6, false)
    }
}

/// A legal leftward move keeps the piece inside the well-formed window.
proof fn lemma_left_move_wf(s: GameState, b: TileBoard)
    requires
        s.wf(),
        b.wf(),
        can_move_left_spec(s, b),
    ensures
        s.current_position.x >= -1,
{
    let cells = s.current_tetromino.cells();
    let lm = crate::tetromino::left_most_spec(cells);
    lemma_piece_cells_props(s.current_tetromino.tetromino_type, s.current_tetromino.rotate as int);
    lemma_extremal_bounds(cells, Dir::Left);
    lemma_extremal_nonempty(cells, Dir::Left);
    assert(cell_free(b, lm[0].x + s.current_position.x - 1, lm[0].y + s.current_position.y));
}

/// A legal rightward move keeps the piece inside the well-formed window.
proof fn lemma_right_move_wf(s: GameState, b: TileBoard)
    requires
        s.wf(),
        b.wf(),
        can_move_right_spec(s, b),
    ensures
        s.current_position.x <= 10,
{
    let cells = s.current_tetromino.cells();
    let rm = crate::tetromino::right_most_spec(cells);
    lemma_piece_cells_props(s.current_tetromino.tetromino_type, s.current_tetromino.rotate as int);
    lemma_extremal_bounds(cells, Dir::Right);
    lemma_extremal_nonempty(cells, Dir::Right);
    assert(cell_free(b, rm[0].x + s.current_position.x + 1, rm[0].y + s.current_position.y));
}

/// Apply the left-move input step.
fn step_left(
    state: &mut GameState,
    tile_board: &TileBoard,
    input: &InputState,
    now: u64,
    repeat_delay: u64,
    just_pressed: bool,
)
    requires
        old(state).wf(),
        tile_board.wf(),
    ensures
        final (state).wf(),
        *final (state) == apply_left(
            *old(state),
            *tile_board,
            *input,
            now,
            repeat_delay,
            just_pressed,
        ),
{
    let active = if just_pressed {
        input.left.just_pressed
    } else {
        input.left.held
    };
    if active && can_move_left(state, tile_board) {
        proof {
            lemma_left_move_wf(*state, *tile_board);
        }
        state.current_position = Pos {
            x: state.current_position.x - 1,
            y: state.current_position.y,
        };
        state.move_timer = sat_add(now, repeat_delay);
    }
}

/// Apply the right-move input step.
fn step_right(
    state: &mut GameState,
    tile_board: &TileBoard,
    input: &InputState,
    now: u64,
    repeat_delay: u64,
    just_pressed: bool,
)
    requires
        old(state).wf(),
        tile_board.wf(),
    ensures
        final (state).wf(),
        *final (state) == apply_right(
            *old(state),
            *tile_board,
            *input,
            now,
            repeat_delay,
            just_pressed,
        ),
{
    let active = if just_pressed {
        input.right.just_pressed
    } else {
        input.right.held
    };
    if active && can_move_right(state, tile_board) {
        proof {
            lemma_right_move_wf(*state, *tile_board);
        }
        state.current_position = Pos {
            x: state.current_position.x + 1,
            y: state.current_position.y,
        };
        state.move_timer = sat_add(now, repeat_delay);
    }
}

/// Apply the soft-drop input step.
fn step_soft_drop(
    state: &mut GameState,
    tile_board: &TileBoard,
    input: &InputState,
    now: u64,
    repeat_delay: u64,
    just_pressed: bool,
)
    requires
        old(state).wf(),
        tile_board.wf(),
    ensures
        final (state).wf(),
        *final (state) == apply_down(
            *old(state),
            *tile_board,
            *input,
            now,
            repeat_delay,
            just_pressed,
        ),
{
    let active = if just_pressed {
        input.down.just_pressed
    } else {
        input.down.held
    };
    if active && can_move_down(state, tile_board) {
        proof {
            lemma_down_move_wf(*state, *tile_board);
        }
        state.current_position = Pos {
            x: state.current_position.x,
            y: state.current_position.y - 1,
        };
        state.move_timer = sat_add(now, repeat_delay);
        state.hit_bottom_timer = 0;
        state.step_timer = 0;
    }
}

/// Apply the counter-clockwise rotation input step.
fn step_rotate_left(
    state: &mut GameState,
    tile_board: &TileBoard,
    input: &InputState,
    now: u64,
    repeat_delay: u64,
    just_pressed: bool,
)
    requires
        old(state).wf(),
        tile_board.wf(),
    ensures
        final (state).wf(),
        *final (state) == apply_rotate_left(
            *old(state),
            *tile_board,
            *input,
            now,
            repeat_delay,
            just_pressed,
        ),
{
    let active = if just_pressed {
        input.rotate_left.just_pressed
    } else {
        input.rotate_left.held
    };
    if active && can_rotate_left(state, tile_board) {
        state.current_tetromino.rotate_left();
        state.move_timer = sat_add(now, repeat_delay);
    }
}

/// Apply the clockwise rotation input step.
fn step_rotate_right(
    state: &mut GameState,
    tile_board: &TileBoard,
    input: &InputState,
    now: u64,
    repeat_delay: u64,
    just_pressed: bool,
)
    requires
        old(state).wf(),
        tile_board.wf(),
    ensures
        final (state).wf(),
        *final (state) == apply_rotate_right(
            *old(state),
            *tile_board,
            *input,
            now,
            repeat_delay,
            just_pressed,
        ),
{
    let active = if just_pressed {
        input.rotate_right.just_pressed
    } else {
        input.rotate_right.held
    };
    if active && can_rotate_right(state, tile_board) {
        state.current_tetromino.rotate_right();
        state.move_timer = sat_add(now, repeat_delay);
    }
}

/// Apply the hard-drop input step.
fn step_hard_drop(
    state: &mut GameState,
    config: &GameConfig,
    tile_board: &TileBoard,
    input: &InputState,
    now: u64,
    repeat_delay: u64,
    just_pressed: bool,
)
    requires
        old(state).wf(),
        config.wf(),
        tile_board.wf(),
    ensures
        final (state).wf(),
        *final (state) == apply_drop(
            *old(state),
            *tile_board,
            *config,
            *input,
            now,
            repeat_delay,
            just_pressed,
        ),
{
    let ghost s5 = *state;
    let active = if just_pressed {
        input.drop.just_pressed
    } else {
        input.drop.held
    };
    if active {
        let mut cont = can_move_down(state, tile_board);
        while cont
            invariant
                state.wf(),
                tile_board.wf(),
                cont == can_move_down_spec(*state, *tile_board),
                drop_spec(s5, *tile_board) == drop_spec(*state, *tile_board),
            decreases state.current_position.y + 5,
        {
            proof {
                lemma_down_move_wf(*state, *tile_board);
            }
            state.current_position = Pos {
                x: state.current_position.x,
                y: state.current_position.y - 1,
            };
            cont = can_move_down(state, tile_board);
        }
        proof {
            assert(*state == drop_spec(s5, *tile_board));
        }
        state.move_timer = sat_add(now, repeat_delay);
        state.hit_bottom_timer = sat_add(state.hit_bottom_timer, config.step_delay);
    }
}

/// Process one pass of discrete input against the current state and
/// board.  Returns whether the pause key was taken.
pub fn handler_key_event(
    state: &mut GameState,
    config: &GameConfig,
    tile_board: &TileBoard,
    input: &InputState,
    now: u64,
    just_pressed: bool,
) -> (paused: bool)
    requires
        old(state).wf(),
        config.wf(),
        tile_board.wf(),
    ensures
        final (state).wf(),
        paused == handler_key_event_spec(
            *old(state),
            *tile_board,
            *config,
            *input,
            now,
            just_pressed,
        ).1,
        *final (state) == handler_key_event_spec(
            *old(state),
            *tile_board,
            *config,
            *input,
            now,
            just_pressed,
        ).0,
{
    if just_pressed && input.pause.just_pressed {
        return true;
    }
    let repeat_delay = if just_pressed {
        config.first_repeat_delay
    } else {
        config.repeat_delay
    };
    step_left(state, tile_board, input, now, repeat_delay, just_pressed);
    step_right(state, tile_board, input, now, repeat_delay, just_pressed);
    step_soft_drop(state, tile_board, input, now, repeat_delay, just_pressed);
    step_rotate_left(state, tile_board, input, now, repeat_delay, just_pressed);
    step_rotate_right(state, tile_board, input, now, repeat_delay, just_pressed);
    step_hard_drop(state, config, tile_board, input, now, repeat_delay, just_pressed);
    false
}

/// Process the just-pressed inputs of this tick.  Returns whether the
/// pause key was taken.
pub fn handler_key_down(
    state: &mut GameState,
    config: &GameConfig,
    tile_board: &TileBoard,
    input: &InputState,
    now: u64,
) -> (paused: bool)
    requires
        old(state).wf(),
        config.wf(),
        tile_board.wf(),
    ensures
        final (state).wf(),
        paused == handler_key_event_spec(
            *old(state),
            *tile_board,
            *config,
            *input,
            now,
            true,
        ).1,
        *final (state) == handler_key_event_spec(
            *old(state),
            *tile_board,
            *config,
            *input,
            now,
            true,
        ).0,
{
    handler_key_event(state, config, tile_board, input, now, true)
}

/// Process the held inputs of this tick, once the repeat deadline has
/// passed.
pub fn handler_key_repeat(
    state: &mut GameState,
    config: &GameConfig,
    tile_board: &TileBoard,
    input: &InputState,
    now: u64,
)
    requires
        old(state).wf(),
        config.wf(),
        tile_board.wf(),
    ensures
        final (state).wf(),
        old(state).move_timer < now ==> *final (state) == handler_key_event_spec(
            *old(state),
            *tile_board,
            *config,
            *input,
            now,
            false,
        ).0,
        old(state).move_timer >= now ==> *final (state) == *old(state),
{
    if state.move_timer < now {
        let _ = handler_key_event(state, config, tile_board, input, now, false);
    }
}

/// Promotion of the lookahead queue at spawn: the piece waiting in the
/// first preview slot becomes active at the spawn position, the second
/// slot moves up, and a fresh draw refills it.  The step timer restarts
/// and the key repeat is rescheduled; the lock-delay timer is left as it
/// was, exactly as at every other time the piece does not descend.
pub open spec fn spawn_spec(
    s: GameState,
    config: GameConfig,
    now: u64,
    drawn: (TetrominoType, usize),
) -> GameState {
    GameState {
        current_position: Pos { x: 4, y: 18 },
        current_tetromino: Tetromino {
            tetromino_type: s.next_tetromino.0,
            index: s.next_tetromino.1,
            rotate: 0,
        },
        next_tetromino: s.next_tetromino2,
        next_tetromino2: drawn,
        step_timer: 0,
        move_timer: sat_add_spec(now, config.first_repeat_delay),
        hit_bottom_timer: s.hit_bottom_timer,
    }
}

/// Spawn the next piece: promote the lookahead queue, draw a fresh third
/// piece, and reset the spawn-related timers.  Returns the fresh draw.
pub fn spawn(state: &mut GameState, config: &GameConfig, now: u64) -> (drawn: (
    TetrominoType,
    usize,
))
    requires
        old(state).wf(),
    ensures
        lookahead_wf(drawn),
        *final (state) == spawn_spec(*old(state), *config, now, drawn),
        final (state).wf(),
{
    state.current_position = Pos { x: 4, y: 18 };
    state.current_tetromino = Tetromino::new(state.next_tetromino.0, state.next_tetromino.1);
    state.next_tetromino = state.next_tetromino2;
    let drawn = get_rand_tetromino();
    state.next_tetromino2 = drawn;
    state.step_timer = 0;
    state.move_timer = sat_add(now, config.first_repeat_delay);
    drawn
}

/// While paused, answer the resume input: the pause key returns the game
/// to the running phase.
pub fn resume(input: &InputState) -> (next: Option<AppState>)
    ensures
        input.pause.just_pressed ==> next == Some(AppState::RUNNING),
        !input.pause.just_pressed ==> next is None,
{
    if input.pause.just_pressed {
        Some(AppState::RUNNING)
    } else {
        None
    }
}

/// While dead, answer the restart input: clear the board, reset the
/// timers and the piece position, and return to the running phase.  The
/// lookahead queue is kept, continuing the random stream.
pub fn reinit(state: &mut GameState, tile_board: &mut TileBoard, input: &InputState) -> (next:
    Option<AppState>)
    requires
        old(state).wf(),
        old(tile_board).wf(),
    ensures
        final (state).wf(),
        final (tile_board).wf(),
        final (tile_board).width == old(tile_board).width,
        final (tile_board).height == old(tile_board).height,
        input.restart.just_pressed ==> next == Some(AppState::RUNNING) && (forall|x: int, y: int|
            0 <= x < 10 && 0 <= y < 20 ==> final (tile_board).cell(x, y) is None) && *final (state)
            == (GameState {
            current_position: Pos { x: 4, y: 19 },
            step_timer: 0,
            hit_bottom_timer: 0,
            ..*old(state)
        }),
        !input.restart.just_pressed ==> next is None && *final (state) == *old(state) && *final (
        tile_board) == *old(tile_board),
{
    if input.restart.just_pressed {
        tile_board.clear();
        state.hit_bottom_timer = 0;
        state.step_timer = 0;
        state.current_position = Pos { x: 4, y: 19 };
        Some(AppState::RUNNING)
    } else {
        None
    }
}

/// A whole game session: the phase, the mutable state, the board, the
/// monotonic clock (advanced only while running), and the next fresh
/// block identity.
pub struct Game {
    pub phase: AppState,
    pub state: GameState,
    pub tile_board: TileBoard,
    pub elapsed: u64,
    pub next_block_id: u64,
}

impl Game {
    /// Well-formedness of a session.
    pub open spec fn wf(self) -> bool {
        self.state.wf() && self.tile_board.wf()
    }

    /// A fresh session: empty board, random pieces, running phase.
    pub fn new() -> (g: Game)
        ensures
            g.wf(),
            g.phase == AppState::RUNNING,
            g.elapsed == 0,
            forall|x: int, y: int| 0 <= x < 10 && 0 <= y < 20 ==> g.tile_board.cell(x, y) is None,
            g.state.current_position == (Pos { x: 4, y: 18 }),
            g.state.step_timer == 0 && g.state.hit_bottom_timer == 0,
    {
        Game {
            phase: AppState::RUNNING,
            state: crate::scene::init_game_state(),
            tile_board: TileBoard::new(10, 20),
            elapsed: 0,
            next_block_id: 0,
        }
    }
}

/// What one running tick does, given the piece identity `drawn` that the
/// lookahead refill drew (the only non-deterministic input).  In order:
/// the timers advance; the just-pressed inputs are handled, with pause
/// aborting the tick; the held inputs repeat once their deadline passed;
/// gravity applies; and when the lock condition holds, the piece commits
/// to the board, full rows clear and compact, the next piece spawns, and
/// a spawn without room ends the game.
pub open spec fn tick_running_post(
    g0: Game,
    g1: Game,
    config: GameConfig,
    input: InputState,
    dt: u64,
    drawn: (TetrominoType, usize),
) -> bool {
    let s0 = update_timer_spec(g0.state, dt);
    let now = sat_add_spec(g0.elapsed, dt);
    let h = handler_key_event_spec(s0, g0.tile_board, config, input, now, true);
    if h.1 {
        g1 == Game { phase: AppState::PAUSED, state: s0, elapsed: now, ..g0 }
    } else {
        let s2 = if h.0.move_timer < now {
            handler_key_event_spec(h.0, g0.tile_board, config, input, now, false).0
        } else {
            h.0
        };
        let s3 = step_down_spec(s2, config, g0.tile_board);
        if hit_bottom_spec(s3, g0.tile_board, config) {
            let drawn_board = draw_rec(
                g0.tile_board.tile_map@,
                s3.current_tetromino.cells(),
                s3.current_position,
                g0.next_block_id,
                4,
            );
            let cleared = clear_lines_spec(drawn_board, lowest_y_spec(s3));
            let s4 = spawn_spec(s3, config, now, drawn);
            &&& g1.state == s4
            &&& g1.tile_board.tile_map@ == cleared
            &&& g1.tile_board.width == g0.tile_board.width
            &&& g1.tile_board.height == g0.tile_board.height
            &&& g1.elapsed == now
            &&& g1.next_block_id == g0.next_block_id + 4
            &&& g1.phase == (if placement_free_spec(s4, g1.tile_board) {
                AppState::RUNNING
            } else {
                AppState::DEAD
            })
        } else {
            g1 == Game { phase: AppState::RUNNING, state: s3, elapsed: now, ..g0 }
        }
    }
}

/// Advance the session by one tick of `dt` milliseconds with the given
/// input snapshot.
///
/// While paused, only the resume input acts and nothing else changes;
/// while dead, only the restart input acts, clearing the board and
/// returning to the running phase; while running, the tick follows the
/// fixed sequence described at `tick_running_post`, with the lookahead
/// refill as its only random choice.
pub fn tick(game: &mut Game, config: &GameConfig, input: &InputState, dt: u64)
    requires
        old(game).wf(),
        config.wf(),
        old(game).next_block_id <= u64::MAX - 4,
    ensures
        final (game).wf(),
        old(game).phase == AppState::PAUSED ==> (*final (game) == if input.pause.just_pressed {
            Game { phase: AppState::RUNNING, ..*old(game) }
        } else {
            *old(game)
        }),
        old(game).phase == AppState::DEAD && !input.restart.just_pressed ==> *final (game) == *old(
            game,
        ),
        old(game).phase == AppState::DEAD && input.restart.just_pressed ==> (final (game).phase
            == AppState::RUNNING && (forall|x: int, y: int|
            0 <= x < 10 && 0 <= y < 20 ==> final (game).tile_board.cell(x, y) is None) && final (
        game).state == (GameState {
            current_position: Pos { x: 4, y: 19 },
            step_timer: 0,
            hit_bottom_timer: 0,
            ..old(game).state
        }) && final (game).elapsed == old(game).elapsed && final (game).next_block_id == old(
            game,
        ).next_block_id),
        old(game).phase == AppState::RUNNING ==> exists|drawn: (TetrominoType, usize)|
            lookahead_wf(drawn) && #[trigger] tick_running_post(
                *old(game),
                *final (game),
                *config,
                *input,
                dt,
                drawn,
            ),
{
    match game.phase {
        AppState::PAUSED => {
            if let Some(next) = resume(input) {
                game.phase = next;
            }
        },
        AppState::DEAD => {
            if let Some(next) = reinit(&mut game.state, &mut game.tile_board, input) {
                game.phase = next;
            }
        },
        AppState::RUNNING => {
            update_timer(&mut game.state, dt);
            let now = sat_add(game.elapsed, dt);
            game.elapsed = now;
            let paused = handler_key_down(&mut game.state, config, &game.tile_board, input, now);
            if paused {
                game.phase = AppState::PAUSED;
                proof {
                    let drawn = (TetrominoType::I, 0usize);
                    assert(lookahead_wf(drawn));
                    assert(tick_running_post(*old(game), *game, *config, *input, dt, drawn));
                }
                return;
            }
            handler_key_repeat(&mut game.state, config, &game.tile_board, input, now);
            step_down(&mut game.state, config, &game.tile_board);
            let locked = hit_bottom(&game.state, &game.tile_board, config);
            if locked {
                draw_piece(&game.state, &mut game.tile_board, game.next_block_id);
                clear_lines(&game.state, &mut game.tile_board);
                let drawn = spawn(&mut game.state, config, now);
                game.next_block_id = game.next_block_id + 4;
                if !placement_free(&game.state, &game.tile_board) {
                    game.phase = AppState::DEAD;
                }
                proof {
                    assert(tick_running_post(*old(game), *game, *config, *input, dt, drawn));
                }
            } else {
                proof {
                    let drawn = (TetrominoType::I, 0usize);
                    assert(lookahead_wf(drawn));
                    assert(tick_running_post(*old(game), *game, *config, *input, dt, drawn));
                }
            }
        },
    }
}


/// Gravity reads only the piece, its position and the step timer: states
/// agreeing on those three advance to states agreeing on them.
proof fn lemma_step_down_congruence(a: GameState, c: GameState, config: GameConfig, b: TileBoard)
    requires
        a.current_position == c.current_position,
        a.current_tetromino == c.current_tetromino,
        a.step_timer == c.step_timer,
    ensures
        step_down_spec(a, config, b).current_position == step_down_spec(
            c,
            config,
            b,
        ).current_position,
        step_down_spec(a, config, b).current_tetromino == step_down_spec(
            c,
            config,
            b,
        ).current_tetromino,
        step_down_spec(a, config, b).step_timer == step_down_spec(c, config, b).step_timer,
    decreases a.step_timer,
{
    assert(can_move_down_spec(a, b) == can_move_down_spec(c, b));
    if config.step_delay > 0 && a.step_timer >= config.step_delay && can_move_down_spec(a, b) {
        let a2 = GameState {
            current_position: Pos { x: a.current_position.x, y: (a.current_position.y - 1) as i32 },
            step_timer: (a.step_timer - config.step_delay) as u64,
            hit_bottom_timer: 0,
            ..a
        };
        let c2 = GameState {
            current_position: Pos { x: c.current_position.x, y: (c.current_position.y - 1) as i32 },
            step_timer: (c.step_timer - config.step_delay) as u64,
            hit_bottom_timer: 0,
            ..c
        };
        lemma_step_down_congruence(a2, c2, config, b);
    }
}

/// Splitting the elapsed time before gravity: advancing the step timer by
/// `d` after a gravity pass and running gravity again reaches the same
/// piece position and step timer as advancing by `d` first and running
/// gravity once, as long as the timer arithmetic does not saturate.
proof fn lemma_gravity_split_step(x: GameState, config: GameConfig, b: TileBoard, d: u64)
    requires
        config.wf(),
        x.step_timer + d <= u64::MAX,
    ensures
        ({
            let lhs = step_down_spec(
                update_timer_spec(step_down_spec(x, config, b), d),
                config,
                b,
            );
            let rhs = step_down_spec(update_timer_spec(x, d), config, b);
            lhs.current_position == rhs.current_position && lhs.current_tetromino
                == rhs.current_tetromino && lhs.step_timer == rhs.step_timer
        }),
    decreases x.step_timer,
{
    if config.step_delay > 0 && x.step_timer >= config.step_delay && can_move_down_spec(x, b) {
        let x2 = GameState {
            current_position: Pos { x: x.current_position.x, y: (x.current_position.y - 1) as i32 },
            step_timer: (x.step_timer - config.step_delay) as u64,
            hit_bottom_timer: 0,
            ..x
        };
        assert(step_down_spec(x, config, b) == step_down_spec(x2, config, b));
        lemma_gravity_split_step(x2, config, b, d);
        // advancing first still takes the same gravity step
        let u = update_timer_spec(x, d);
        assert(can_move_down_spec(u, b) == can_move_down_spec(x, b));
        let u2 = GameState {
            current_position: Pos { x: u.current_position.x, y: (u.current_position.y - 1) as i32 },
            step_timer: (u.step_timer - config.step_delay) as u64,
            hit_bottom_timer: 0,
            ..u
        };
        assert(step_down_spec(u, config, b) == step_down_spec(u2, config, b));
        lemma_step_down_congruence(u2, update_timer_spec(x2, d), config, b);
    } else {
        if !can_move_down_spec(x, b) {
            assert(step_down_spec(x, config, b) == x);
            assert(can_move_down_spec(update_timer_spec(x, d), b) == can_move_down_spec(x, b));
            assert(step_down_spec(update_timer_spec(x, d), config, b) == update_timer_spec(x, d));
        } else {
            assert(step_down_spec(x, config, b) == x);
        }
    }
}

/// Law (frame-rate independence of automatic descent): splitting an
/// elapsed interval into two ticks moves the piece to the same position,
/// with the same residual step timer, as advancing it in a single tick.
/// The lock decision samples the lock-delay timer once per tick, so whole
/// tick outcomes agree up to the tick in which a piece locks; the descent
/// itself is independent of the frame rate.  The bound on the timer keeps
/// the saturating clock arithmetic exact.
pub proof fn lemma_gravity_frame_independent(
    s: GameState,
    config: GameConfig,
    b: TileBoard,
    dt1: u64,
    dt2: u64,
)
    requires
        config.wf(),
        s.step_timer + dt1 + dt2 <= u64::MAX,
    ensures
        ({
            let one = step_down_spec(update_timer_spec(s, (dt1 + dt2) as u64), config, b);
            let two = step_down_spec(
                update_timer_spec(
                    step_down_spec(update_timer_spec(s, dt1), config, b),
                    dt2,
                ),
                config,
                b,
            );
            one.current_position == two.current_position && one.current_tetromino
                == two.current_tetromino && one.step_timer == two.step_timer
        }),
{
    let sa = update_timer_spec(s, dt1);
    lemma_gravity_split_step(sa, config, b, dt2);
    lemma_step_down_congruence(
        update_timer_spec(sa, dt2),
        update_timer_spec(s, (dt1 + dt2) as u64),
        config,
        b,
    );
}


/// The legality of the piece's placement depends only on its shape,
/// rotation and position.
proof fn lemma_placement_congruence(a: GameState, c: GameState, b: TileBoard)
    requires
        a.current_position == c.current_position,
        a.current_tetromino == c.current_tetromino,
    ensures
        placement_free_spec(a, b) == placement_free_spec(c, b),
{
}

/// One handler pass keeps a legally placed piece on legal cells.
proof fn lemma_handler_preserves_placement(
    s: GameState,
    b: TileBoard,
    config: GameConfig,
    input: InputState,
    now: u64,
    jp: bool,
)
    requires
        s.wf(),
        b.wf(),
        placement_free_spec(s, b),
    ensures
        handler_key_event_spec(s, b, config, input, now, jp).0.wf(),
        placement_free_spec(handler_key_event_spec(s, b, config, input, now, jp).0, b),
{
    if !(jp && input.pause.just_pressed) {
        let rd = if jp {
            config.first_repeat_delay
        } else {
            config.repeat_delay
        };
        let s1 = apply_left(s, b, input, now, rd, jp);
        if key_active(input.left, jp) && can_move_left_spec(s, b) {
            lemma_left_move_wf(s, b);
            crate::collision::lemma_left_check_sound(s, b);
            lemma_placement_congruence(
                GameState {
                    current_position: Pos {
                        x: (s.current_position.x - 1) as i32,
                        y: s.current_position.y,
                    },
                    ..s
                },
                s1,
                b,
            );
        }
        let s2 = apply_right(s1, b, input, now, rd, jp);
        if key_active(input.right, jp) && can_move_right_spec(s1, b) {
            lemma_right_move_wf(s1, b);
            crate::collision::lemma_right_check_sound(s1, b);
            lemma_placement_congruence(
                GameState {
                    current_position: Pos {
                        x: (s1.current_position.x + 1) as i32,
                        y: s1.current_position.y,
                    },
                    ..s1
                },
                s2,
                b,
            );
        }
        let s3 = apply_down(s2, b, input, now, rd, jp);
        if key_active(input.down, jp) && can_move_down_spec(s2, b) {
            lemma_down_move_wf(s2, b);
            crate::collision::lemma_down_check_sound(s2, b);
            lemma_placement_congruence(
                GameState {
                    current_position: Pos {
                        x: s2.current_position.x,
                        y: (s2.current_position.y - 1) as i32,
                    },
                    ..s2
                },
                s3,
                b,
            );
        }
        let s4 = apply_rotate_left(s3, b, input, now, rd, jp);
        if key_active(input.rotate_left, jp) && can_rotate_spec(
            s3,
            b,
            rot_ccw(s3.current_tetromino.rotate as int),
        ) {
            crate::collision::lemma_rotation_check_sound(
                s3,
                b,
                rot_ccw(s3.current_tetromino.rotate as int),
            );
            lemma_placement_congruence(
                GameState {
                    current_tetromino: Tetromino {
                        rotate: rot_ccw(s3.current_tetromino.rotate as int) as usize,
                        ..s3.current_tetromino
                    },
                    ..s3
                },
                s4,
                b,
            );
        }
        let s5 = apply_rotate_right(s4, b, input, now, rd, jp);
        if key_active(input.rotate_right, jp) && can_rotate_spec(
            s4,
            b,
            rot_cw(s4.current_tetromino.rotate as int),
        ) {
            crate::collision::lemma_rotation_check_sound(
                s4,
                b,
                rot_cw(s4.current_tetromino.rotate as int),
            );
            lemma_placement_congruence(
                GameState {
                    current_tetromino: Tetromino {
                        rotate: rot_cw(s4.current_tetromino.rotate as int) as usize,
                        ..s4.current_tetromino
                    },
                    ..s4
                },
                s5,
                b,
            );
        }
        if key_active(input.drop, jp) {
            lemma_drop_preserves_placement(s5, b);
            lemma_placement_congruence(
                drop_spec(s5, b),
                apply_drop(s5, b, config, input, now, rd, jp),
                b,
            );
        }
    }
}

/// The hard-drop descent keeps a legally placed piece on legal cells.
proof fn lemma_drop_preserves_placement(s: GameState, b: TileBoard)
    requires
        s.wf(),
        b.wf(),
        placement_free_spec(s, b),
    ensures
        drop_spec(s, b).wf(),
        placement_free_spec(drop_spec(s, b), b),
    decreases s.current_position.y + 5,
{
    if can_move_down_spec(s, b) && s.current_position.y > -5 {
        lemma_down_move_wf(s, b);
        crate::collision::lemma_down_check_sound(s, b);
        let s2 = GameState {
            current_position: Pos { x: s.current_position.x, y: (s.current_position.y - 1) as i32 },
            ..s
        };
        lemma_drop_preserves_placement(s2, b);
    }
}

/// Automatic descent keeps a legally placed piece on legal cells.
proof fn lemma_gravity_preserves_placement(s: GameState, config: GameConfig, b: TileBoard)
    requires
        s.wf(),
        b.wf(),
        placement_free_spec(s, b),
    ensures
        step_down_spec(s, config, b).wf(),
        placement_free_spec(step_down_spec(s, config, b), b),
    decreases s.step_timer,
{
    if config.step_delay > 0 && s.step_timer >= config.step_delay && can_move_down_spec(s, b) {
        lemma_down_move_wf(s, b);
        crate::collision::lemma_down_check_sound(s, b);
        let s2 = GameState {
            current_position: Pos { x: s.current_position.x, y: (s.current_position.y - 1) as i32 },
            step_timer: (s.step_timer - config.step_delay) as u64,
            hit_bottom_timer: 0,
            ..s
        };
        lemma_placement_congruence(
            GameState {
                current_position: Pos {
                    x: s.current_position.x,
                    y: (s.current_position.y - 1) as i32,
                },
                ..s
            },
            s2,
            b,
        );
        lemma_gravity_preserves_placement(s2, config, b);
    }
}

/// Law (running invariant): a running tick that leaves the game running
/// leaves the active piece on legal cells, provided it started on legal
/// cells.  The piece a player sees never overlaps a locked block.
pub proof fn lemma_tick_keeps_piece_clear(
    g0: Game,
    g1: Game,
    config: GameConfig,
    input: InputState,
    dt: u64,
    drawn: (TetrominoType, usize),
)
    requires
        g0.wf(),
        config.wf(),
        placement_free_spec(g0.state, g0.tile_board),
        tick_running_post(g0, g1, config, input, dt, drawn),
    ensures
        g1.phase == AppState::RUNNING ==> placement_free_spec(g1.state, g1.tile_board),
{
    let s0 = update_timer_spec(g0.state, dt);
    let now = sat_add_spec(g0.elapsed, dt);
    lemma_placement_congruence(g0.state, s0, g0.tile_board);
    let h = handler_key_event_spec(s0, g0.tile_board, config, input, now, true);
    if !h.1 {
        lemma_handler_preserves_placement(s0, g0.tile_board, config, input, now, true);
        let s2 = if h.0.move_timer < now {
            handler_key_event_spec(h.0, g0.tile_board, config, input, now, false).0
        } else {
            h.0
        };
        if h.0.move_timer < now {
            lemma_handler_preserves_placement(h.0, g0.tile_board, config, input, now, false);
        }
        lemma_gravity_preserves_placement(s2, config, g0.tile_board);
    }
}

} // verus!
