//! Collision rules: pure predicates over the active piece, its candidate
//! position, and the board.
//!
//! A candidate cell is legal when it lies within the horizontal bounds of
//! the board and is either above the visible top (pieces may rise freely in
//! the spawn buffer) or inside the playable region and unoccupied.  Sliding
//! checks only the extremal cells of the moving piece, and rotation checks
//! only the cells that the target rotation newly occupies: the remaining
//! cells either stay where they are or move onto cells the piece already
//! covers, so they can never be the first to collide.

use vstd::prelude::*;
use crate::board::TileBoard;
use crate::scene::GameState;
use crate::tetromino::{
    at, down_most_spec, extremal_in, left_most_spec, lemma_extremal_bounds,
    lemma_extremal_structure,
    lemma_piece_cells_connected, lemma_piece_cells_props, piece_cells, right_most_spec, rot_ccw,
    rot_cw, Dir, Pos, Tetromino,
};

verus! {

/// Cell `(x, y)` may be entered: within the horizontal bounds, and either
/// above the visible top or inside the playable region and unoccupied.
pub open spec fn cell_free(b: TileBoard, x: int, y: int) -> bool {
    ||| (0 <= x <= 9 && y > 19)
    ||| (0 <= x <= 9 && 0 <= y <= 19 && b.cell(x, y) is None)
}

/// Every position in `ps` is a legal cell.
pub open spec fn positions_free(b: TileBoard, ps: Seq<Pos>) -> bool {
    forall|i: int| 0 <= i < ps.len() ==> cell_free(b, (#[trigger] ps[i]).x as int, ps[i].y as int)
}

/// Every cell of `ps`, offset by `base` and then by `(dx, dy)`, is legal.
pub open spec fn shifted_free(b: TileBoard, ps: Seq<Pos>, base: Pos, dx: int, dy: int) -> bool {
    forall|i: int|
        0 <= i < ps.len() ==> cell_free(
            b,
            (#[trigger] ps[i]).x + base.x + dx,
            ps[i].y + base.y + dy,
        )
}

/// Checking the pre-offset cell list is the same as checking the original
/// cells shifted by the piece position and the move displacement.
proof fn lemma_offset_bridge(b: TileBoard, ps: Seq<Pos>, shifted: Seq<Pos>, base: Pos, dx: int, dy: int)
    requires
        shifted.len() == ps.len(),
        forall|i: int|
            0 <= i < ps.len() ==> (#[trigger] shifted[i]).x as int == ps[i].x + base.x + dx
                && shifted[i].y as int == ps[i].y + base.y + dy,
    ensures
        positions_free(b, shifted) == shifted_free(b, ps, base, dx, dy),
{
    if positions_free(b, shifted) {
        assert forall|i: int|
            0 <= i < ps.len() implies cell_free(
            b,
            (#[trigger] ps[i]).x + base.x + dx,
            ps[i].y + base.y + dy,
        ) by {
            assert(cell_free(b, shifted[i].x as int, shifted[i].y as int));
        }
    } else {
        let i = choose|i: int|
            0 <= i < shifted.len() && !cell_free(
                b,
                (#[trigger] shifted[i]).x as int,
                shifted[i].y as int,
            );
        assert(!cell_free(b, ps[i].x + base.x + dx, ps[i].y + base.y + dy));
        assert(!shifted_free(b, ps, base, dx, dy));
    }
}

/// The piece may move one cell to the left: every left-most cell, shifted
/// left, is legal.
pub open spec fn can_move_left_spec(s: GameState, b: TileBoard) -> bool {
    shifted_free(b, left_most_spec(s.current_tetromino.cells()), s.current_position, -1, 0)
}

/// The piece may move one cell to the right.
pub open spec fn can_move_right_spec(s: GameState, b: TileBoard) -> bool {
    shifted_free(b, right_most_spec(s.current_tetromino.cells()), s.current_position, 1, 0)
}

/// The piece may move one cell down: every down-most cell, shifted down,
/// is legal.
pub open spec fn can_move_down_spec(s: GameState, b: TileBoard) -> bool {
    shifted_free(b, down_most_spec(s.current_tetromino.cells()), s.current_position, 0, -1)
}

/// The full footprint of the piece, at its current position, lies on legal
/// cells.  Used at spawn to detect game over.
pub open spec fn placement_free_spec(s: GameState, b: TileBoard) -> bool {
    shifted_free(b, s.current_tetromino.cells(), s.current_position, 0, 0)
}

/// The cells of `target[..n]` that `org` does not already cover.
pub open spec fn diff_rec(target: Seq<Pos>, org: Seq<Pos>, n: int) -> Seq<Pos>
    decreases n,
{
    if n <= 0 {
        Seq::empty()
    } else {
        let rest = diff_rec(target, org, n - 1);
        if !org.contains(target[n - 1]) {
            rest.push(target[n - 1])
        } else {
            rest
        }
    }
}

/// The cells that rotation state `tr` occupies and the current rotation
/// does not.
pub open spec fn rotation_diff(t: Tetromino, tr: int) -> Seq<Pos> {
    diff_rec(
        piece_cells(t.tetromino_type, tr),
        t.cells(),
        piece_cells(t.tetromino_type, tr).len() as int,
    )
}

/// The piece may rotate to state `tr`: every newly occupied cell is legal.
/// No wall-kick is attempted; a blocked rotation is simply rejected.
pub open spec fn can_rotate_spec(s: GameState, b: TileBoard, tr: int) -> bool {
    shifted_free(b, rotation_diff(s.current_tetromino, tr), s.current_position, 0, 0)
}

/// Whether every candidate position is a legal cell.
pub fn has_no_tile(position: &Vec<Pos>, tile_board: &TileBoard) -> (r: bool)
    requires
        tile_board.wf(),
    ensures
        r == positions_free(*tile_board, position@),
{
    let mut i: usize = 0;
    while i < position.len()
        invariant
            0 <= i <= position@.len(),
            tile_board.wf(),
            forall|k: int|
                0 <= k < i ==> cell_free(
                    *tile_board,
                    (#[trigger] position@[k]).x as int,
                    position@[k].y as int,
                ),
        decreases position@.len() - i,
    {
        let p = position[i];
        let above = p.x >= 0 && p.x <= 9 && p.y > 19;
        let in_and_empty = p.x >= 0 && p.x <= 9 && p.y >= 0 && p.y <= 19 && tile_board.entity_at(
            p.x as u32,
            p.y as u32,
        ).is_none();
        if !(above || in_and_empty) {
            return false;
        }
        i += 1;
    }
    true
}

/// Offset every cell by the piece position and a one-cell displacement.
fn offset_positions(cells: &Vec<Pos>, base: Pos, dx: i32, dy: i32) -> (res: Vec<Pos>)
    requires
        forall|i: int|
            0 <= i < cells@.len() ==> -2 <= (#[trigger] cells@[i]).x <= 2 && 0 <= cells@[i].y <= 3,
        -3 <= base.x <= 12,
        -3 <= base.y <= 19,
        -1 <= dx <= 1,
        -1 <= dy <= 1,
    ensures
        res@.len() == cells@.len(),
        forall|i: int|
            0 <= i < cells@.len() ==> (#[trigger] res@[i]).x as int == cells@[i].x + base.x + dx
                && res@[i].y as int == cells@[i].y + base.y + dy,
{
    let mut res: Vec<Pos> = Vec::new();
    let mut i: usize = 0;
    while i < cells.len()
        invariant
            0 <= i <= cells@.len(),
            res@.len() == i,
            forall|k: int|
                0 <= k < cells@.len() ==> -2 <= (#[trigger] cells@[k]).x <= 2 && 0 <= cells@[k].y
                    <= 3,
            -3 <= base.x <= 12,
            -3 <= base.y <= 19,
            -1 <= dx <= 1,
            -1 <= dy <= 1,
            forall|k: int|
                0 <= k < i ==> (#[trigger] res@[k]).x as int == cells@[k].x + base.x + dx
                    && res@[k].y as int == cells@[k].y + base.y + dy,
        decreases cells@.len() - i,
    {
        let c = cells[i];
        res.push(Pos { x: c.x + base.x + dx, y: c.y + base.y + dy });
        i += 1;
    }
    res
}

/// Whether the piece may move one cell to the left.
pub fn can_move_left(state: &GameState, tile_board: &TileBoard) -> (r: bool)
    requires
        state.wf(),
        tile_board.wf(),
    ensures
        r == can_move_left_spec(*state, *tile_board),
{
    let lm = state.current_tetromino.left_most_position();
    proof {
        lemma_piece_cells_props(
            state.current_tetromino.tetromino_type,
            state.current_tetromino.rotate as int,
        );
        lemma_extremal_bounds(state.current_tetromino.cells(), Dir::Left);
    }
    let shifted = offset_positions(&lm, state.current_position, -1, 0);
    let r = has_no_tile(&shifted, tile_board);
    proof {
        lemma_offset_bridge(
            *tile_board,
            lm@,
            shifted@,
            state.current_position,
            -1,
            0,
        );
    }
    r
}

/// Whether the piece may move one cell to the right.
pub fn can_move_right(state: &GameState, tile_board: &TileBoard) -> (r: bool)
    requires
        state.wf(),
        tile_board.wf(),
    ensures
        r == can_move_right_spec(*state, *tile_board),
{
    let rm = state.current_tetromino.right_most_position();
    proof {
        lemma_piece_cells_props(
            state.current_tetromino.tetromino_type,
            state.current_tetromino.rotate as int,
        );
        lemma_extremal_bounds(state.current_tetromino.cells(), Dir::Right);
    }
    let shifted = offset_positions(&rm, state.current_position, 1, 0);
    let r = has_no_tile(&shifted, tile_board);
    proof {
        lemma_offset_bridge(
            *tile_board,
            rm@,
            shifted@,
            state.current_position,
            1,
            0,
        );
    }
    r
}

/// Whether the piece may move one cell down.
pub fn can_move_down(state: &GameState, tile_board: &TileBoard) -> (r: bool)
    requires
        state.wf(),
        tile_board.wf(),
    ensures
        r == can_move_down_spec(*state, *tile_board),
{
    let dm = state.current_tetromino.down_most_position();
    proof {
        lemma_piece_cells_props(
            state.current_tetromino.tetromino_type,
            state.current_tetromino.rotate as int,
        );
        lemma_extremal_bounds(state.current_tetromino.cells(), Dir::Down);
    }
    let shifted = offset_positions(&dm, state.current_position, 0, -1);
    let r = has_no_tile(&shifted, tile_board);
    proof {
        lemma_offset_bridge(
            *tile_board,
            dm@,
            shifted@,
            state.current_position,
            0,
            -1,
        );
    }
    r
}

/// Whether the full footprint of the piece, at its current position, lies
/// on legal cells.
pub fn placement_free(state: &GameState, tile_board: &TileBoard) -> (r: bool)
    requires
        state.wf(),
        tile_board.wf(),
    ensures
        r == placement_free_spec(*state, *tile_board),
{
    let cells = state.current_tetromino.get_position();
    proof {
        lemma_piece_cells_props(
            state.current_tetromino.tetromino_type,
            state.current_tetromino.rotate as int,
        );
    }
    let shifted = offset_positions(&cells, state.current_position, 0, 0);
    let r = has_no_tile(&shifted, tile_board);
    proof {
        lemma_offset_bridge(
            *tile_board,
            cells@,
            shifted@,
            state.current_position,
            0,
            0,
        );
    }
    r
}

/// Whether a vector of cells contains `p`.
fn contains_pos(v: &Vec<Pos>, p: Pos) -> (r: bool)
    ensures
        r == v@.contains(p),
{
    let mut i: usize = 0;
    while i < v.len()
        invariant
            0 <= i <= v@.len(),
            forall|k: int| 0 <= k < i ==> v@[k] != p,
        decreases v@.len() - i,
    {
        if v[i] == p {
            return true;
        }
        i += 1;
    }
    false
}

/// Whether the piece may rotate by `i` states clockwise (`i` is 1 for a
/// clockwise rotation, 3 for a counter-clockwise one).
fn can_rotate(state: &GameState, tile_board: &TileBoard, i: usize) -> (r: bool)
    requires
        state.wf(),
        tile_board.wf(),
        i == 1 || i == 3,
    ensures
        r == can_rotate_spec(
            *state,
            *tile_board,
            ((state.current_tetromino.rotate + i) % 4) as int,
        ),
{
    let rotate = (state.current_tetromino.rotate + i) % 4;
    let org_position = state.current_tetromino.get_position();
    let target = state.current_tetromino.get_position2(rotate);
    proof {
        lemma_piece_cells_props(state.current_tetromino.tetromino_type, rotate as int);
    }
    let mut diff: Vec<Pos> = Vec::new();
    let mut k: usize = 0;
    while k < target.len()
        invariant
            0 <= k <= target@.len(),
            diff@ == diff_rec(target@, org_position@, k as int),
            forall|j: int|
                0 <= j < target@.len() ==> -2 <= (#[trigger] target@[j]).x <= 2 && 0 <= target@[j].y
                    <= 3,
            forall|j: int|
                0 <= j < diff@.len() ==> -2 <= (#[trigger] diff@[j]).x <= 2 && 0 <= diff@[j].y <= 3,
        decreases target@.len() - k,
    {
        let c = target[k];
        if !contains_pos(&org_position, c) {
            diff.push(c);
        }
        k += 1;
    }
    let shifted = offset_positions(&diff, state.current_position, 0, 0);
    let r = has_no_tile(&shifted, tile_board);
    proof {
        let tr = ((state.current_tetromino.rotate + i) % 4) as int;
        assert(diff@ == rotation_diff(state.current_tetromino, tr));
        lemma_offset_bridge(
            *tile_board,
            diff@,
            shifted@,
            state.current_position,
            0,
            0,
        );
    }
    r
}

/// Whether the piece may rotate one state counter-clockwise.
pub fn can_rotate_left(state: &GameState, tile_board: &TileBoard) -> (r: bool)
    requires
        state.wf(),
        tile_board.wf(),
    ensures
        r == can_rotate_spec(
            *state,
            *tile_board,
            rot_ccw(state.current_tetromino.rotate as int),
        ),
{
    can_rotate(state, tile_board, 3)
}

/// Whether the piece may rotate one state clockwise.
pub fn can_rotate_right(state: &GameState, tile_board: &TileBoard) -> (r: bool)
    requires
        state.wf(),
        tile_board.wf(),
    ensures
        r == can_rotate_spec(*state, *tile_board, rot_cw(state.current_tetromino.rotate as int)),
{
    can_rotate(state, tile_board, 1)
}

/// Law (downward boundary): the down move is rejected exactly when some
/// down-most target cell is illegal.  In particular it is rejected when a
/// down-most cell sits on row 0, or when the cell directly below a
/// down-most cell is occupied; it is allowed otherwise.
pub proof fn lemma_can_move_down_boundary(s: GameState, b: TileBoard)
    requires
        s.wf(),
        b.wf(),
    ensures
        ({
            let dm = down_most_spec(s.current_tetromino.cells());
            let p = s.current_position;
            &&& (can_move_down_spec(s, b) <==> (forall|k: int|
                0 <= k < dm.len() ==> cell_free(b, (#[trigger] dm[k]).x + p.x, dm[k].y + p.y - 1)))
            &&& (exists|k: int| 0 <= k < dm.len() && (#[trigger] dm[k]).y + p.y == 0)
                ==> !can_move_down_spec(s, b)
            &&& (exists|k: int|
                0 <= k < dm.len() && 0 <= (#[trigger] dm[k]).x + p.x <= 9 && 0 <= dm[k].y + p.y - 1
                    <= 19 && b.cell(dm[k].x + p.x, dm[k].y + p.y - 1) is Some)
                ==> !can_move_down_spec(s, b)
        }),
{
    let dm = down_most_spec(s.current_tetromino.cells());
    let p = s.current_position;
    if exists|k: int| 0 <= k < dm.len() && (#[trigger] dm[k]).y + p.y == 0 {
        let k = choose|k: int| 0 <= k < dm.len() && (#[trigger] dm[k]).y + p.y == 0;
        assert(!cell_free(b, dm[k].x + p.x, dm[k].y + p.y - 1));
    }
    if exists|k: int|
        0 <= k < dm.len() && 0 <= (#[trigger] dm[k]).x + p.x <= 9 && 0 <= dm[k].y + p.y - 1 <= 19
            && b.cell(dm[k].x + p.x, dm[k].y + p.y - 1) is Some {
        let k = choose|k: int|
            0 <= k < dm.len() && 0 <= (#[trigger] dm[k]).x + p.x <= 9 && 0 <= dm[k].y + p.y - 1
                <= 19 && b.cell(dm[k].x + p.x, dm[k].y + p.y - 1) is Some;
        assert(!cell_free(b, dm[k].x + p.x, dm[k].y + p.y - 1));
    }
}


/// Every target cell that the current rotation does not cover is kept by
/// the difference.
proof fn lemma_diff_rec_complete(target: Seq<Pos>, org: Seq<Pos>, n: int)
    requires
        0 <= n <= target.len(),
    ensures
        forall|k: int|
            0 <= k < n && !org.contains(#[trigger] target[k]) ==> diff_rec(
                target,
                org,
                n,
            ).contains(target[k]),
    decreases n,
{
    if n > 0 {
        lemma_diff_rec_complete(target, org, n - 1);
        let rest = diff_rec(target, org, n - 1);
        let whole = diff_rec(target, org, n);
        assert forall|k: int|
            0 <= k < n && !org.contains(#[trigger] target[k]) implies whole.contains(target[k]) by {
            if k < n - 1 {
                assert(rest.contains(target[k]));
                let w = choose|w: int| 0 <= w < rest.len() && rest[w] == target[k];
                assert(whole[w] == target[k]);
            } else {
                assert(whole[whole.len() - 1] == target[n - 1]);
            }
        }
    }
}

/// Law (soundness of the extremal down check): for a legally placed
/// piece, if every down-most cell may move down, then the whole footprint
/// may: each non-extremal cell moves onto a cell the piece itself covers.
pub proof fn lemma_down_check_sound(s: GameState, b: TileBoard)
    requires
        s.wf(),
        b.wf(),
        placement_free_spec(s, b),
        can_move_down_spec(s, b),
    ensures
        placement_free_spec(
            GameState {
                current_position: Pos {
                    x: s.current_position.x,
                    y: (s.current_position.y - 1) as i32,
                },
                ..s
            },
            b,
        ),
{
    let cells = s.current_tetromino.cells();
    let dm = down_most_spec(cells);
    let p = s.current_position;
    let ty = s.current_tetromino.tetromino_type;
    let rr = s.current_tetromino.rotate as int;
    lemma_piece_cells_props(ty, rr);
    lemma_piece_cells_connected(ty, rr);
    lemma_extremal_structure(cells, Dir::Down);
    assert forall|i: int|
        0 <= i < cells.len() implies cell_free(
        b,
        (#[trigger] cells[i]).x + p.x,
        cells[i].y + p.y - 1,
    ) by {
        if extremal_in(cells, cells[i], Dir::Down) {
            assert(dm.contains(cells[i]));
            let k = choose|k: int| 0 <= k < dm.len() && dm[k] == cells[i];
            assert(cell_free(b, dm[k].x + p.x, dm[k].y + p.y - 1));
        } else {
            assert(cells.contains(at(cells[i].x as int, cells[i].y - 1)));
            let j = choose|j: int|
                0 <= j < cells.len() && cells[j] == at(cells[i].x as int, cells[i].y - 1);
            assert(cell_free(b, cells[j].x + p.x, cells[j].y + p.y));
            assert(cells[j].y as int == cells[i].y - 1);
        }
    }
}

/// Law (soundness of the extremal left check).
pub proof fn lemma_left_check_sound(s: GameState, b: TileBoard)
    requires
        s.wf(),
        b.wf(),
        placement_free_spec(s, b),
        can_move_left_spec(s, b),
    ensures
        placement_free_spec(
            GameState {
                current_position: Pos {
                    x: (s.current_position.x - 1) as i32,
                    y: s.current_position.y,
                },
                ..s
            },
            b,
        ),
{
    let cells = s.current_tetromino.cells();
    let lm = left_most_spec(cells);
    let p = s.current_position;
    let ty = s.current_tetromino.tetromino_type;
    let rr = s.current_tetromino.rotate as int;
    lemma_piece_cells_props(ty, rr);
    lemma_piece_cells_connected(ty, rr);
    lemma_extremal_structure(cells, Dir::Left);
    assert forall|i: int|
        0 <= i < cells.len() implies cell_free(
        b,
        (#[trigger] cells[i]).x + p.x - 1,
        cells[i].y + p.y,
    ) by {
        if extremal_in(cells, cells[i], Dir::Left) {
            assert(lm.contains(cells[i]));
            let k = choose|k: int| 0 <= k < lm.len() && lm[k] == cells[i];
            assert(cell_free(b, lm[k].x + p.x - 1, lm[k].y + p.y));
        } else {
            assert(cells.contains(at(cells[i].x - 1, cells[i].y as int)));
            let j = choose|j: int|
                0 <= j < cells.len() && cells[j] == at(cells[i].x - 1, cells[i].y as int);
            assert(cell_free(b, cells[j].x + p.x, cells[j].y + p.y));
            assert(cells[j].x as int == cells[i].x - 1);
        }
    }
}

/// Law (soundness of the extremal right check).
#[verifier::rlimit(60)]
pub proof fn lemma_right_check_sound(s: GameState, b: TileBoard)
    requires
        s.wf(),
        b.wf(),
        placement_free_spec(s, b),
        can_move_right_spec(s, b),
    ensures
        placement_free_spec(
            GameState {
                current_position: Pos {
                    x: (s.current_position.x + 1) as i32,
                    y: s.current_position.y,
                },
                ..s
            },
            b,
        ),
{
    let cells = s.current_tetromino.cells();
    let rm = right_most_spec(cells);
    let p = s.current_position;
    let ty = s.current_tetromino.tetromino_type;
    let rr = s.current_tetromino.rotate as int;
    lemma_piece_cells_props(ty, rr);
    lemma_piece_cells_connected(ty, rr);
    lemma_extremal_structure(cells, Dir::Right);
    assert forall|i: int|
        0 <= i < cells.len() implies cell_free(
        b,
        (#[trigger] cells[i]).x + p.x + 1,
        cells[i].y + p.y,
    ) by {
        if extremal_in(cells, cells[i], Dir::Right) {
            assert(rm.contains(cells[i]));
            let k = choose|k: int| 0 <= k < rm.len() && rm[k] == cells[i];
            assert(cell_free(b, rm[k].x + p.x + 1, rm[k].y + p.y));
        } else {
            assert(cells.contains(at(cells[i].x + 1, cells[i].y as int)));
            let j = choose|j: int|
                0 <= j < cells.len() && cells[j] == at(cells[i].x + 1, cells[i].y as int);
            assert(cell_free(b, cells[j].x + p.x, cells[j].y + p.y));
            assert(cells[j].x as int == cells[i].x + 1);
        }
    }
}

/// Law (soundness of the rotation difference check): for a legally placed
/// piece, if every cell that the target rotation newly occupies is legal,
/// the whole rotated footprint is legal: the remaining cells sit where
/// the piece already is.
pub proof fn lemma_rotation_check_sound(s: GameState, b: TileBoard, tr: int)
    requires
        s.wf(),
        b.wf(),
        0 <= tr < 4,
        placement_free_spec(s, b),
        can_rotate_spec(s, b, tr),
    ensures
        placement_free_spec(
            GameState {
                current_tetromino: Tetromino { rotate: tr as usize, ..s.current_tetromino },
                ..s
            },
            b,
        ),
{
    let org = s.current_tetromino.cells();
    let target = piece_cells(s.current_tetromino.tetromino_type, tr);
    let diff = rotation_diff(s.current_tetromino, tr);
    let p = s.current_position;
    lemma_diff_rec_complete(target, org, target.len() as int);
    assert forall|i: int|
        0 <= i < target.len() implies cell_free(
        b,
        (#[trigger] target[i]).x + p.x,
        target[i].y + p.y,
    ) by {
        if org.contains(target[i]) {
            let j = choose|j: int| 0 <= j < org.len() && org[j] == target[i];
            assert(cell_free(b, org[j].x + p.x, org[j].y + p.y));
        } else {
            assert(diff.contains(target[i]));
            let k = choose|k: int| 0 <= k < diff.len() && diff[k] == target[i];
            assert(cell_free(b, diff[k].x + p.x, diff[k].y + p.y));
        }
    }
}

} // verus!
