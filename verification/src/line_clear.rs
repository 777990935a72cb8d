//! Line-clear engine: full-row detection and gravity compaction.
//!
//! Invoked once per lock event, against the four rows that the just-locked
//! piece can span.  Full rows in that window are emptied; the non-removed
//! rows above the first cleared row then slide down to fill the gap,
//! preserving their relative order.  Relocation is swap-based, cell by
//! cell, so the Board never holds two populated states for the same
//! coordinates and block identities survive compaction.  Processing row
//! pairs from the lowest destination upward guarantees a row is emptied
//! before anything is swapped into it.

use vstd::prelude::*;
use crate::board::TileBoard;
use crate::scene::GameState;
use crate::tetromino::{
    down_most_spec, lemma_extremal_bounds, lemma_extremal_nonempty, lemma_piece_cells_props, Dir,
    Pos,
};

verus! {

/// Row `y` of the grid is fully occupied.
pub open spec fn row_full(s: Seq<Option<u64>>, y: int) -> bool {
    forall|x: int| 0 <= x < 10 ==> #[trigger] s[y * 10 + x] is Some
}

/// Row `y` is cleared by a line-clear pass that scans the four rows from
/// `lowest` upward: it lies in the scanned window, inside the playable
/// region, and is full.
pub open spec fn is_removed(s: Seq<Option<u64>>, lowest: int, y: int) -> bool {
    lowest <= y < lowest + 4 && 0 <= y < 20 && row_full(s, y)
}

/// The first removed row at or above `from`, or 20 when none remains.
pub open spec fn first_removed_from(s: Seq<Option<u64>>, lowest: int, from: int) -> int
    decreases 20 - from,
{
    if from >= 20 {
        20
    } else if is_removed(s, lowest, from) {
        from
    } else {
        first_removed_from(s, lowest, from + 1)
    }
}

/// The non-removed rows in `[first, end)`, in ascending order.
pub open spec fn survivors_upto(s: Seq<Option<u64>>, lowest: int, first: int, end: int) -> Seq<int>
    decreases end - first,
{
    if end <= first {
        Seq::empty()
    } else {
        let rest = survivors_upto(s, lowest, first, end - 1);
        if is_removed(s, lowest, end - 1) {
            rest
        } else {
            rest.push(end - 1)
        }
    }
}

/// The board after one line-clear pass that scans the four rows from
/// `lowest` upward: rows below the first removed row keep their content,
/// each higher destination row receives the next surviving source row,
/// and the top rows that receive no replacement are left empty.
pub open spec fn clear_lines_spec(s: Seq<Option<u64>>, lowest: int) -> Seq<Option<u64>> {
    let first = first_removed_from(s, lowest, 0);
    if first == 20 {
        s
    } else {
        let sv = survivors_upto(s, lowest, first, 20);
        Seq::new(
            200,
            |i: int|
                {
                    let y = i / 10;
                    let x = i % 10;
                    if y < first {
                        s[i]
                    } else if y - first < sv.len() {
                        s[sv[y - first] * 10 + x]
                    } else {
                        None
                    }
                },
        )
    }
}

/// The lowest board row that the active piece occupies: the minimum `y`
/// among its down-most cells, in board coordinates.
pub open spec fn min_y_rec(ps: Seq<Pos>, n: int) -> int
    decreases n,
{
    if n <= 1 {
        ps[0].y as int
    } else {
        let m = min_y_rec(ps, n - 1);
        if ps[n - 1].y < m {
            ps[n - 1].y as int
        } else {
            m
        }
    }
}

/// The lowest row spanned by the active piece, in board coordinates.
pub open spec fn lowest_y_spec(st: GameState) -> int {
    let dm = down_most_spec(st.current_tetromino.cells());
    min_y_rec(dm, dm.len() as int) + st.current_position.y
}

/// Characterisation of `first_removed_from`: it returns the least removed
/// row at or above `from`, or 20 when none exists.
pub proof fn lemma_first_removed(s: Seq<Option<u64>>, lowest: int, from: int)
    requires
        0 <= from <= 20,
    ensures
        from <= first_removed_from(s, lowest, from) <= 20,
        first_removed_from(s, lowest, from) < 20 ==> is_removed(
            s,
            lowest,
            first_removed_from(s, lowest, from),
        ),
        forall|y: int| from <= y < first_removed_from(s, lowest, from) ==> !is_removed(s, lowest, y),
    decreases 20 - from,
{
    if from < 20 && !is_removed(s, lowest, from) {
        lemma_first_removed(s, lowest, from + 1);
    }
}

/// Characterisation of `survivors_upto`: its entries are exactly the
/// non-removed rows of `[first, end)`, strictly ascending, with the `k`-th
/// entry at least `first + k`.
pub proof fn lemma_survivors_props(s: Seq<Option<u64>>, lowest: int, first: int, end: int)
    requires
        first <= end,
    ensures
        ({
            let sv = survivors_upto(s, lowest, first, end);
            &&& sv.len() <= end - first
            &&& forall|k: int|
                0 <= k < sv.len() ==> first <= #[trigger] sv[k] < end && !is_removed(
                    s,
                    lowest,
                    sv[k],
                )
            &&& forall|k: int| 0 <= k < sv.len() ==> #[trigger] sv[k] >= first + k
            &&& forall|k1: int, k2: int|
                0 <= k1 < k2 < sv.len() ==> #[trigger] sv[k1] < #[trigger] sv[k2]
            &&& forall|y: int|
                first <= y < end && !is_removed(s, lowest, y) ==> sv.contains(y)
        }),
    decreases end - first,
{
    if end > first {
        lemma_survivors_props(s, lowest, first, end - 1);
        let rest = survivors_upto(s, lowest, first, end - 1);
        let sv = survivors_upto(s, lowest, first, end);
        if !is_removed(s, lowest, end - 1) {
            assert(sv == rest.push(end - 1));
            assert forall|y: int|
                first <= y < end && !is_removed(s, lowest, y) implies sv.contains(y) by {
                if y < end - 1 {
                    assert(rest.contains(y));
                    let k = choose|k: int| 0 <= k < rest.len() && rest[k] == y;
                    assert(sv[k] == y);
                } else {
                    assert(sv[sv.len() - 1] == y);
                }
            }
        } else {
            assert forall|y: int|
                first <= y < end && !is_removed(s, lowest, y) implies sv.contains(y) by {
                assert(rest.contains(y));
            }
        }
    }
}

/// Where no row of `[a, b)` is removed, the survivor list just extends
/// with the rows themselves.
pub proof fn lemma_survivors_dense(s: Seq<Option<u64>>, lowest: int, first: int, a: int, b: int)
    requires
        first <= a <= b,
        forall|y: int| a <= y < b ==> !is_removed(s, lowest, y),
    ensures
        survivors_upto(s, lowest, first, b) == survivors_upto(s, lowest, first, a) + Seq::new(
            (b - a) as nat,
            |k: int| a + k,
        ),
    decreases b - a,
{
    if a == b {
        assert(survivors_upto(s, lowest, first, b) =~= survivors_upto(s, lowest, first, a)
            + Seq::new(0, |k: int| a + k));
    } else {
        lemma_survivors_dense(s, lowest, first, a, b - 1);
        assert(survivors_upto(s, lowest, first, b) == survivors_upto(s, lowest, first, b - 1).push(
            b - 1,
        ));
        assert(survivors_upto(s, lowest, first, a) + Seq::new((b - 1 - a) as nat, |k: int| a + k)
            =~= (survivors_upto(s, lowest, first, b - 1)));
        assert(survivors_upto(s, lowest, first, a) + Seq::new((b - a) as nat, |k: int| a + k)
            =~= survivors_upto(s, lowest, first, b - 1).push(b - 1));
    }
}

/// Whether row `line` is fully occupied.  Probing a row outside the
/// playable grid is a caller error.
pub fn is_full_line(line: u32, tile_board: &TileBoard) -> (r: bool)
    requires
        tile_board.wf(),
        line < 20,
    ensures
        r == row_full(tile_board.tile_map@, line as int),
{
    let mut i: u32 = 0;
    while i < 10
        invariant
            0 <= i <= 10,
            tile_board.wf(),
            line < 20,
            forall|x: int| 0 <= x < i ==> #[trigger] tile_board.tile_map@[line as int * 10 + x] is Some,
        decreases 10 - i,
    {
        if tile_board.entity_at(i, line).is_none() {
            return false;
        }
        i += 1;
    }
    true
}

/// Empty every cell of a full row.
fn clear_line(line: u32, tile_board: &mut TileBoard)
    requires
        old(tile_board).wf(),
        line < 20,
        row_full(old(tile_board).tile_map@, line as int),
    ensures
        final (tile_board).wf(),
        final (tile_board).width == old(tile_board).width,
        final (tile_board).height == old(tile_board).height,
        forall|x: int, y: int|
            0 <= x < 10 && 0 <= y < 20 ==> final (tile_board).cell(x, y) == (if y == line as int {
                None
            } else {
                old(tile_board).cell(x, y)
            }),
{
    let mut i: u32 = 0;
    while i < 10
        invariant
            0 <= i <= 10,
            tile_board.wf(),
            line < 20,
            tile_board.width == old(tile_board).width,
            tile_board.height == old(tile_board).height,
            forall|x: int| i <= x < 10 ==> tile_board.cell(x, line as int) == old(
                tile_board,
            ).cell(x, line as int),
            row_full(old(tile_board).tile_map@, line as int),
            forall|x: int, y: int|
                0 <= x < 10 && 0 <= y < 20 ==> tile_board.cell(x, y) == (if y == line as int && x
                    < i {
                    None
                } else {
                    old(tile_board).cell(x, y)
                }),
        decreases 10 - i,
    {
        let removed = tile_board.remove(i, line);
        proof {
            assert(removed is Some);
        }
        i += 1;
    }
}

/// Compute the lowest row spanned by the active piece.
fn lowest_y(state: &GameState) -> (low: i32)
    requires
        state.wf(),
    ensures
        low as int == lowest_y_spec(*state),
        -3 <= low <= 22,
{
    let dm = state.current_tetromino.down_most_position();
    proof {
        let ty = state.current_tetromino.tetromino_type;
        let r = state.current_tetromino.rotate as int;
        lemma_piece_cells_props(ty, r);
        lemma_extremal_bounds(state.current_tetromino.cells(), Dir::Down);
        lemma_extremal_nonempty(state.current_tetromino.cells(), Dir::Down);
    }
    let mut m: i32 = dm[0].y;
    let mut i: usize = 1;
    while i < dm.len()
        invariant
            1 <= i <= dm@.len(),
            dm@.len() > 0,
            forall|k: int|
                0 <= k < dm@.len() ==> -2 <= (#[trigger] dm@[k]).x <= 2 && 0 <= dm@[k].y <= 3,
            m as int == min_y_rec(dm@, i as int),
            0 <= m <= 3,
        decreases dm@.len() - i,
    {
        if dm[i].y < m {
            m = dm[i].y;
        }
        i += 1;
    }
    m + state.current_position.y
}


/// Relocate row `src` onto row `dst` by swapping each occupied source cell
/// into the destination.  When `dst` differs from `src` the destination row
/// must already be empty; the source row is empty afterwards.
fn relocate_pair(tile_board: &mut TileBoard, src: u32, dst: u32)
    requires
        old(tile_board).wf(),
        src < 20,
        dst < 20,
        dst != src ==> forall|x: int| 0 <= x < 10 ==> old(tile_board).cell(x, dst as int) is None,
    ensures
        final (tile_board).wf(),
        final (tile_board).width == old(tile_board).width,
        final (tile_board).height == old(tile_board).height,
        forall|x: int|
            0 <= x < 10 ==> final (tile_board).cell(x, dst as int) == old(tile_board).cell(
                x,
                src as int,
            ),
        dst != src ==> forall|x: int|
            0 <= x < 10 ==> final (tile_board).cell(x, src as int) is None,
        forall|x: int, y: int|
            0 <= x < 10 && 0 <= y < 20 && y != src as int && y != dst as int ==> final (
            tile_board).cell(x, y) == old(tile_board).cell(x, y),
{
    let mut i: u32 = 0;
    while i < 10
        invariant
            tile_board.wf(),
            tile_board.width == old(tile_board).width,
            tile_board.height == old(tile_board).height,
            0 <= i <= 10,
            src < 20,
            dst < 20,
            dst != src ==> forall|x: int|
                0 <= x < 10 ==> old(tile_board).cell(x, dst as int) is None,
            forall|x: int|
                0 <= x < i ==> tile_board.cell(x, dst as int) == old(tile_board).cell(
                    x,
                    src as int,
                ),
            dst != src ==> forall|x: int|
                0 <= x < i ==> tile_board.cell(x, src as int) is None,
            forall|x: int|
                i <= x < 10 ==> tile_board.cell(x, src as int) == old(tile_board).cell(
                    x,
                    src as int,
                ),
            forall|x: int|
                i <= x < 10 ==> tile_board.cell(x, dst as int) == old(tile_board).cell(
                    x,
                    dst as int,
                ),
            forall|x: int, y: int|
                0 <= x < 10 && 0 <= y < 20 && y != src as int && y != dst as int ==>
                    tile_board.cell(x, y) == old(tile_board).cell(x, y),
        decreases 10 - i,
    {
        if tile_board.entity_at(i, src).is_some() {
            let _e = tile_board.swap_tile((i, src), (i, dst));
        }
        i += 1;
    }
}

/// Whether the list of cleared rows contains `val`.
fn contains_u32(v: &Vec<u32>, val: u32) -> (r: bool)
    ensures
        r == v@.contains(val),
{
    let mut i: usize = 0;
    while i < v.len()
        invariant
            0 <= i <= v@.len(),
            forall|k: int| 0 <= k < i ==> v@[k] != val,
        decreases v@.len() - i,
    {
        if v[i] == val {
            return true;
        }
        i += 1;
    }
    false
}

/// Detect and clear the full rows among the four rows spanned by the
/// just-locked piece, then compact the rows above the first cleared row
/// downward, preserving their order and the identity of every surviving
/// block.  Clearing zero rows leaves the board untouched.
pub fn clear_lines(state: &GameState, tile_board: &mut TileBoard)
    requires
        state.wf(),
        old(tile_board).wf(),
    ensures
        final (tile_board).wf(),
        final (tile_board).width == old(tile_board).width,
        final (tile_board).height == old(tile_board).height,
        final (tile_board).tile_map@ == clear_lines_spec(
            old(tile_board).tile_map@,
            lowest_y_spec(*state),
        ),
{
    let ghost b0 = old(tile_board).tile_map@;
    let ghost low = lowest_y_spec(*state);
    let lowest = lowest_y(state);

    // scan the four candidate rows, clearing each full one
    let mut lines_to_remove: Vec<u32> = Vec::new();
    let mut line_to_remove: i32 = lowest;
    let mut i: u32 = 0;
    while i < 4
        invariant
            state.wf(),
            tile_board.wf(),
            tile_board.width == old(tile_board).width,
            tile_board.height == old(tile_board).height,
            b0 == old(tile_board).tile_map@,
            b0.len() == 200,
            low == lowest_y_spec(*state),
            lowest as int == low,
            -3 <= lowest <= 22,
            0 <= i <= 4,
            line_to_remove as int == low + (i as int),
            forall|x: int, y: int|
                0 <= x < 10 && 0 <= y < 20 ==> tile_board.cell(x, y) == (if is_removed(b0, low, y)
                    && y < low + (i as int) {
                    None
                } else {
                    b0[y * 10 + x]
                }),
            forall|k: int|
                0 <= k < lines_to_remove@.len() ==> is_removed(
                    b0,
                    low,
                    #[trigger] lines_to_remove@[k] as int,
                ) && low <= (lines_to_remove@[k] as int) < low + (i as int),
            forall|k1: int, k2: int|
                0 <= k1 < k2 < lines_to_remove@.len() ==> lines_to_remove@[k1]
                    < lines_to_remove@[k2],
            forall|y: int|
                low <= y < low + (i as int) && is_removed(b0, low, y) ==> lines_to_remove@.contains(
                    y as u32,
                ),
        decreases 4 - i,
    {
        let y = line_to_remove;
        if 0 <= y && y <= 19 && is_full_line(y as u32, tile_board) {
            proof {
                assert(row_full(b0, y as int)) by {
                    assert forall|x: int| 0 <= x < 10 implies #[trigger] b0[y as int * 10 + x]
                        is Some by {
                        assert(tile_board.cell(x, y as int) == b0[y as int * 10 + x]);
                        assert(tile_board.tile_map@[y as int * 10 + x] is Some);
                    }
                }
            }
            clear_line(y as u32, tile_board);
            let ghost pre = lines_to_remove@;
            lines_to_remove.push(y as u32);
            proof {
                assert forall|yy: int|
                    low <= yy < low + (i + 1) && is_removed(b0, low, yy)
                        implies lines_to_remove@.contains(yy as u32) by {
                    if yy < low + i {
                        assert(pre.contains(yy as u32));
                        let k = choose|k: int| 0 <= k < pre.len() && pre[k] == yy as u32;
                        assert(lines_to_remove@[k] == yy as u32);
                    } else {
                        assert(lines_to_remove@.last() == yy as u32);
                    }
                }
            }
        } else {
            proof {
                assert(!is_removed(b0, low, low + (i as int))) by {
                    if 0 <= y && y <= 19 {
                        // the row is inside the grid but not full
                        if row_full(b0, y as int) {
                            assert forall|x: int|
                                0 <= x < 10 implies #[trigger] tile_board.tile_map@[y as int * 10
                                + x] is Some by {
                                assert(tile_board.cell(x, y as int) == b0[y as int * 10 + x]);
                            }
                        }
                    }
                }
            }
        }
        line_to_remove += 1;
        i += 1;
    }

    if lines_to_remove.len() == 0 {
        proof {
            lemma_first_removed(b0, low, 0);
            let f = first_removed_from(b0, low, 0);
            if f < 20 {
                assert(is_removed(b0, low, f));
                assert(lines_to_remove@.contains(f as u32));
            }
            assert(tile_board.tile_map@ =~= clear_lines_spec(b0, low)) by {
                assert forall|c: int| 0 <= c < 200 implies tile_board.tile_map@[c] == b0[c] by {
                    let yy = c / 10;
                    let xx = c % 10;
                    assert(c == yy * 10 + xx);
                    assert(tile_board.cell(xx, yy) == b0[c]);
                }
            }
        }
        return;
    }

    let first_line: u32 = lines_to_remove[0];
    let ghost first = first_line as int;
    proof {
        lemma_first_removed(b0, low, 0);
        let f = first_removed_from(b0, low, 0);
        assert(is_removed(b0, low, first));
        assert(0 <= first < 20);
        // every removed row is listed, and the list is ascending, so the
        // head of the list is the least removed row
        assert forall|y: int| 0 <= y < first implies !is_removed(b0, low, y) by {
            if is_removed(b0, low, y) {
                assert(lines_to_remove@.contains(y as u32));
                let k = choose|k: int|
                    0 <= k < lines_to_remove@.len() && lines_to_remove@[k] == y as u32;
                if k > 0 {
                    assert(lines_to_remove@[0] < lines_to_remove@[k]);
                }
            }
        }
        if f < first {
            assert(is_removed(b0, low, f));
        }
        if f > first {
            assert(!is_removed(b0, low, first));
        }
        assert(f == first);
    }

    // pair each surviving source row with its destination row
    let mut swap: Vec<(u32, u32)> = Vec::new();
    let mut idx: u32 = first_line;
    let mut i2: u32 = first_line;
    while i2 < 20
        invariant
            tile_board.wf(),
            tile_board.width == old(tile_board).width,
            tile_board.height == old(tile_board).height,
            b0.len() == 200,
            first == first_line as int,
            0 <= first < 20,
            first <= i2 as int <= 20,
            idx as int == first + swap@.len(),
            swap@.len() == survivors_upto(b0, low, first, i2 as int).len(),
            forall|k: int|
                0 <= k < swap@.len() ==> (#[trigger] swap@[k]).0 as int == survivors_upto(
                    b0,
                    low,
                    first,
                    i2 as int,
                )[k] && swap@[k].1 as int == first + k,
            forall|k: int|
                0 <= k < lines_to_remove@.len() ==> is_removed(
                    b0,
                    low,
                    #[trigger] lines_to_remove@[k] as int,
                ),
            forall|y: int|
                low <= y < low + 4 && is_removed(b0, low, y) ==> lines_to_remove@.contains(y as u32),
            forall|x: int, y: int|
                0 <= x < 10 && 0 <= y < 20 ==> tile_board.cell(x, y) == (if is_removed(b0, low, y) {
                    None
                } else {
                    b0[y * 10 + x]
                }),
        decreases 20 - i2,
    {
        let is_cleared = contains_u32(&lines_to_remove, i2);
        proof {
            lemma_survivors_props(b0, low, first, i2 as int);
            assert(is_cleared == is_removed(b0, low, i2 as int)) by {
                if is_cleared {
                    let k = choose|k: int|
                        0 <= k < lines_to_remove@.len() && lines_to_remove@[k] == i2;
                    assert(is_removed(b0, low, lines_to_remove@[k] as int));
                }
                if is_removed(b0, low, i2 as int) {
                    assert(lines_to_remove@.contains(i2));
                }
            }
        }
        if !is_cleared {
            swap.push((i2, idx));
            idx += 1;
        }
        i2 += 1;
    }

    // relocate the surviving rows downward, lowest destination first
    let ghost b1 = tile_board.tile_map@;
    let ghost sv = survivors_upto(b0, low, first, 20);
    proof {
        assert forall|x: int, y: int| 0 <= x < 10 && 0 <= y < 20 implies #[trigger] b1[y * 10 + x]
            == (if is_removed(b0, low, y) {
            None
        } else {
            b0[y * 10 + x]
        }) by {
            assert(tile_board.cell(x, y) == b1[y * 10 + x]);
        }
        lemma_survivors_props(b0, low, first, 20);
        assert(swap@.len() == sv.len());
        assert forall|x: int, y: int|
            0 <= x < 10 && first <= y < 20 && (forall|k: int|
                0 <= k < sv.len() ==> #[trigger] sv[k] != y) implies #[trigger] tile_board.cell(
            x,
            y,
        ) is None by {
            if !is_removed(b0, low, y) {
                assert(sv.contains(y));
                let k = choose|k: int| 0 <= k < sv.len() && sv[k] == y;
                assert(false);
            }
        }
    }
    let mut j: usize = 0;
    while j < swap.len()
        invariant
            tile_board.wf(),
            tile_board.width == old(tile_board).width,
            tile_board.height == old(tile_board).height,
            b0.len() == 200,
            b1.len() == 200,
            0 <= first < 20,
            0 <= j <= swap@.len(),
            sv == survivors_upto(b0, low, first, 20),
            swap@.len() == sv.len(),
            first == first_removed_from(b0, low, 0),
            forall|x: int, y: int|
                0 <= x < 10 && 0 <= y < 20 ==> #[trigger] b1[y * 10 + x] == (if is_removed(
                    b0,
                    low,
                    y,
                ) {
                    None
                } else {
                    b0[y * 10 + x]
                }),
            sv.len() <= 20 - first,
            forall|k: int|
                0 <= k < swap@.len() ==> (#[trigger] swap@[k]).0 as int == sv[k] && swap@[k].1
                    as int == first + k,
            forall|k: int| 0 <= k < sv.len() ==> first <= #[trigger] sv[k] < 20,
            forall|k: int| 0 <= k < sv.len() ==> #[trigger] sv[k] >= first + k,
            forall|k1: int, k2: int|
                0 <= k1 < k2 < sv.len() ==> #[trigger] sv[k1] < #[trigger] sv[k2],
            forall|x: int, y: int|
                0 <= x < 10 && 0 <= y < first ==> #[trigger] tile_board.cell(x, y) == b1[y * 10
                    + x],
            forall|x: int, y: int|
                0 <= x < 10 && first <= y < first + j ==> #[trigger] tile_board.cell(x, y) == b1[sv[
                    y - first] * 10 + x],
            forall|x: int, y: int, k: int|
                0 <= x < 10 && first + j <= y < 20 && j <= k < sv.len() && #[trigger] sv[k] == y
                    ==> #[trigger] tile_board.cell(x, y) == b1[y * 10 + x],
            forall|x: int, y: int|
                0 <= x < 10 && first + j <= y < 20 && (forall|k: int|
                    j <= k < sv.len() ==> #[trigger] sv[k] != y) ==> #[trigger] tile_board.cell(
                    x,
                    y,
                ) is None,
        decreases swap@.len() - j,
    {
        let pair = swap[j];
        let src = pair.0;
        let dst = pair.1;
        proof {
            assert(src as int == sv[j as int]);
            assert(dst as int == first + j);
            if dst != src {
                assert forall|x: int| 0 <= x < 10 implies tile_board.cell(x, dst as int)
                    is None by {
                    assert forall|k: int|
                        j <= k < sv.len() implies #[trigger] sv[k] != dst as int by {
                        if k > j {
                            assert(sv[j as int] < sv[k]);
                        }
                    }
                }
            }
        }
        relocate_pair(tile_board, src, dst);
        proof {
            let jj = j as int;
            assert forall|x: int, y: int|
                0 <= x < 10 && first <= y < first + (jj + 1) implies #[trigger] tile_board.cell(
                x,
                y,
            ) == b1[sv[y - first] * 10 + x] by {
                if y == first + jj {
                    assert(tile_board.cell(x, y) == b1[sv[jj] * 10 + x]);
                }
            }
            assert forall|x: int, y: int|
                0 <= x < 10 && first + (jj + 1) <= y < 20 && (forall|k: int|
                    jj + 1 <= k < sv.len() ==> #[trigger] sv[k] != y)
                    implies #[trigger] tile_board.cell(x, y) is None by {
                if y == sv[jj] {
                    // the vacated source row
                    assert(sv[jj] as int != first + jj || src == dst);
                    if src as int != dst as int {
                        assert(tile_board.cell(x, y) is None);
                    } else {
                        assert(false);
                    }
                } else {
                    // the row was already empty before this pair
                    assert(forall|k: int| jj <= k < sv.len() ==> #[trigger] sv[k] != y);
                }
            }
        }
        j += 1;
    }

    proof {
        lemma_first_removed(b0, low, 0);
        assert(tile_board.tile_map@ =~= clear_lines_spec(b0, low)) by {
            assert forall|c: int| 0 <= c < 200 implies tile_board.tile_map@[c] == clear_lines_spec(
                b0,
                low,
            )[c] by {
                let yy = c / 10;
                let xx = c % 10;
                assert(c == yy * 10 + xx);
                if yy < first {
                    assert(tile_board.cell(xx, yy) == b1[c]);
                    assert(!is_removed(b0, low, yy));
                    assert(b1[c] == b0[c]);
                } else if yy - first < sv.len() {
                    assert(tile_board.cell(xx, yy) == b1[sv[yy - first] * 10 + xx]);
                    assert(!is_removed(b0, low, sv[yy - first]));
                    assert(b1[sv[yy - first] * 10 + xx] == b0[sv[yy - first] * 10 + xx]);
                } else {
                    assert forall|k: int|
                        sv.len() <= k < sv.len() implies #[trigger] sv[k] != yy by {}
                    assert(tile_board.cell(xx, yy) is None);
                }
            }
        }
    }
}


/// Law (line-clear idempotence): a pass that finds no full row in its
/// window leaves the board cell-for-cell identical.
pub proof fn lemma_clear_lines_noop(s: Seq<Option<u64>>, lowest: int)
    requires
        forall|y: int| !is_removed(s, lowest, y),
    ensures
        clear_lines_spec(s, lowest) == s,
{
    lemma_first_removed(s, lowest, 0);
    let f = first_removed_from(s, lowest, 0);
    if f < 20 {
        assert(is_removed(s, lowest, f));
    }
}

/// Law (compaction correctness): when the scan window is rows 0 to 3 and
/// row 2 is the only full row among them, clearing shifts every block of
/// rows 3 to 19 down exactly one row, leaves rows 0 and 1 untouched, and
/// empties the top row.  Rows outside the window (such as a full row 5)
/// are not cleared, only shifted.
pub proof fn lemma_compaction_shift(s: Seq<Option<u64>>)
    requires
        s.len() == 200,
        row_full(s, 2),
        !row_full(s, 0),
        !row_full(s, 1),
        !row_full(s, 3),
    ensures
        forall|x: int, y: int|
            0 <= x < 10 && 3 <= y < 20 ==> #[trigger] clear_lines_spec(s, 0)[(y - 1) * 10 + x]
                == s[y * 10 + x],
        forall|x: int| 0 <= x < 10 ==> #[trigger] clear_lines_spec(s, 0)[19 * 10 + x] is None,
        forall|x: int, y: int|
            0 <= x < 10 && 0 <= y < 2 ==> #[trigger] clear_lines_spec(s, 0)[y * 10 + x] == s[y * 10
                + x],
{
    let f = first_removed_from(s, 0, 0);
    assert(is_removed(s, 0, 2));
    assert(!is_removed(s, 0, 0) && !is_removed(s, 0, 1));
    assert(f == 2) by {
        lemma_first_removed(s, 0, 0);
        if f < 2 {
            assert(is_removed(s, 0, f));
        }
        if f > 2 {
            assert(!is_removed(s, 0, 2));
        }
    }
    let sv = survivors_upto(s, 0, 2, 20);
    assert forall|y: int| 4 <= y < 20 implies !is_removed(s, 0, y) by {}
    lemma_survivors_dense(s, 0, 2, 4, 20);
    assert(survivors_upto(s, 0, 2, 4) =~= seq![3int]) by {
        assert(survivors_upto(s, 0, 2, 2) =~= Seq::<int>::empty());
        assert(!is_removed(s, 0, 3));
        assert(survivors_upto(s, 0, 2, 3) =~= Seq::<int>::empty());
    }
    assert(sv =~= Seq::new(17, |k: int| 3 + k)) by {
        assert(sv == seq![3int] + Seq::new(16, |k: int| 4 + k));
    }
    assert(sv.len() == 17);
    let out = clear_lines_spec(s, 0);
    assert forall|x: int, y: int|
        0 <= x < 10 && 3 <= y < 20 implies #[trigger] out[(y - 1) * 10 + x] == s[y * 10 + x] by {
        let c = (y - 1) * 10 + x;
        assert(c / 10 == y - 1 && c % 10 == x);
        assert(2 <= y - 1 < 2 + 17);
        assert(sv[y - 1 - 2] == y);
    }
    assert forall|x: int| 0 <= x < 10 implies #[trigger] out[19 * 10 + x] is None by {
        let c = 19 * 10 + x;
        assert(c / 10 == 19 && c % 10 == x);
    }
    assert forall|x: int, y: int|
        0 <= x < 10 && 0 <= y < 2 implies #[trigger] out[y * 10 + x] == s[y * 10 + x] by {
        let c = y * 10 + x;
        assert(c / 10 == y && c % 10 == x);
    }
}

} // verus!
