//! Tetromino model: the seven piece shapes, their four rotation states,
//! and the derived extremal-cell queries (down-most, left-most, right-most)
//! used by the collision rules.
//!
//! Each rotation state is a fixed set of four integer cell offsets relative
//! to an implicit origin.  The extremal subsets are derived generically from
//! the footprint: for each occupied column its lowest cell, and for each
//! occupied row its leftmost / rightmost cell.  Only these cells can collide
//! first when the piece slides in the corresponding direction.

use vstd::prelude::*;

verus! {

/// A cell offset, or a board coordinate, in integer cells.
#[derive(Clone, Copy, PartialEq, Eq, Structural, Debug)]
pub struct Pos {
    pub x: i32,
    pub y: i32,
}

/// The seven tetromino shapes.
#[derive(Clone, Copy, PartialEq, Eq, Structural, Debug)]
pub enum TetrominoType {
    I,
    J,
    L,
    O,
    S,
    T,
    Z,
}

/// A sliding direction for the extremal-cell queries.
#[derive(Clone, Copy, PartialEq, Eq, Structural, Debug)]
pub enum Dir {
    Down,
    Left,
    Right,
}

/// Shorthand for building a cell offset in specifications.
pub open spec fn at(x: int, y: int) -> Pos {
    Pos { x: x as i32, y: y as i32 }
}

/// The four cell offsets of shape `t` in rotation state `r`.
///
/// Rotation states cycle 0 -> 1 -> 2 -> 3 -> 0 clockwise.  Out-of-range `r`
/// is a caller error; the executable queries require `r < 4`.
#[verifier::opaque]
pub open spec fn piece_cells(t: TetrominoType, r: int) -> Seq<Pos>
    recommends
        0 <= r < 4,
{
    match t {
        TetrominoType::I => (if r == 0 {
            seq![at(-1, 1), at(0, 1), at(1, 1), at(2, 1)]
        } else if r == 1 {
            seq![at(0, 3), at(0, 2), at(0, 1), at(0, 0)]
        } else if r == 2 {
            seq![at(1, 2), at(0, 2), at(-1, 2), at(-2, 2)]
        } else {
            seq![at(0, 0), at(0, 1), at(0, 2), at(0, 3)]
        }),
        TetrominoType::O => (if r == 0 {
            seq![at(0, 0), at(1, 0), at(1, 1), at(0, 1)]
        } else if r == 1 {
            seq![at(0, 1), at(0, 0), at(1, 0), at(1, 1)]
        } else if r == 2 {
            seq![at(1, 1), at(0, 1), at(0, 0), at(1, 0)]
        } else {
            seq![at(1, 0), at(1, 1), at(0, 1), at(0, 0)]
        }),
        TetrominoType::J => (if r == 0 {
            seq![at(0, 0), at(1, 0), at(1, 1), at(1, 2)]
        } else if r == 1 {
            seq![at(0, 1), at(0, 0), at(1, 0), at(2, 0)]
        } else if r == 2 {
            seq![at(1, 2), at(0, 2), at(0, 1), at(0, 0)]
        } else {
            seq![at(2, 0), at(2, 1), at(1, 1), at(0, 1)]
        }),
        TetrominoType::L => (if r == 0 {
            seq![at(0, 2), at(0, 1), at(0, 0), at(1, 0)]
        } else if r == 1 {
            seq![at(2, 1), at(1, 1), at(0, 1), at(0, 0)]
        } else if r == 2 {
            seq![at(1, 0), at(1, 1), at(1, 2), at(0, 2)]
        } else {
            seq![at(0, 0), at(1, 0), at(2, 0), at(2, 1)]
        }),
        TetrominoType::S => (if r == 0 {
            seq![at(1, 1), at(0, 1), at(0, 0), at(-1, 0)]
        } else if r == 1 {
            seq![at(0, 0), at(0, 1), at(-1, 1), at(-1, 2)]
        } else if r == 2 {
            seq![at(-1, 0), at(0, 0), at(0, 1), at(1, 1)]
        } else {
            seq![at(-1, 2), at(-1, 1), at(0, 1), at(0, 0)]
        }),
        TetrominoType::T => (if r == 0 {
            seq![at(0, 1), at(1, 0), at(0, 0), at(-1, 0)]
        } else if r == 1 {
            seq![at(1, 1), at(0, 0), at(0, 1), at(0, 2)]
        } else if r == 2 {
            seq![at(0, 0), at(-1, 1), at(0, 1), at(1, 1)]
        } else {
            seq![at(-1, 1), at(0, 2), at(0, 1), at(0, 0)]
        }),
        TetrominoType::Z => (if r == 0 {
            seq![at(-1, 1), at(0, 1), at(0, 0), at(1, 0)]
        } else if r == 1 {
            seq![at(0, 2), at(0, 1), at(-1, 1), at(-1, 0)]
        } else if r == 2 {
            seq![at(1, 0), at(0, 0), at(0, 1), at(-1, 1)]
        } else {
            seq![at(-1, 0), at(-1, 1), at(0, 1), at(0, 2)]
        }),
    }
}

/// The footprint of every shape is four distinct cells whose offsets lie in
/// a small box around the origin.
pub proof fn lemma_piece_cells_props(t: TetrominoType, r: int)
    requires
        0 <= r < 4,
    ensures
        piece_cells(t, r).len() == 4,
        piece_cells(t, r).no_duplicates(),
        forall|i: int|
            0 <= i < 4 ==> -2 <= (#[trigger] piece_cells(t, r)[i]).x <= 2 && 0 <= piece_cells(
                t,
                r,
            )[i].y <= 3,
{
    reveal(piece_cells);
}

/// `c` is extremal in direction `d` within `cells`: no other cell of the same
/// column (for `Down`) or row (for `Left`/`Right`) lies strictly beyond it.
pub open spec fn extremal_in(cells: Seq<Pos>, c: Pos, d: Dir) -> bool {
    match d {
        Dir::Down => forall|j: int|
            0 <= j < cells.len() && (#[trigger] cells[j]).x == c.x ==> c.y <= cells[j].y,
        Dir::Left => forall|j: int|
            0 <= j < cells.len() && (#[trigger] cells[j]).y == c.y ==> c.x <= cells[j].x,
        Dir::Right => forall|j: int|
            0 <= j < cells.len() && (#[trigger] cells[j]).y == c.y ==> c.x >= cells[j].x,
    }
}

/// The extremal cells of `cells[..n]` in direction `d`, in footprint order.
pub open spec fn extremal_rec(cells: Seq<Pos>, n: int, d: Dir) -> Seq<Pos>
    decreases n,
{
    if n <= 0 {
        Seq::empty()
    } else {
        let rest = extremal_rec(cells, n - 1, d);
        if extremal_in(cells, cells[n - 1], d) {
            rest.push(cells[n - 1])
        } else {
            rest
        }
    }
}

/// The cells of the footprint that collide first when the piece moves down:
/// for each occupied column, its lowest cell.
pub open spec fn down_most_spec(cells: Seq<Pos>) -> Seq<Pos> {
    extremal_rec(cells, cells.len() as int, Dir::Down)
}

/// For each occupied row, its leftmost cell.
pub open spec fn left_most_spec(cells: Seq<Pos>) -> Seq<Pos> {
    extremal_rec(cells, cells.len() as int, Dir::Left)
}

/// For each occupied row, its rightmost cell.
pub open spec fn right_most_spec(cells: Seq<Pos>) -> Seq<Pos> {
    extremal_rec(cells, cells.len() as int, Dir::Right)
}

/// The column key (for `Down`) or row key (for `Left`/`Right`) that the
/// extremal queries group cells by.
pub open spec fn dir_key(c: Pos, d: Dir) -> int {
    match d {
        Dir::Down => c.x as int,
        Dir::Left => c.y as int,
        Dir::Right => c.y as int,
    }
}

proof fn lemma_extremal_rec_membership(cells: Seq<Pos>, n: int, d: Dir)
    requires
        0 <= n <= cells.len(),
    ensures
        forall|k: int|
            0 <= k < extremal_rec(cells, n, d).len() ==> extremal_in(
                cells,
                #[trigger] extremal_rec(cells, n, d)[k],
                d,
            ) && cells.contains(extremal_rec(cells, n, d)[k]) && exists|j: int|
                0 <= j < n && cells[j] == extremal_rec(cells, n, d)[k],
        forall|j: int|
            0 <= j < n && extremal_in(cells, #[trigger] cells[j], d) ==> extremal_rec(
                cells,
                n,
                d,
            ).contains(cells[j]),
        cells.no_duplicates() ==> extremal_rec(cells, n, d).no_duplicates(),
        cells.no_duplicates() ==> forall|j: int|
            0 <= j < n && !extremal_in(cells, #[trigger] cells[j], d) ==> !extremal_rec(
                cells,
                n,
                d,
            ).contains(cells[j]),
    decreases n,
{
    if n > 0 {
        lemma_extremal_rec_membership(cells, n - 1, d);
        let rest = extremal_rec(cells, n - 1, d);
        let whole = extremal_rec(cells, n, d);
        if extremal_in(cells, cells[n - 1], d) {
            assert(whole == rest.push(cells[n - 1]));
            assert forall|j: int|
                0 <= j < n && extremal_in(cells, #[trigger] cells[j], d) implies whole.contains(
                cells[j],
            ) by {
                if j < n - 1 {
                    assert(rest.contains(cells[j]));
                    let w = choose|w: int| 0 <= w < rest.len() && rest[w] == cells[j];
                    assert(whole[w] == cells[j]);
                } else {
                    assert(whole[whole.len() - 1] == cells[n - 1]);
                }
            }
            if cells.no_duplicates() {
                // the newly pushed cell cannot already be in `rest`
                assert(!rest.contains(cells[n - 1])) by {
                    if rest.contains(cells[n - 1]) {
                        let k = choose|k: int| 0 <= k < rest.len() && rest[k] == cells[n - 1];
                        let j = choose|j: int| 0 <= j < n - 1 && cells[j] == rest[k];
                        assert(cells[j] == cells[n - 1] && j != n - 1);
                    }
                }
                assert(whole.no_duplicates()) by {
                    assert forall|a: int, b: int|
                        0 <= a < whole.len() && 0 <= b < whole.len() && a != b implies whole[a]
                        != whole[b] by {
                        if a < whole.len() - 1 && b < whole.len() - 1 {
                            assert(whole[a] == rest[a] && whole[b] == rest[b]);
                        } else if a == whole.len() - 1 {
                            assert(whole[b] == rest[b] && rest.contains(rest[b]));
                        } else {
                            assert(whole[a] == rest[a] && rest.contains(rest[a]));
                        }
                    }
                }
            }
        } else {
            assert(whole == rest);
            assert forall|j: int|
                0 <= j < n && extremal_in(cells, #[trigger] cells[j], d) implies whole.contains(
                cells[j],
            ) by {
                assert(rest.contains(cells[j]));
            }
        }
    }
}

/// Every cell has an extremal representative with the same column/row key.
proof fn lemma_key_has_extremal(cells: Seq<Pos>, i: int, d: Dir)
    requires
        0 <= i < cells.len(),
    ensures
        exists|k: int|
            0 <= k < cells.len() && dir_key(#[trigger] cells[k], d) == dir_key(cells[i], d)
                && extremal_in(cells, cells[k], d),
    decreases (match d {
        Dir::Down => cells[i].y - i32::MIN,
        Dir::Left => cells[i].x - i32::MIN,
        Dir::Right => i32::MAX - cells[i].x,
    }),
{
    if extremal_in(cells, cells[i], d) {
        assert(0 <= i < cells.len() && dir_key(cells[i], d) == dir_key(cells[i], d) && extremal_in(
            cells,
            cells[i],
            d,
        ));
    } else {
        match d {
            Dir::Down => {
                let j = choose|j: int|
                    0 <= j < cells.len() && (#[trigger] cells[j]).x == cells[i].x && cells[j].y
                        < cells[i].y;
                lemma_key_has_extremal(cells, j, d);
            },
            Dir::Left => {
                let j = choose|j: int|
                    0 <= j < cells.len() && (#[trigger] cells[j]).y == cells[i].y && cells[j].x
                        < cells[i].x;
                lemma_key_has_extremal(cells, j, d);
            },
            Dir::Right => {
                let j = choose|j: int|
                    0 <= j < cells.len() && (#[trigger] cells[j]).y == cells[i].y && cells[j].x
                        > cells[i].x;
                lemma_key_has_extremal(cells, j, d);
            },
        }
    }
}

/// Structure of one extremal set: it keeps exactly the extremal cells of the
/// footprint, and holds exactly one cell for every occupied column (`Down`)
/// or row (`Left`/`Right`).
pub proof fn lemma_extremal_structure(cells: Seq<Pos>, d: Dir)
    requires
        cells.no_duplicates(),
    ensures
        forall|k: int|
            0 <= k < extremal_rec(cells, cells.len() as int, d).len() ==> extremal_in(
                cells,
                #[trigger] extremal_rec(cells, cells.len() as int, d)[k],
                d,
            ) && cells.contains(extremal_rec(cells, cells.len() as int, d)[k]),
        forall|j: int|
            0 <= j < cells.len() && extremal_in(cells, #[trigger] cells[j], d) ==> extremal_rec(
                cells,
                cells.len() as int,
                d,
            ).contains(cells[j]),
        // at least one extremal cell per occupied column/row
        forall|i: int|
            0 <= i < cells.len() ==> exists|k: int|
                0 <= k < extremal_rec(cells, cells.len() as int, d).len() && dir_key(
                    #[trigger] extremal_rec(cells, cells.len() as int, d)[k],
                    d,
                ) == dir_key(#[trigger] cells[i], d),
        // at most one extremal cell per occupied column/row
        forall|k1: int, k2: int|
            0 <= k1 < extremal_rec(cells, cells.len() as int, d).len() && 0 <= k2 < extremal_rec(
                cells,
                cells.len() as int,
                d,
            ).len() && k1 != k2 ==> dir_key(#[trigger] extremal_rec(cells, cells.len() as int, d)[k1], d)
                != dir_key(#[trigger] extremal_rec(cells, cells.len() as int, d)[k2], d),
{
    lemma_extremal_rec_membership(cells, cells.len() as int, d);
    lemma_extremal_at_least(cells, d);
    lemma_extremal_at_most(cells, d);
}

/// Every occupied column/row is represented in the extremal set.
proof fn lemma_extremal_at_least(cells: Seq<Pos>, d: Dir)
    ensures
        forall|i: int|
            0 <= i < cells.len() ==> exists|k: int|
                0 <= k < extremal_rec(cells, cells.len() as int, d).len() && dir_key(
                    #[trigger] extremal_rec(cells, cells.len() as int, d)[k],
                    d,
                ) == dir_key(#[trigger] cells[i], d),
{
    let n = cells.len() as int;
    let ex = extremal_rec(cells, n, d);
    lemma_extremal_rec_membership(cells, n, d);
    assert forall|i: int| 0 <= i < cells.len() implies exists|k: int|
        0 <= k < ex.len() && dir_key(#[trigger] ex[k], d) == dir_key(#[trigger] cells[i], d) by {
        lemma_key_has_extremal(cells, i, d);
        let j = choose|j: int|
            0 <= j < cells.len() && dir_key(#[trigger] cells[j], d) == dir_key(cells[i], d)
                && extremal_in(cells, cells[j], d);
        assert(ex.contains(cells[j]));
        let k = choose|k: int| 0 <= k < ex.len() && ex[k] == cells[j];
        assert(dir_key(ex[k], d) == dir_key(cells[i], d));
    }
}

/// No two distinct extremal cells share a column/row key.
proof fn lemma_extremal_at_most(cells: Seq<Pos>, d: Dir)
    requires
        cells.no_duplicates(),
    ensures
        forall|k1: int, k2: int|
            0 <= k1 < extremal_rec(cells, cells.len() as int, d).len() && 0 <= k2 < extremal_rec(
                cells,
                cells.len() as int,
                d,
            ).len() && k1 != k2 ==> dir_key(#[trigger] extremal_rec(cells, cells.len() as int, d)[k1], d)
                != dir_key(#[trigger] extremal_rec(cells, cells.len() as int, d)[k2], d),
{
    let n = cells.len() as int;
    let ex = extremal_rec(cells, n, d);
    lemma_extremal_rec_membership(cells, n, d);
    assert forall|k1: int, k2: int|
        0 <= k1 < ex.len() && 0 <= k2 < ex.len() && k1 != k2 implies dir_key(#[trigger] ex[k1], d)
        != dir_key(#[trigger] ex[k2], d) by {
        if dir_key(ex[k1], d) == dir_key(ex[k2], d) {
            // both extremal with the same key forces equal coordinates,
            // contradicting distinctness of the filtered sequence
            assert(extremal_in(cells, ex[k1], d) && cells.contains(ex[k1]));
            assert(extremal_in(cells, ex[k2], d) && cells.contains(ex[k2]));
            let j1 = choose|j: int| 0 <= j < cells.len() && cells[j] == ex[k1];
            let j2 = choose|j: int| 0 <= j < cells.len() && cells[j] == ex[k2];
            match d {
                Dir::Down => {
                    assert(ex[k1].y <= cells[j2].y && ex[k2].y <= cells[j1].y);
                },
                Dir::Left => {
                    assert(ex[k1].x <= cells[j2].x && ex[k2].x <= cells[j1].x);
                },
                Dir::Right => {
                    assert(ex[k1].x >= cells[j2].x && ex[k2].x >= cells[j1].x);
                },
            }
            assert(ex[k1] == ex[k2]);
        }
    }
}

/// An active tetromino: its shape, its sprite index, and its current
/// rotation state.
#[derive(Clone, Copy, PartialEq, Eq, Structural, Debug)]
pub struct Tetromino {
    pub tetromino_type: TetrominoType,
    pub index: usize,
    pub rotate: usize,
}

impl Tetromino {
    /// Well-formedness: the rotation state is one of the four states and the
    /// sprite index is one of the seven shapes.
    pub open spec fn wf(self) -> bool {
        self.rotate < 4 && self.index < 7
    }

    /// The cell offsets of the current rotation state.
    pub open spec fn cells(self) -> Seq<Pos> {
        piece_cells(self.tetromino_type, self.rotate as int)
    }

    /// A fresh piece of shape `tetromino_type` in rotation state 0.
    pub fn new(tetromino_type: TetrominoType, index: usize) -> (t: Self)
        requires
            index < 7,
        ensures
            t == (Tetromino { tetromino_type, index, rotate: 0 }),
            t.wf(),
    {
        Tetromino { tetromino_type, index, rotate: 0 }
    }

    /// The four cells of the current rotation state.
    pub fn get_position(&self) -> (res: Vec<Pos>)
        requires
            self.wf(),
        ensures
            res@ == self.cells(),
    {
        self.get_position2(self.rotate)
    }

    /// The four cells of rotation state `rotate`.
    pub fn get_position2(&self, rotate: usize) -> (res: Vec<Pos>)
        requires
            rotate < 4,
        ensures
            res@ == piece_cells(self.tetromino_type, rotate as int),
    {
        let res = match self.tetromino_type {
            TetrominoType::I => match rotate {
                0 => quad(-1, 1, 0, 1, 1, 1, 2, 1),
                1 => quad(0, 3, 0, 2, 0, 1, 0, 0),
                2 => quad(1, 2, 0, 2, -1, 2, -2, 2),
                _ => quad(0, 0, 0, 1, 0, 2, 0, 3),
            },
            TetrominoType::O => match rotate {
                0 => quad(0, 0, 1, 0, 1, 1, 0, 1),
                1 => quad(0, 1, 0, 0, 1, 0, 1, 1),
                2 => quad(1, 1, 0, 1, 0, 0, 1, 0),
                _ => quad(1, 0, 1, 1, 0, 1, 0, 0),
            },
            TetrominoType::J => match rotate {
                0 => quad(0, 0, 1, 0, 1, 1, 1, 2),
                1 => quad(0, 1, 0, 0, 1, 0, 2, 0),
                2 => quad(1, 2, 0, 2, 0, 1, 0, 0),
                _ => quad(2, 0, 2, 1, 1, 1, 0, 1),
            },
            TetrominoType::L => match rotate {
                0 => quad(0, 2, 0, 1, 0, 0, 1, 0),
                1 => quad(2, 1, 1, 1, 0, 1, 0, 0),
                2 => quad(1, 0, 1, 1, 1, 2, 0, 2),
                _ => quad(0, 0, 1, 0, 2, 0, 2, 1),
            },
            TetrominoType::S => match rotate {
                0 => quad(1, 1, 0, 1, 0, 0, -1, 0),
                1 => quad(0, 0, 0, 1, -1, 1, -1, 2),
                2 => quad(-1, 0, 0, 0, 0, 1, 1, 1),
                _ => quad(-1, 2, -1, 1, 0, 1, 0, 0),
            },
            TetrominoType::T => match rotate {
                0 => quad(0, 1, 1, 0, 0, 0, -1, 0),
                1 => quad(1, 1, 0, 0, 0, 1, 0, 2),
                2 => quad(0, 0, -1, 1, 0, 1, 1, 1),
                _ => quad(-1, 1, 0, 2, 0, 1, 0, 0),
            },
            TetrominoType::Z => match rotate {
                0 => quad(-1, 1, 0, 1, 0, 0, 1, 0),
                1 => quad(0, 2, 0, 1, -1, 1, -1, 0),
                2 => quad(1, 0, 0, 0, 0, 1, -1, 1),
                _ => quad(-1, 0, -1, 1, 0, 1, 0, 2),
            },
        };
        proof {
            reveal(piece_cells);
            assert(res@ =~= piece_cells(self.tetromino_type, rotate as int));
        }
        res
    }

    /// Rotate one state counter-clockwise: 0 -> 3 -> 2 -> 1 -> 0.
    pub fn rotate_left(&mut self)
        requires
            old(self).wf(),
        ensures
            final (self).rotate == rot_ccw(old(self).rotate as int),
            final (self).tetromino_type == old(self).tetromino_type,
            final (self).index == old(self).index,
            final (self).wf(),
    {
        self.rotate = (self.rotate + 3) % 4;
    }

    /// Rotate one state clockwise: 0 -> 1 -> 2 -> 3 -> 0.
    pub fn rotate_right(&mut self)
        requires
            old(self).wf(),
        ensures
            final (self).rotate == rot_cw(old(self).rotate as int),
            final (self).tetromino_type == old(self).tetromino_type,
            final (self).index == old(self).index,
            final (self).wf(),
    {
        self.rotate = (self.rotate + 1) % 4;
    }

    /// The down-most cell of each occupied column, at the current rotation.
    pub fn down_most_position(&self) -> (res: Vec<Pos>)
        requires
            self.wf(),
        ensures
            res@ == down_most_spec(self.cells()),
    {
        let cells = self.get_position();
        extremal_position(&cells, Dir::Down)
    }

    /// The left-most cell of each occupied row, at the current rotation.
    pub fn left_most_position(&self) -> (res: Vec<Pos>)
        requires
            self.wf(),
        ensures
            res@ == left_most_spec(self.cells()),
    {
        let cells = self.get_position();
        extremal_position(&cells, Dir::Left)
    }

    /// The right-most cell of each occupied row, at the current rotation.
    pub fn right_most_position(&self) -> (res: Vec<Pos>)
        requires
            self.wf(),
        ensures
            res@ == right_most_spec(self.cells()),
    {
        let cells = self.get_position();
        extremal_position(&cells, Dir::Right)
    }
}

/// The clockwise successor of a rotation state.
pub open spec fn rot_cw(r: int) -> int {
    (r + 1) % 4
}

/// The counter-clockwise successor of a rotation state.
pub open spec fn rot_ccw(r: int) -> int {
    (r + 3) % 4
}

/// Law: four rotations in either direction return a piece to its original
/// rotation state, and hence to its original cell offsets.
pub proof fn lemma_rotation_cycle(t: Tetromino)
    requires
        t.wf(),
    ensures
        rot_cw(rot_cw(rot_cw(rot_cw(t.rotate as int)))) == t.rotate as int,
        rot_ccw(rot_ccw(rot_ccw(rot_ccw(t.rotate as int)))) == t.rotate as int,
        piece_cells(t.tetromino_type, rot_cw(rot_cw(rot_cw(rot_cw(t.rotate as int)))))
            == t.cells(),
        piece_cells(t.tetromino_type, rot_ccw(rot_ccw(rot_ccw(rot_ccw(t.rotate as int)))))
            == t.cells(),
{
}

/// The down-most set of a footprint is a subset holding exactly one cell
/// per occupied column.
pub open spec fn down_set_exact(cells: Seq<Pos>) -> bool {
    let dm = down_most_spec(cells);
    &&& forall|k: int| 0 <= k < dm.len() ==> cells.contains(#[trigger] dm[k])
    &&& forall|i: int|
        0 <= i < cells.len() ==> exists|k: int|
            0 <= k < dm.len() && (#[trigger] dm[k]).x == (#[trigger] cells[i]).x
    &&& forall|k1: int, k2: int|
        0 <= k1 < dm.len() && 0 <= k2 < dm.len() && k1 != k2 ==> (#[trigger] dm[k1]).x != (
        #[trigger] dm[k2]).x
}

/// The left-most set of a footprint is a subset holding exactly one cell
/// per occupied row.
pub open spec fn left_set_exact(cells: Seq<Pos>) -> bool {
    let lm = left_most_spec(cells);
    &&& forall|k: int| 0 <= k < lm.len() ==> cells.contains(#[trigger] lm[k])
    &&& forall|i: int|
        0 <= i < cells.len() ==> exists|k: int|
            0 <= k < lm.len() && (#[trigger] lm[k]).y == (#[trigger] cells[i]).y
    &&& forall|k1: int, k2: int|
        0 <= k1 < lm.len() && 0 <= k2 < lm.len() && k1 != k2 ==> (#[trigger] lm[k1]).y != (
        #[trigger] lm[k2]).y
}

/// The right-most set of a footprint is a subset holding exactly one cell
/// per occupied row.
pub open spec fn right_set_exact(cells: Seq<Pos>) -> bool {
    let rm = right_most_spec(cells);
    &&& forall|k: int| 0 <= k < rm.len() ==> cells.contains(#[trigger] rm[k])
    &&& forall|i: int|
        0 <= i < cells.len() ==> exists|k: int|
            0 <= k < rm.len() && (#[trigger] rm[k]).y == (#[trigger] cells[i]).y
    &&& forall|k1: int, k2: int|
        0 <= k1 < rm.len() && 0 <= k2 < rm.len() && k1 != k2 ==> (#[trigger] rm[k1]).y != (
        #[trigger] rm[k2]).y
}

/// The three extremal sets, together with the interior (non-extremal)
/// cells, reconstruct the full footprint.
pub open spec fn extremal_union_covers(cells: Seq<Pos>) -> bool {
    forall|j: int|
        0 <= j < cells.len() ==> down_most_spec(cells).contains(#[trigger] cells[j])
            || left_most_spec(cells).contains(cells[j]) || right_most_spec(cells).contains(
            cells[j],
        ) || (!extremal_in(cells, cells[j], Dir::Down) && !extremal_in(cells, cells[j], Dir::Left)
            && !extremal_in(cells, cells[j], Dir::Right))
}

/// The extremal sets of a footprint partition it: each is a subset of the
/// footprint, the down-most set holds exactly one cell per occupied column,
/// the left-most and right-most sets exactly one cell per occupied row, and
/// together with the interior (non-extremal) cells they reconstruct the
/// footprint.
pub open spec fn extremal_sets_partition(cells: Seq<Pos>) -> bool {
    &&& down_set_exact(cells)
    &&& left_set_exact(cells)
    &&& right_set_exact(cells)
    &&& extremal_union_covers(cells)
}

proof fn lemma_down_set_exact(cells: Seq<Pos>)
    requires
        cells.no_duplicates(),
    ensures
        down_set_exact(cells),
{
    let dm = down_most_spec(cells);
    lemma_extremal_structure(cells, Dir::Down);
    lemma_key_representative(cells, Dir::Down);
    assert forall|k1: int, k2: int|
        0 <= k1 < dm.len() && 0 <= k2 < dm.len() && k1 != k2 implies (#[trigger] dm[k1]).x != (
    #[trigger] dm[k2]).x by {
        assert(dir_key(dm[k1], Dir::Down) != dir_key(dm[k2], Dir::Down));
    }
}

proof fn lemma_left_set_exact(cells: Seq<Pos>)
    requires
        cells.no_duplicates(),
    ensures
        left_set_exact(cells),
{
    let lm = left_most_spec(cells);
    lemma_extremal_structure(cells, Dir::Left);
    lemma_key_representative(cells, Dir::Left);
    assert forall|k1: int, k2: int|
        0 <= k1 < lm.len() && 0 <= k2 < lm.len() && k1 != k2 implies (#[trigger] lm[k1]).y != (
    #[trigger] lm[k2]).y by {
        assert(dir_key(lm[k1], Dir::Left) != dir_key(lm[k2], Dir::Left));
    }
}

proof fn lemma_right_set_exact(cells: Seq<Pos>)
    requires
        cells.no_duplicates(),
    ensures
        right_set_exact(cells),
{
    let rm = right_most_spec(cells);
    lemma_extremal_structure(cells, Dir::Right);
    lemma_key_representative(cells, Dir::Right);
    assert forall|k1: int, k2: int|
        0 <= k1 < rm.len() && 0 <= k2 < rm.len() && k1 != k2 implies (#[trigger] rm[k1]).y != (
    #[trigger] rm[k2]).y by {
        assert(dir_key(rm[k1], Dir::Right) != dir_key(rm[k2], Dir::Right));
    }
}

proof fn lemma_extremal_union_covers(cells: Seq<Pos>)
    ensures
        extremal_union_covers(cells),
{
    let dm = down_most_spec(cells);
    let lm = left_most_spec(cells);
    let rm = right_most_spec(cells);
    lemma_extremal_rec_membership(cells, cells.len() as int, Dir::Down);
    lemma_extremal_rec_membership(cells, cells.len() as int, Dir::Left);
    lemma_extremal_rec_membership(cells, cells.len() as int, Dir::Right);
    assert forall|j: int|
        0 <= j < cells.len() implies dm.contains(#[trigger] cells[j]) || lm.contains(cells[j])
        || rm.contains(cells[j]) || (!extremal_in(cells, cells[j], Dir::Down) && !extremal_in(
        cells,
        cells[j],
        Dir::Left,
    ) && !extremal_in(cells, cells[j], Dir::Right)) by {
        if extremal_in(cells, cells[j], Dir::Down) {
            assert(dm.contains(cells[j]));
        } else if extremal_in(cells, cells[j], Dir::Left) {
            assert(lm.contains(cells[j]));
        } else if extremal_in(cells, cells[j], Dir::Right) {
            assert(rm.contains(cells[j]));
        }
    }
}

/// Law (footprint structure): for every shape and rotation state, the
/// down-most set holds exactly one cell per occupied column, the left-most
/// and right-most sets exactly one cell per occupied row, each is a subset
/// of the footprint, and together with the interior cells they reconstruct
/// the full four-cell footprint.
pub proof fn lemma_extremal_cells(t: TetrominoType, r: int)
    requires
        0 <= r < 4,
    ensures
        extremal_sets_partition(piece_cells(t, r)),
{
    lemma_piece_cells_props(t, r);
    lemma_extremal_cells_general(piece_cells(t, r));
}

/// The same structure, for any footprint of distinct cells.
pub proof fn lemma_extremal_cells_general(cells: Seq<Pos>)
    requires
        cells.no_duplicates(),
    ensures
        extremal_sets_partition(cells),
{
    lemma_down_set_exact(cells);
    lemma_left_set_exact(cells);
    lemma_right_set_exact(cells);
    lemma_extremal_union_covers(cells);
}

/// Every shape's footprint is column- and row-convex: a cell that is not
/// the lowest of its column has the footprint cell directly below it, and
/// likewise toward the left and the right of its row.  This is what lets
/// the collision rules test only the extremal cells of a sliding piece.
pub proof fn lemma_piece_cells_connected(t: TetrominoType, r: int)
    requires
        0 <= r < 4,
    ensures
        forall|i: int|
            0 <= i < 4 ==> extremal_in(piece_cells(t, r), #[trigger] piece_cells(t, r)[i], Dir::Down)
                || piece_cells(t, r).contains(
                at(piece_cells(t, r)[i].x as int, piece_cells(t, r)[i].y - 1),
            ),
        forall|i: int|
            0 <= i < 4 ==> extremal_in(piece_cells(t, r), #[trigger] piece_cells(t, r)[i], Dir::Left)
                || piece_cells(t, r).contains(
                at(piece_cells(t, r)[i].x - 1, piece_cells(t, r)[i].y as int),
            ),
        forall|i: int|
            0 <= i < 4 ==> extremal_in(
                piece_cells(t, r),
                #[trigger] piece_cells(t, r)[i],
                Dir::Right,
            ) || piece_cells(t, r).contains(
                at(piece_cells(t, r)[i].x + 1, piece_cells(t, r)[i].y as int),
            ),
{
    reveal(piece_cells);
}

/// A non-empty footprint has a non-empty extremal set in every direction.
pub proof fn lemma_extremal_nonempty(cells: Seq<Pos>, d: Dir)
    requires
        cells.len() > 0,
    ensures
        extremal_rec(cells, cells.len() as int, d).len() > 0,
{
    lemma_extremal_rec_membership(cells, cells.len() as int, d);
    lemma_key_has_extremal(cells, 0, d);
    let k = choose|k: int|
        0 <= k < cells.len() && dir_key(#[trigger] cells[k], d) == dir_key(cells[0], d)
            && extremal_in(cells, cells[k], d);
    assert(extremal_rec(cells, cells.len() as int, d).contains(cells[k]));
}

/// Cells of an extremal set inherit the coordinate bounds of the footprint.
pub proof fn lemma_extremal_bounds(cells: Seq<Pos>, d: Dir)
    requires
        forall|i: int|
            0 <= i < cells.len() ==> -2 <= (#[trigger] cells[i]).x <= 2 && 0 <= cells[i].y <= 3,
    ensures
        forall|k: int|
            0 <= k < extremal_rec(cells, cells.len() as int, d).len() ==> -2 <= (
            #[trigger] extremal_rec(cells, cells.len() as int, d)[k]).x <= 2 && 0 <= extremal_rec(
                cells,
                cells.len() as int,
                d,
            )[k].y <= 3,
{
    let ex = extremal_rec(cells, cells.len() as int, d);
    lemma_extremal_rec_membership(cells, cells.len() as int, d);
    assert forall|k: int| 0 <= k < ex.len() implies -2 <= (#[trigger] ex[k]).x <= 2 && 0 <= ex[k].y
        <= 3 by {
        assert(cells.contains(ex[k]));
        let j = choose|j: int| 0 <= j < cells.len() && cells[j] == ex[k];
        assert(-2 <= cells[j].x <= 2 && 0 <= cells[j].y <= 3);
    }
}

/// Restate the per-key representative of one extremal set in terms of the
/// concrete coordinate the key projects.
proof fn lemma_key_representative(cells: Seq<Pos>, d: Dir)
    ensures
        d == Dir::Down ==> forall|i: int|
            0 <= i < cells.len() ==> exists|k: int|
                0 <= k < down_most_spec(cells).len() && (#[trigger] down_most_spec(cells)[k]).x == (
                #[trigger] cells[i]).x,
        d == Dir::Left ==> forall|i: int|
            0 <= i < cells.len() ==> exists|k: int|
                0 <= k < left_most_spec(cells).len() && (#[trigger] left_most_spec(cells)[k]).y == (
                #[trigger] cells[i]).y,
        d == Dir::Right ==> forall|i: int|
            0 <= i < cells.len() ==> exists|k: int|
                0 <= k < right_most_spec(cells).len() && (#[trigger] right_most_spec(cells)[k]).y
                    == (#[trigger] cells[i]).y,
{
    let ex = extremal_rec(cells, cells.len() as int, d);
    lemma_extremal_at_least(cells, d);
    match d {
        Dir::Down => {
            assert forall|i: int| 0 <= i < cells.len() implies exists|k: int|
                0 <= k < down_most_spec(cells).len() && (#[trigger] down_most_spec(cells)[k]).x == (
                #[trigger] cells[i]).x by {
                let k = choose|k: int|
                    0 <= k < ex.len() && dir_key(#[trigger] ex[k], d) == dir_key(cells[i], d);
                assert(0 <= k < down_most_spec(cells).len() && down_most_spec(cells)[k].x
                    == cells[i].x);
            }
        },
        Dir::Left => {
            assert forall|i: int| 0 <= i < cells.len() implies exists|k: int|
                0 <= k < left_most_spec(cells).len() && (#[trigger] left_most_spec(cells)[k]).y == (
                #[trigger] cells[i]).y by {
                let k = choose|k: int|
                    0 <= k < ex.len() && dir_key(#[trigger] ex[k], d) == dir_key(cells[i], d);
                assert(0 <= k < left_most_spec(cells).len() && left_most_spec(cells)[k].y
                    == cells[i].y);
            }
        },
        Dir::Right => {
            assert forall|i: int| 0 <= i < cells.len() implies exists|k: int|
                0 <= k < right_most_spec(cells).len() && (#[trigger] right_most_spec(cells)[k]).y
                    == (#[trigger] cells[i]).y by {
                let k = choose|k: int|
                    0 <= k < ex.len() && dir_key(#[trigger] ex[k], d) == dir_key(cells[i], d);
                assert(0 <= k < right_most_spec(cells).len() && right_most_spec(cells)[k].y
                    == cells[i].y);
            }
        },
    }
}

/// Build a four-cell vector from its coordinates.
fn quad(x0: i32, y0: i32, x1: i32, y1: i32, x2: i32, y2: i32, x3: i32, y3: i32) -> (res: Vec<Pos>)
    ensures
        res@ =~= seq![
            at(x0 as int, y0 as int),
            at(x1 as int, y1 as int),
            at(x2 as int, y2 as int),
            at(x3 as int, y3 as int),
        ],
{
    let mut res: Vec<Pos> = Vec::new();
    res.push(Pos { x: x0, y: y0 });
    res.push(Pos { x: x1, y: y1 });
    res.push(Pos { x: x2, y: y2 });
    res.push(Pos { x: x3, y: y3 });
    res
}

/// Whether `c` is extremal in direction `d` within `cells`.
fn is_extremal(cells: &Vec<Pos>, c: Pos, d: Dir) -> (r: bool)
    ensures
        r == extremal_in(cells@, c, d),
{
    let mut j: usize = 0;
    while j < cells.len()
        invariant
            0 <= j <= cells@.len(),
            match d {
                Dir::Down => forall|i: int|
                    0 <= i < j && (#[trigger] cells@[i]).x == c.x ==> c.y <= cells@[i].y,
                Dir::Left => forall|i: int|
                    0 <= i < j && (#[trigger] cells@[i]).y == c.y ==> c.x <= cells@[i].x,
                Dir::Right => forall|i: int|
                    0 <= i < j && (#[trigger] cells@[i]).y == c.y ==> c.x >= cells@[i].x,
            },
        decreases cells@.len() - j,
    {
        let o = cells[j];
        let beyond = match d {
            Dir::Down => o.x == c.x && o.y < c.y,
            Dir::Left => o.y == c.y && o.x < c.x,
            Dir::Right => o.y == c.y && o.x > c.x,
        };
        if beyond {
            return false;
        }
        j += 1;
    }
    true
}

/// The extremal cells of `cells` in direction `d`, in footprint order.
fn extremal_position(cells: &Vec<Pos>, d: Dir) -> (res: Vec<Pos>)
    ensures
        res@ == extremal_rec(cells@, cells@.len() as int, d),
{
    let mut res: Vec<Pos> = Vec::new();
    let mut i: usize = 0;
    while i < cells.len()
        invariant
            0 <= i <= cells@.len(),
            res@ == extremal_rec(cells@, i as int, d),
        decreases cells@.len() - i,
    {
        let c = cells[i];
        if is_extremal(cells, c, d) {
            res.push(c);
        }
        i += 1;
    }
    res
}

} // verus!
