//! The board: a fixed 10 x 20 occupancy grid mapping each cell to the
//! opaque identity of the locked block occupying it, or to empty.
//!
//! The board owns its cells; an active piece never owns board cells, only
//! candidate positions.  Out-of-range cell addresses are caller errors,
//! enforced by preconditions.  Row relocation during line clearing goes
//! through `swap_tile`, so the identity of a placed block is stable while
//! rows compact.

use vstd::prelude::*;

verus! {

/// The occupancy grid.  Cell `(x, y)` lives at index `y * width + x`;
/// row 0 is the bottom of the playable region, row 19 its top.
pub struct TileBoard {
    pub tile_map: Vec<Option<u64>>,
    pub width: u32,
    pub height: u32,
}

/// The block identities stored in `s[..n]`, in scan order.
pub open spec fn ids_rec(s: Seq<Option<u64>>, n: int) -> Seq<u64>
    decreases n,
{
    if n <= 0 {
        Seq::empty()
    } else {
        let rest = ids_rec(s, n - 1);
        if s[n - 1] is Some {
            rest.push(s[n - 1]->0)
        } else {
            rest
        }
    }
}

impl TileBoard {
    /// Well-formedness: the playable grid is 10 cells wide, 20 rows high,
    /// and the backing vector holds exactly one slot per cell.
    pub open spec fn wf(self) -> bool {
        self.width == 10 && self.height == 20 && self.tile_map@.len() == 200
    }

    /// The content of cell `(x, y)`.
    pub open spec fn cell(self, x: int, y: int) -> Option<u64>
        recommends
            0 <= x < 10 && 0 <= y < 20,
    {
        self.tile_map@[y * 10 + x]
    }

    /// An empty board.  The dimensions are fixed at 10 x 20 in this design.
    pub fn new(width: u32, height: u32) -> (b: Self)
        requires
            width == 10,
            height == 20,
        ensures
            b.wf(),
            forall|x: int, y: int| 0 <= x < 10 && 0 <= y < 20 ==> b.cell(x, y) is None,
    {
        let b = TileBoard { tile_map: vec![None;200], width, height };
        proof {
            assert(forall|i: int| 0 <= i < 200 ==> b.tile_map@[i] is None);
        }
        b
    }

    /// The content of cell `(x, y)`.  Addressing a cell outside the grid is
    /// a caller error.
    pub fn entity_at(&self, x: u32, y: u32) -> (r: Option<u64>)
        requires
            self.wf(),
            x < 10,
            y < 20,
        ensures
            r == self.cell(x as int, y as int),
    {
        let idx = (y * self.width + x) as usize;
        self.tile_map[idx]
    }

    /// Whether cell `(x, y)` holds a locked block.  Cells above the
    /// visible top are never occupied, so pieces may rest partly in the
    /// spawn buffer; columns outside the grid are a caller error.
    pub fn occupied(&self, x: u32, y: u32) -> (r: bool)
        requires
            self.wf(),
            x < 10,
        ensures
            r == (if y >= 20 {
                false
            } else {
                self.cell(x as int, y as int) is Some
            }),
    {
        if y >= 20 {
            false
        } else {
            self.entity_at(x, y).is_some()
        }
    }

    /// Place block `entity` into cell `(x, y)`, overwriting its content.
    pub fn set(&mut self, x: u32, y: u32, entity: u64)
        requires
            old(self).wf(),
            x < 10,
            y < 20,
        ensures
            final (self).wf(),
            final (self).tile_map@ == old(self).tile_map@.update(
                y as int * 10 + x as int,
                Some(entity),
            ),
            final (self).cell(x as int, y as int) == Some(entity),
            forall|i: int, j: int|
                0 <= i < 10 && 0 <= j < 20 && !(i == x as int && j == y as int) ==> final (self).cell(i, j) == old(self).cell(i, j),
            final (self).width == old(self).width && final (self).height == old(self).height,
    {
        let idx = (y * self.width + x) as usize;
        self.tile_map.set(idx, Some(entity));
    }

    /// Take the block out of cell `(x, y)` and return its identity.
    /// Removing from an empty cell is a caller error.
    pub fn remove(&mut self, x: u32, y: u32) -> (r: Option<u64>)
        requires
            old(self).wf(),
            x < 10,
            y < 20,
            old(self).cell(x as int, y as int) is Some,
        ensures
            final (self).wf(),
            r == old(self).cell(x as int, y as int),
            final (self).tile_map@ == old(self).tile_map@.update(y as int * 10 + x as int, None),
            final (self).cell(x as int, y as int) is None,
            forall|i: int, j: int|
                0 <= i < 10 && 0 <= j < 20 && !(i == x as int && j == y as int) ==> final (self).cell(i, j) == old(self).cell(i, j),
            final (self).width == old(self).width && final (self).height == old(self).height,
    {
        let idx = (y * self.width + x) as usize;
        let r = self.tile_map[idx];
        self.tile_map.set(idx, None);
        r
    }

    /// Empty every cell.
    pub fn clear(&mut self)
        requires
            old(self).wf(),
        ensures
            final (self).wf(),
            forall|x: int, y: int| 0 <= x < 10 && 0 <= y < 20 ==> final (self).cell(x, y) is None,
            final (self).width == old(self).width && final (self).height == old(self).height,
    {
        self.tile_map = vec![None;200];
        proof {
            assert(forall|i: int| 0 <= i < 200 ==> self.tile_map@[i] is None);
        }
    }

    /// Move the block in cell `from` to cell `to` by swapping the two
    /// cells' contents, and return its identity.  The source cell must be
    /// occupied.  Swapping preserves block identities, which keeps any
    /// externally observed identity of a placed block stable while rows
    /// relocate.
    pub fn swap_tile(&mut self, from: (u32, u32), to: (u32, u32)) -> (e: u64)
        requires
            old(self).wf(),
            from.0 < 10,
            from.1 < 20,
            to.0 < 10,
            to.1 < 20,
            old(self).cell(from.0 as int, from.1 as int) is Some,
        ensures
            final (self).wf(),
            Some(e) == old(self).cell(from.0 as int, from.1 as int),
            final (self).cell(to.0 as int, to.1 as int) == old(self).cell(
                from.0 as int,
                from.1 as int,
            ),
            final (self).cell(from.0 as int, from.1 as int) == if from == to {
                old(self).cell(from.0 as int, from.1 as int)
            } else {
                old(self).cell(to.0 as int, to.1 as int)
            },
            forall|i: int, j: int|
                0 <= i < 10 && 0 <= j < 20 && !(i == from.0 as int && j == from.1 as int) && !(i
                    == to.0 as int && j == to.1 as int) ==> final (self).cell(i, j) == old(self).cell(i, j),
            final (self).tile_map@ == old(self).tile_map@.update(
                to.1 as int * 10 + to.0 as int,
                old(self).cell(from.0 as int, from.1 as int),
            ).update(
                from.1 as int * 10 + from.0 as int,
                if from == to {
                    old(self).cell(from.0 as int, from.1 as int)
                } else {
                    old(self).cell(to.0 as int, to.1 as int)
                },
            ),
            final (self).width == old(self).width && final (self).height == old(self).height,
    {
        let from_idx = (from.1 * self.width + from.0) as usize;
        let to_idx = (to.1 * self.width + to.0) as usize;
        let a = self.tile_map[from_idx];
        let b = self.tile_map[to_idx];
        self.tile_map.set(to_idx, a);
        self.tile_map.set(from_idx, b);
        a.unwrap()
    }

    /// The identities of all blocks on the board, in scan order.
    pub fn get_all_entitys(&self) -> (res: Vec<u64>)
        requires
            self.wf(),
        ensures
            res@ == ids_rec(self.tile_map@, self.tile_map@.len() as int),
    {
        let mut res: Vec<u64> = Vec::new();
        let mut i: usize = 0;
        while i < self.tile_map.len()
            invariant
                0 <= i <= self.tile_map@.len(),
                res@ == ids_rec(self.tile_map@, i as int),
            decreases self.tile_map@.len() - i,
        {
            if let Some(entity) = self.tile_map[i] {
                res.push(entity);
            }
            i += 1;
        }
        res
    }
}

} // verus!
