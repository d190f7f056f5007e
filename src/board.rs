use vstd::prelude::*;

use crate::piece::ChessBoardItem;
use crate::square::{on_board, Square, BOARD_SIZE};

verus! {

/// What a board holds: each occupied square mapped to its one piece.
pub type Occupancy = Map<(int, int), ChessBoardItem>;

/// The piece on square `k`, if any.
pub open spec fn occupant(m: Occupancy, k: (int, int)) -> Option<ChessBoardItem> {
    if m.dom().contains(k) {
        Some(m[k])
    } else {
        None
    }
}

/// Where square `k` is kept among the board's cells: rank by rank.
pub open spec fn cell_index(k: (int, int)) -> int {
    k.1 * BOARD_SIZE + k.0
}

/// Number of cells on the board.
pub const CELL_COUNT: usize = 64;

/// The occupancy of the board: at most one piece on each square.
pub struct Board {
    cells: Vec<Option<ChessBoardItem>>,
}

impl View for Board {
    type V = Occupancy;

    closed spec fn view(&self) -> Occupancy {
        Map::new(
            |k: (int, int)| on_board(k) && self.cells@[cell_index(k)] is Some,
            |k: (int, int)| self.cells@[cell_index(k)]->Some_0,
        )
    }
}

fn index_of(s: Square) -> (r: usize)
    ensures
        r == cell_index(s@),
        r < CELL_COUNT,
        on_board(s@),
{
    let file = s.file();
    let rank = s.rank();
    (rank * BOARD_SIZE + file) as usize
}

impl Board {
    #[verifier::type_invariant]
    closed spec fn inv(self) -> bool {
        self.cells.len() == CELL_COUNT
    }

    /// An empty board.
    pub fn new() -> (r: Board)
        ensures
            r@ == Occupancy::empty(),
    {
        let mut cells: Vec<Option<ChessBoardItem>> = Vec::new();
        while cells.len() < CELL_COUNT
            invariant
                cells.len() <= CELL_COUNT,
                forall|i: int| 0 <= i < cells.len() ==> cells@[i] is None,
            decreases CELL_COUNT - cells.len(),
        {
            cells.push(None);
        }
        let r = Board { cells };
        assert(r@ =~= Occupancy::empty());
        r
    }

    /// The piece on `s`, if any.
    pub fn get(&self, s: Square) -> (r: Option<ChessBoardItem>)
        ensures
            r == occupant(self@, s@),
    {
        proof {
            use_type_invariant(self);
        }
        let i = index_of(s);
        self.cells[i]
    }

    /// Takes the piece off `s`, if any, and hands it back; `s` is then empty.
    pub fn remove(&mut self, s: Square) -> (r: Option<ChessBoardItem>)
        ensures
            r == occupant(old(self)@, s@),
            final(self)@ == old(self)@.remove(s@),
    {
        proof {
            use_type_invariant(&*self);
        }
        let i = index_of(s);
        let r = self.cells[i];
        self.cells[i] = None;
        proof {
            assert(self@ =~= old(self)@.remove(s@));
        }
        r
    }

    /// Sets `p` on `s`; whatever stood there before is gone.
    pub fn put(&mut self, s: Square, p: ChessBoardItem)
        ensures
            final(self)@ == old(self)@.insert(s@, p),
    {
        proof {
            use_type_invariant(&*self);
        }
        let i = index_of(s);
        self.cells[i] = Some(p);
        proof {
            assert(self@ =~= old(self)@.insert(s@, p));
        }
    }

    /// Every piece with its square, rank by rank. No square is listed twice,
    /// each pair is on the board, and each occupied square is listed.
    pub fn pieces(&self) -> (r: Vec<(Square, ChessBoardItem)>)
        ensures
            forall|i: int, j: int|
                0 <= i < j < r.len() ==> #[trigger] r@[i].0@ != #[trigger] r@[j].0@,
            forall|i: int|
                0 <= i < r.len() ==> #[trigger] occupant(self@, r@[i].0@) == Some(r@[i].1),
            forall|k: (int, int)|
                #[trigger] self@.dom().contains(k) ==> exists|i: int|
                    0 <= i < r.len() && #[trigger] r@[i].0@ == k,
    {
        proof {
            use_type_invariant(self);
        }
        let mut r: Vec<(Square, ChessBoardItem)> = Vec::new();
        let mut rank: i32 = 0;
        while rank < BOARD_SIZE
            invariant
                0 <= rank <= BOARD_SIZE,
                self.cells.len() == CELL_COUNT,
                forall|a: int, b: int|
                    0 <= a < b < r.len() ==> cell_index(#[trigger] r@[a].0@) < cell_index(
                        #[trigger] r@[b].0@,
                    ),
                forall|a: int|
                    0 <= a < r.len() ==> cell_index(#[trigger] r@[a].0@) < rank * BOARD_SIZE,
                forall|a: int|
                    0 <= a < r.len() ==> #[trigger] occupant(self@, r@[a].0@) == Some(r@[a].1),
                forall|k: (int, int)|
                    #[trigger] self@.dom().contains(k) && k.1 < rank ==> exists|a: int|
                        0 <= a < r.len() && #[trigger] r@[a].0@ == k,
            decreases BOARD_SIZE - rank,
        {
            let mut file: i32 = 0;
            while file < BOARD_SIZE
                invariant
                    0 <= rank < BOARD_SIZE,
                    0 <= file <= BOARD_SIZE,
                    self.cells.len() == CELL_COUNT,
                    forall|a: int, b: int|
                        0 <= a < b < r.len() ==> cell_index(#[trigger] r@[a].0@) < cell_index(
                            #[trigger] r@[b].0@,
                        ),
                    forall|a: int|
                        0 <= a < r.len() ==> cell_index(#[trigger] r@[a].0@) < rank * BOARD_SIZE
                            + file,
                    forall|a: int|
                        0 <= a < r.len() ==> #[trigger] occupant(self@, r@[a].0@) == Some(
                            r@[a].1,
                        ),
                    forall|k: (int, int)|
                        #[trigger] self@.dom().contains(k) && (k.1 < rank || (k.1 == rank && k.0
                            < file)) ==> exists|a: int|
                            0 <= a < r.len() && #[trigger] r@[a].0@ == k,
                decreases BOARD_SIZE - file,
            {
                if let Ok(s) = Square::new(file, rank) {
                    let i = index_of(s);
                    if let Some(p) = self.cells[i] {
                        let ghost old_r = r@;
                        r.push((s, p));
                        proof {
                            assert(r@[old_r.len() as int] == (s, p));
                            assert forall|k: (int, int)|
                                #[trigger] self@.dom().contains(k) && (k.1 < rank || (k.1 == rank
                                    && k.0 < file + 1)) implies exists|a: int|
                                0 <= a < r.len() && #[trigger] r@[a].0@ == k by {
                                if k == s@ {
                                    assert(r@[old_r.len() as int].0@ == k);
                                } else {
                                    let a = choose|a: int| 0 <= a < old_r.len() && #[trigger] old_r[a].0@ == k;
                                    assert(r@[a] == old_r[a]);
                                }
                            }
                        }
                    }
                }
                file = file + 1;
            }
            rank = rank + 1;
        }
        r
    }
}

} // verus!
