use vstd::prelude::*;

verus! {

/// Number of files, and of ranks, on the board.
pub const BOARD_SIZE: i32 = 8;

/// Whether `(file, rank)` names a square of the board.
pub open spec fn on_board(k: (int, int)) -> bool {
    0 <= k.0 < BOARD_SIZE && 0 <= k.1 < BOARD_SIZE
}

/// One cell of the board: a file and a rank, each in `0..8`.
#[derive(Clone, Copy, Debug, PartialEq, Eq, Structural)]
pub struct Square {
    file: i32,
    rank: i32,
}

/// Coordinates that name no cell of the board.
#[derive(Clone, Copy, Debug, PartialEq, Eq, Structural)]
pub struct InvalidSquare {
    pub file: i32,
    pub rank: i32,
}

impl View for Square {
    type V = (int, int);

    closed spec fn view(&self) -> (int, int) {
        (self.file as int, self.rank as int)
    }
}

impl Square {
    #[verifier::type_invariant]
    closed spec fn inv(self) -> bool {
        on_board(self@)
    }

    /// The square at `(file, rank)`, or an error when either lies outside `0..8`.
    pub fn new(file: i32, rank: i32) -> (r: Result<Square, InvalidSquare>)
        ensures
            on_board((file as int, rank as int)) <==> r is Ok,
            r is Ok ==> r->Ok_0@ == (file as int, rank as int),
            r is Err ==> r->Err_0 == (InvalidSquare { file, rank }),
    {
        if 0 <= file && file < BOARD_SIZE && 0 <= rank && rank < BOARD_SIZE {
            Ok(Square { file, rank })
        } else {
            Err(InvalidSquare { file, rank })
        }
    }

    pub fn file(&self) -> (r: i32)
        ensures
            r == self@.0,
            0 <= r < BOARD_SIZE,
    {
        proof {
            use_type_invariant(self);
        }
        self.file
    }

    pub fn rank(&self) -> (r: i32)
        ensures
            r == self@.1,
            0 <= r < BOARD_SIZE,
    {
        proof {
            use_type_invariant(self);
        }
        self.rank
    }
    /// Two squares are equal exactly when their coordinates are.
    pub broadcast proof fn lemma_view_injective(a: Square, b: Square)
        ensures
            #[trigger] (a@) == #[trigger] (b@) <==> a == b,
    {
    }
}

} // verus!
