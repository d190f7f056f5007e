use vstd::prelude::*;

verus! {

/// The side a piece plays for.
#[derive(Clone, Copy, Debug, PartialEq, Eq, Structural, Hash)]
pub enum Team {
    White,
    Black,
}

/// The kind of a piece, which decides the shapes of move it may make.
#[derive(Clone, Copy, Debug, PartialEq, Eq, Structural, Hash)]
pub enum Variant {
    Pawn,
    Rook,
    Knight,
    Bishop,
    Queen,
    King,
}

/// How a piece is shown; never affects legality.
#[derive(Clone, Copy, Debug, PartialEq, Eq, Structural)]
pub enum PieceState {
    Rest,
    Hover,
    Selected,
}

/// A piece standing on the board.
#[derive(Clone, Copy, Debug, PartialEq, Eq, Structural)]
pub struct ChessBoardItem {
    pub team: Team,
    pub variant: Variant,
    /// Set once the piece has completed a move.
    pub moved: bool,
    pub state: PieceState,
}

impl ChessBoardItem {
    /// A piece that has not moved yet, shown at rest.
    pub fn new(team: Team, variant: Variant) -> (r: ChessBoardItem)
        ensures
            r == fresh_piece(team, variant),
    {
        ChessBoardItem { team, variant, moved: false, state: PieceState::Rest }
    }
}

/// A piece as it stands on the board before any move.
pub open spec fn fresh_piece(team: Team, variant: Variant) -> ChessBoardItem {
    ChessBoardItem { team, variant, moved: false, state: PieceState::Rest }
}

/// The same piece, shown in another state.
pub open spec fn with_state(p: ChessBoardItem, state: PieceState) -> ChessBoardItem {
    ChessBoardItem { state, ..p }
}

/// The piece after it has completed a move: marked moved and shown at rest.
pub open spec fn after_move(p: ChessBoardItem) -> ChessBoardItem {
    ChessBoardItem { moved: true, state: PieceState::Rest, ..p }
}

/// Two pieces are the same piece up to how they are shown.
pub open spec fn same_identity(p: ChessBoardItem, q: ChessBoardItem) -> bool {
    p.team == q.team && p.variant == q.variant && p.moved == q.moved
}

} // verus!
