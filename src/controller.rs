use vstd::prelude::*;

use crate::board::{Board, Occupancy};
use crate::legality::{can_move, shape_legal};
use crate::piece::{after_move, same_identity, with_state, ChessBoardItem, PieceState};
use crate::square::Square;

verus! {

/// What a click on `curr` does while `prev` is the selection: the board
/// after the click, and the selection after it.
pub open spec fn click_outcome(b: Occupancy, prev: Option<Square>, curr: Square) -> (
    Occupancy,
    Option<Square>,
) {
    match prev {
        Some(p) if p == curr => (b, prev),
        Some(p) if b.dom().contains(p@) => {
            let m = b[p@];
            if shape_legal(m.variant, m.team, m.moved, curr@.0 - p@.0, curr@.1 - p@.1) {
                (b.remove(p@).insert(curr@, after_move(m)), None)
            } else {
                (b.insert(p@, with_state(m, PieceState::Rest)), Some(curr))
            }
        },
        _ => if b.dom().contains(curr@) {
            (b.insert(curr@, with_state(b[curr@], PieceState::Selected)), Some(curr))
        } else {
            (b, None)
        },
    }
}

/// Handles a click on `curr_position` while `prev_position` is selected, and
/// returns the new selection.
///
/// A click on the selected square changes nothing. Otherwise the piece on the
/// selected square, if there is one, moves to the clicked square when the
/// shape of the move is legal (the selection is then cleared), and stays where
/// it was at rest when it is not (the clicked square is then returned). With
/// no piece selected, a click on a piece marks it selected.
pub fn on_mouse_down(
    board: &mut Board,
    prev_position: Option<Square>,
    curr_position: Square,
) -> (r: Option<Square>)
    ensures
        (final(board)@, r) == click_outcome(old(board)@, prev_position, curr_position),
{
    let moving: Option<(Square, ChessBoardItem)> = match prev_position {
        Some(p) => {
            if p == curr_position {
                return prev_position;
            }
            match board.remove(p) {
                Some(m) => Some((p, m)),
                None => {
                    proof {
                        assert(board@ =~= old(board)@);
                    }
                    None
                },
            }
        },
        None => None,
    };
    match moving {
        None => match board.get(curr_position) {
            Some(item) => {
                board.put(curr_position, ChessBoardItem { state: PieceState::Selected, ..item });
                Some(curr_position)
            },
            None => None,
        },
        Some((p, m)) => {
            if can_move(m.variant, m.team, m.moved, p, curr_position) {
                board.put(
                    curr_position,
                    ChessBoardItem { moved: true, state: PieceState::Rest, ..m },
                );
                None
            } else {
                board.put(p, ChessBoardItem { state: PieceState::Rest, ..m });
                proof {
                    assert(board@ =~= old(board)@.insert(p@, with_state(m, PieceState::Rest)));
                }
                Some(curr_position)
            }
        },
    }
}

/// The board with the piece on `k` back at rest, if it was hovered.
pub open spec fn unhover(b: Occupancy, k: (int, int)) -> Occupancy {
    if b.dom().contains(k) && b[k].state == PieceState::Hover {
        b.insert(k, with_state(b[k], PieceState::Rest))
    } else {
        b
    }
}

/// The board with the piece on `k` hovered, if it was at rest.
pub open spec fn hover(b: Occupancy, k: (int, int)) -> Occupancy {
    if b.dom().contains(k) && b[k].state == PieceState::Rest {
        b.insert(k, with_state(b[k], PieceState::Hover))
    } else {
        b
    }
}

/// The board after the pointer has left `prev` and come to rest over `curr`.
pub open spec fn hover_outcome(b: Occupancy, prev: Option<Square>, curr: Option<Square>) -> Occupancy {
    let b1 = match prev {
        Some(p) => unhover(b, p@),
        None => b,
    };
    match curr {
        Some(c) => hover(b1, c@),
        None => b1,
    }
}

fn unhover_square(board: &mut Board, s: Square)
    ensures
        final(board)@ == unhover(old(board)@, s@),
{
    if let Some(item) = board.get(s) {
        if item.state == PieceState::Hover {
            board.put(s, ChessBoardItem { state: PieceState::Rest, ..item });
        }
    }
}

fn hover_square(board: &mut Board, s: Square)
    ensures
        final(board)@ == hover(old(board)@, s@),
{
    if let Some(item) = board.get(s) {
        if item.state == PieceState::Rest {
            board.put(s, ChessBoardItem { state: PieceState::Hover, ..item });
        }
    }
}

/// Moves the hover highlight from `prev` to `curr`, once per frame: a
/// hovered piece on `prev` goes back to rest, and a resting piece on `curr`
/// is hovered. Selected pieces keep their state, and no piece moves.
pub fn update_hover(board: &mut Board, prev: Option<Square>, curr: Option<Square>)
    ensures
        final(board)@ == hover_outcome(old(board)@, prev, curr),
{
    if let Some(p) = prev {
        unhover_square(board, p);
    }
    if let Some(c) = curr {
        hover_square(board, c);
    }
}

/// A click never puts a piece on two squares: every square occupied after it
/// was occupied before or is the clicked one, and a piece that leaves its
/// square leaves it empty.
pub proof fn lemma_click_keeps_one_piece_per_square(b: Occupancy, prev: Option<Square>, curr: Square)
    ensures
        forall|k: (int, int)|
            #[trigger] click_outcome(b, prev, curr).0.dom().contains(k) ==> b.dom().contains(k)
                || k == curr@,
        click_outcome(b, prev, curr).1 is None && prev is Some && prev->Some_0 != curr
            && b.dom().contains(prev->Some_0@) ==> {
            let (b1, _) = click_outcome(b, prev, curr);
            &&& !b1.dom().contains(prev->Some_0@)
            &&& b1.dom().contains(curr@)
            &&& b1[curr@] == after_move(b[prev->Some_0@])
        },
{
    if let Some(p) = prev {
        if p != curr {
            Square::lemma_view_injective(p, curr);
        }
    }
}

/// Selecting with nothing selected: a click on a piece selects its square
/// and leaves every piece where it was, the same piece; only the clicked
/// piece is shown as selected.
pub proof fn lemma_select_keeps_occupancy(b: Occupancy, s: Square)
    requires
        b.dom().contains(s@),
    ensures
        click_outcome(b, None, s).1 == Some(s),
        click_outcome(b, None, s).0.dom() == b.dom(),
        click_outcome(b, None, s).0[s@] == with_state(b[s@], PieceState::Selected),
        forall|k: (int, int)|
            b.dom().contains(k) && k != s@ ==> #[trigger] click_outcome(b, None, s).0[k] == b[k],
{
    assert(click_outcome(b, None, s).0.dom() =~= b.dom());
}

/// A click on the selected square changes neither the board nor the selection.
pub proof fn lemma_reclick_changes_nothing(b: Occupancy, s: Square)
    ensures
        click_outcome(b, Some(s), s) == (b, Some(s)),
{
}

/// Selecting a piece and then clicking its square again leaves every square
/// occupied as before, the piece on its square with its team, kind and moved
/// flag, and the square selected.
pub proof fn lemma_select_then_reclick(b: Occupancy, s: Square)
    requires
        b.dom().contains(s@),
    ensures
        ({
            let (b1, r1) = click_outcome(b, None, s);
            let (b2, r2) = click_outcome(b1, r1, s);
            &&& r2 == Some(s)
            &&& b2.dom() == b.dom()
            &&& same_identity(b2[s@], b[s@])
        }),
{
    lemma_select_keeps_occupancy(b, s);
}

/// Selecting a piece and then clicking a square it may not move to puts the
/// piece back at rest on its own square, with every square occupied as before.
pub proof fn lemma_rejected_move_returns_to_rest(b: Occupancy, s: Square, t: Square)
    requires
        b.dom().contains(s@),
        s != t,
        !shape_legal(b[s@].variant, b[s@].team, b[s@].moved, t@.0 - s@.0, t@.1 - s@.1),
    ensures
        ({
            let (b1, r1) = click_outcome(b, None, s);
            let (b2, r2) = click_outcome(b1, r1, t);
            &&& r2 == Some(t)
            &&& b2 == b.insert(s@, with_state(b[s@], PieceState::Rest))
            &&& b2.dom() == b.dom()
        }),
{
    lemma_select_keeps_occupancy(b, s);
    let (b1, r1) = click_outcome(b, None, s);
    assert(b1.insert(s@, with_state(b1[s@], PieceState::Rest)) =~= b.insert(
        s@,
        with_state(b[s@], PieceState::Rest),
    ));
    assert(b.insert(s@, with_state(b[s@], PieceState::Rest)).dom() =~= b.dom());
}

} // verus!
