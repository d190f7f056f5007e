use chess::board::Board;
use chess::controller::{on_mouse_down, update_hover};
use chess::piece::{ChessBoardItem, PieceState, Team, Variant};
use chess::square::Square;

fn sq(file: i32, rank: i32) -> Square {
    Square::new(file, rank).unwrap()
}

fn identities(board: &Board) -> Vec<(Square, Team, Variant, bool)> {
    board.pieces().into_iter().map(|(s, p)| (s, p.team, p.variant, p.moved)).collect()
}

#[test]
fn rook_end_to_end() {
    let mut board = Board::new();
    let rook = ChessBoardItem::new(Team::White, Variant::Rook);
    board.put(sq(0, 0), rook);
    let before = identities(&board);
    let selection = on_mouse_down(&mut board, None, sq(0, 0));
    assert_eq!(selection, Some(sq(0, 0)));
    assert_eq!(identities(&board), before);
    let selection = on_mouse_down(&mut board, selection, sq(0, 7));
    assert_eq!(selection, None);
    let moved = board.get(sq(0, 7)).unwrap();
    assert!(moved.moved);
    assert_eq!(moved.state, PieceState::Rest);
    assert_eq!(moved.variant, Variant::Rook);
    assert_eq!(board.get(sq(0, 0)), None);
    assert_eq!(board.pieces().len(), 1);
}

#[test]
fn bishop_illegal_move_rejected() {
    let mut board = Board::new();
    board.put(sq(2, 0), ChessBoardItem::new(Team::White, Variant::Bishop));
    let selection = on_mouse_down(&mut board, None, sq(2, 0));
    assert_eq!(board.get(sq(2, 0)).unwrap().state, PieceState::Selected);
    let selection = on_mouse_down(&mut board, selection, sq(2, 1));
    assert_eq!(selection, Some(sq(2, 1)));
    assert_eq!(board.get(sq(2, 0)), Some(ChessBoardItem::new(Team::White, Variant::Bishop)));
    assert_eq!(board.get(sq(2, 1)), None);
}

#[test]
fn select_leaves_occupancy() {
    let mut board = Board::new();
    board.put(sq(1, 0), ChessBoardItem::new(Team::White, Variant::Knight));
    board.put(sq(5, 5), ChessBoardItem::new(Team::Black, Variant::Pawn));
    let before = identities(&board);
    assert_eq!(on_mouse_down(&mut board, None, sq(5, 5)), Some(sq(5, 5)));
    assert_eq!(identities(&board), before);
    assert_eq!(board.get(sq(5, 5)).unwrap().state, PieceState::Selected);
    assert_eq!(board.get(sq(1, 0)).unwrap().state, PieceState::Rest);
}

#[test]
fn click_on_empty_square_selects_nothing() {
    let mut board = Board::new();
    board.put(sq(1, 0), ChessBoardItem::new(Team::White, Variant::Knight));
    let before = board.pieces();
    assert_eq!(on_mouse_down(&mut board, None, sq(4, 4)), None);
    assert_eq!(board.pieces(), before);
    assert_eq!(on_mouse_down(&mut board, Some(sq(3, 3)), sq(4, 4)), None);
    assert_eq!(board.pieces(), before);
}

#[test]
fn selection_of_empty_square_then_click_on_piece_selects_it() {
    let mut board = Board::new();
    board.put(sq(1, 0), ChessBoardItem::new(Team::White, Variant::Knight));
    assert_eq!(on_mouse_down(&mut board, Some(sq(3, 3)), sq(1, 0)), Some(sq(1, 0)));
    assert_eq!(board.get(sq(1, 0)).unwrap().state, PieceState::Selected);
}

#[test]
fn reclick_changes_nothing() {
    let mut board = Board::new();
    board.put(sq(3, 3), ChessBoardItem::new(Team::Black, Variant::Queen));
    let first = on_mouse_down(&mut board, None, sq(3, 3));
    let after_select = board.pieces();
    let second = on_mouse_down(&mut board, first, sq(3, 3));
    assert_eq!(second, Some(sq(3, 3)));
    assert_eq!(board.pieces(), after_select);
    let third = on_mouse_down(&mut board, second, sq(3, 3));
    assert_eq!(third, Some(sq(3, 3)));
    assert_eq!(board.pieces(), after_select);
}

#[test]
fn reclick_on_empty_selected_square() {
    let mut board = Board::new();
    assert_eq!(on_mouse_down(&mut board, Some(sq(6, 6)), sq(6, 6)), Some(sq(6, 6)));
    assert!(board.pieces().is_empty());
}

#[test]
fn select_then_reclick_keeps_piece_in_place() {
    let mut board = Board::new();
    board.put(sq(4, 0), ChessBoardItem::new(Team::White, Variant::King));
    let before = identities(&board);
    let selection = on_mouse_down(&mut board, None, sq(4, 0));
    let selection = on_mouse_down(&mut board, selection, sq(4, 0));
    assert_eq!(selection, Some(sq(4, 0)));
    assert_eq!(identities(&board), before);
    assert_eq!(board.get(sq(4, 0)).unwrap().state, PieceState::Selected);
}

#[test]
fn rejected_move_returns_piece_to_rest() {
    let mut board = Board::new();
    board.put(sq(4, 0), ChessBoardItem::new(Team::White, Variant::King));
    board.put(sq(4, 2), ChessBoardItem::new(Team::Black, Variant::Pawn));
    let before = identities(&board);
    let selection = on_mouse_down(&mut board, None, sq(4, 0));
    let selection = on_mouse_down(&mut board, selection, sq(4, 2));
    assert_eq!(selection, Some(sq(4, 2)));
    assert_eq!(identities(&board), before);
    assert_eq!(board.get(sq(4, 0)).unwrap().state, PieceState::Rest);
}

#[test]
fn legal_move_overwrites_occupant() {
    let mut board = Board::new();
    board.put(sq(0, 0), ChessBoardItem::new(Team::White, Variant::Rook));
    board.put(sq(0, 5), ChessBoardItem::new(Team::White, Variant::Pawn));
    let selection = on_mouse_down(&mut board, None, sq(0, 0));
    assert_eq!(on_mouse_down(&mut board, selection, sq(0, 5)), None);
    let pieces = board.pieces();
    assert_eq!(pieces.len(), 1);
    assert_eq!(pieces[0].0, sq(0, 5));
    assert_eq!(pieces[0].1.variant, Variant::Rook);
    assert!(pieces[0].1.moved);
}

#[test]
fn pawn_loses_double_step_after_moving() {
    let mut board = Board::new();
    board.put(sq(3, 1), ChessBoardItem::new(Team::White, Variant::Pawn));
    let selection = on_mouse_down(&mut board, None, sq(3, 1));
    assert_eq!(on_mouse_down(&mut board, selection, sq(3, 3)), None);
    let selection = on_mouse_down(&mut board, None, sq(3, 3));
    assert_eq!(on_mouse_down(&mut board, selection, sq(3, 5)), Some(sq(3, 5)));
    assert!(board.get(sq(3, 3)).is_some());
    let selection = on_mouse_down(&mut board, None, sq(3, 3));
    assert_eq!(on_mouse_down(&mut board, selection, sq(3, 4)), None);
    assert!(board.get(sq(3, 4)).unwrap().moved);
}

#[test]
fn each_square_holds_one_piece_after_commits() {
    let mut board = Board::new();
    board.put(sq(1, 0), ChessBoardItem::new(Team::White, Variant::Knight));
    board.put(sq(2, 2), ChessBoardItem::new(Team::Black, Variant::Bishop));
    board.put(sq(0, 1), ChessBoardItem::new(Team::White, Variant::Pawn));
    let clicks = [sq(1, 0), sq(2, 2), sq(2, 2), sq(0, 0), sq(0, 1), sq(0, 2), sq(0, 2), sq(2, 2)];
    let mut selection = None;
    for c in clicks {
        selection = on_mouse_down(&mut board, selection, c);
        let pieces = board.pieces();
        for i in 0..pieces.len() {
            for j in 0..pieces.len() {
                if i != j {
                    assert_ne!(pieces[i].0, pieces[j].0);
                }
            }
        }
    }
    assert_eq!(board.pieces().len(), 2);
}

#[test]
fn hover_moves_with_pointer() {
    let mut board = Board::new();
    board.put(sq(1, 1), ChessBoardItem::new(Team::White, Variant::Pawn));
    board.put(sq(2, 1), ChessBoardItem::new(Team::White, Variant::Pawn));
    update_hover(&mut board, None, Some(sq(1, 1)));
    assert_eq!(board.get(sq(1, 1)).unwrap().state, PieceState::Hover);
    update_hover(&mut board, Some(sq(1, 1)), Some(sq(2, 1)));
    assert_eq!(board.get(sq(1, 1)).unwrap().state, PieceState::Rest);
    assert_eq!(board.get(sq(2, 1)).unwrap().state, PieceState::Hover);
    update_hover(&mut board, Some(sq(2, 1)), None);
    assert_eq!(board.get(sq(2, 1)).unwrap().state, PieceState::Rest);
}

#[test]
fn hover_leaves_selected_piece() {
    let mut board = Board::new();
    board.put(sq(1, 1), ChessBoardItem::new(Team::White, Variant::Pawn));
    let selection = on_mouse_down(&mut board, None, sq(1, 1));
    assert_eq!(selection, Some(sq(1, 1)));
    update_hover(&mut board, Some(sq(1, 1)), Some(sq(1, 1)));
    assert_eq!(board.get(sq(1, 1)).unwrap().state, PieceState::Selected);
    update_hover(&mut board, None, Some(sq(5, 5)));
    assert_eq!(board.pieces().len(), 1);
}
