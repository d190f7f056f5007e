use chess::board::Board;
use chess::piece::{ChessBoardItem, PieceState, Team, Variant};
use chess::square::{InvalidSquare, Square};

fn sq(file: i32, rank: i32) -> Square {
    Square::new(file, rank).unwrap()
}

#[test]
fn square_bounds() {
    assert_eq!(sq(7, 7).file(), 7);
    assert_eq!(sq(3, 5).rank(), 5);
    assert_eq!(Square::new(8, 0), Err(InvalidSquare { file: 8, rank: 0 }));
    assert_eq!(Square::new(0, -1), Err(InvalidSquare { file: 0, rank: -1 }));
    assert!(Square::new(-1, 9).is_err());
}

#[test]
fn empty_board_has_no_pieces() {
    let board = Board::new();
    assert!(board.pieces().is_empty());
    assert_eq!(board.get(sq(0, 0)), None);
}

#[test]
fn put_get_remove() {
    let mut board = Board::new();
    let rook = ChessBoardItem::new(Team::White, Variant::Rook);
    board.put(sq(2, 3), rook);
    assert_eq!(board.get(sq(2, 3)), Some(rook));
    assert_eq!(board.get(sq(3, 2)), None);
    assert_eq!(board.remove(sq(2, 3)), Some(rook));
    assert_eq!(board.get(sq(2, 3)), None);
    assert_eq!(board.remove(sq(2, 3)), None);
}

#[test]
fn put_replaces_occupant() {
    let mut board = Board::new();
    board.put(sq(4, 4), ChessBoardItem::new(Team::White, Variant::Rook));
    let queen = ChessBoardItem::new(Team::Black, Variant::Queen);
    board.put(sq(4, 4), queen);
    assert_eq!(board.get(sq(4, 4)), Some(queen));
    assert_eq!(board.pieces(), vec![(sq(4, 4), queen)]);
}

#[test]
fn pieces_lists_each_square_once() {
    let mut board = Board::new();
    let knight = ChessBoardItem::new(Team::Black, Variant::Knight);
    let king = ChessBoardItem { team: Team::White, variant: Variant::King, moved: true, state: PieceState::Hover };
    board.put(sq(6, 7), knight);
    board.put(sq(0, 0), king);
    board.put(sq(7, 0), knight);
    assert_eq!(board.pieces(), vec![(sq(0, 0), king), (sq(7, 0), knight), (sq(6, 7), knight)]);
}
