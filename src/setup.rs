use vstd::prelude::*;

use crate::board::{Board, Occupancy};
use crate::piece::{fresh_piece, ChessBoardItem, Team, Variant};
use crate::square::{Square, BOARD_SIZE};

verus! {

/// A placement record as read at start-up: a piece's display name, its team
/// and kind as words, and the image it is drawn with.
#[derive(Clone, Debug)]
pub struct ChessItem {
    pub name: String,
    pub team: String,
    pub variant: String,
    pub src: String,
}

/// The team a word names: `white`, and black for any other word.
pub open spec fn team_named(s: Seq<char>) -> Team {
    if s == "white"@ {
        Team::White
    } else {
        Team::Black
    }
}

/// The kind of piece a word names, if any.
pub open spec fn variant_named(s: Seq<char>) -> Option<Variant> {
    if s == "pawn"@ {
        Some(Variant::Pawn)
    } else if s == "rook"@ {
        Some(Variant::Rook)
    } else if s == "knight"@ {
        Some(Variant::Knight)
    } else if s == "bishop"@ {
        Some(Variant::Bishop)
    } else if s == "queen"@ {
        Some(Variant::Queen)
    } else if s == "king"@ {
        Some(Variant::King)
    } else {
        None
    }
}

pub fn parse_team(s: &String) -> (r: Team)
    ensures
        r == team_named(s@),
{
    if *s == "white".to_owned() {
        Team::White
    } else {
        Team::Black
    }
}

pub fn parse_variant(s: &String) -> (r: Option<Variant>)
    ensures
        r == variant_named(s@),
{
    if *s == "pawn".to_owned() {
        Some(Variant::Pawn)
    } else if *s == "rook".to_owned() {
        Some(Variant::Rook)
    } else if *s == "knight".to_owned() {
        Some(Variant::Knight)
    } else if *s == "bishop".to_owned() {
        Some(Variant::Bishop)
    } else if *s == "queen".to_owned() {
        Some(Variant::Queen)
    } else if *s == "king".to_owned() {
        Some(Variant::King)
    } else {
        None
    }
}

/// The rank on which a team's pieces of a kind start.
pub open spec fn home_rank(team: Team, variant: Variant) -> int {
    match (team, variant) {
        (Team::White, Variant::Pawn) => 1,
        (Team::Black, Variant::Pawn) => 6,
        (Team::White, _) => 0,
        (Team::Black, _) => 7,
    }
}

/// Whether pieces of a kind start on file `f`.
pub open spec fn home_file(variant: Variant, f: int) -> bool {
    match variant {
        Variant::Pawn => 0 <= f < BOARD_SIZE,
        Variant::Rook => f == 0 || f == 7,
        Variant::Knight => f == 1 || f == 6,
        Variant::Bishop => f == 2 || f == 5,
        Variant::Queen => f == 3,
        Variant::King => f == 4,
    }
}

/// Whether a team's pieces of a kind start on square `k`.
pub open spec fn is_home(team: Team, variant: Variant, k: (int, int)) -> bool {
    k.1 == home_rank(team, variant) && home_file(variant, k.0)
}

/// `b` with `p` set on every square of `keys`.
pub open spec fn put_all(b: Occupancy, keys: Set<(int, int)>, p: ChessBoardItem) -> Occupancy {
    Map::new(
        |k: (int, int)| b.dom().contains(k) || keys.contains(k),
        |k: (int, int)|
            if keys.contains(k) {
                p
            } else {
                b[k]
            },
    )
}

/// `b` with a team's fresh pieces of a kind set on their starting squares.
pub open spec fn place(b: Occupancy, team: Team, variant: Variant) -> Occupancy {
    put_all(b, Set::new(|k: (int, int)| is_home(team, variant, k)), fresh_piece(team, variant))
}

/// `b` after the records of `items` are placed in order; a record whose kind
/// names no piece places nothing, and a later record wins a shared square.
pub open spec fn placed(b: Occupancy, items: Seq<ChessItem>) -> Occupancy
    decreases items.len(),
{
    if items.len() == 0 {
        b
    } else {
        let before = placed(b, items.drop_last());
        let item = items.last();
        match variant_named(item.variant@) {
            Some(v) => place(before, team_named(item.team@), v),
            None => before,
        }
    }
}

fn is_home_file(variant: Variant, f: i32) -> (r: bool)
    ensures
        r == home_file(variant, f as int),
{
    match variant {
        Variant::Pawn => 0 <= f && f < BOARD_SIZE,
        Variant::Rook => f == 0 || f == 7,
        Variant::Knight => f == 1 || f == 6,
        Variant::Bishop => f == 2 || f == 5,
        Variant::Queen => f == 3,
        Variant::King => f == 4,
    }
}

/// The squares on which a team's pieces of a kind start, each once.
pub fn initial_squares(team: Team, variant: Variant) -> (r: Vec<Square>)
    ensures
        forall|i: int, j: int| 0 <= i < j < r.len() ==> #[trigger] r@[i]@ != #[trigger] r@[j]@,
        forall|i: int| 0 <= i < r.len() ==> is_home(team, variant, #[trigger] r@[i]@),
        forall|k: (int, int)|
            is_home(team, variant, k) ==> exists|i: int| 0 <= i < r.len() && #[trigger] r@[i]@ == k,
{
    let rank: i32 = match (team, variant) {
        (Team::White, Variant::Pawn) => 1,
        (Team::Black, Variant::Pawn) => 6,
        (Team::White, _) => 0,
        (Team::Black, _) => 7,
    };
    let mut r: Vec<Square> = Vec::new();
    let mut file: i32 = 0;
    while file < BOARD_SIZE
        invariant
            0 <= file <= BOARD_SIZE,
            rank == home_rank(team, variant),
            forall|a: int, b: int| 0 <= a < b < r.len() ==> #[trigger] r@[a]@.0 < #[trigger] r@[b]@.0,
            forall|a: int| 0 <= a < r.len() ==> #[trigger] r@[a]@.0 < file,
            forall|a: int| 0 <= a < r.len() ==> is_home(team, variant, #[trigger] r@[a]@),
            forall|k: (int, int)|
                is_home(team, variant, k) && k.0 < file ==> exists|a: int|
                    0 <= a < r.len() && #[trigger] r@[a]@ == k,
        decreases BOARD_SIZE - file,
    {
        if is_home_file(variant, file) {
            if let Ok(s) = Square::new(file, rank) {
                let ghost old_r = r@;
                r.push(s);
                proof {
                    assert(r@[old_r.len() as int] == s);
                    assert forall|k: (int, int)|
                        is_home(team, variant, k) && k.0 < file + 1 implies exists|a: int|
                        0 <= a < r.len() && #[trigger] r@[a]@ == k by {
                        if k.0 == file {
                            assert(r@[old_r.len() as int]@ == k);
                        } else {
                            let a = choose|a: int| 0 <= a < old_r.len() && #[trigger] old_r[a]@ == k;
                            assert(r@[a] == old_r[a]);
                        }
                    }
                }
            }
        }
        file = file + 1;
    }
    proof {
        assert forall|i: int, j: int| 0 <= i < j < r.len() implies #[trigger] r@[i]@ != #[trigger] r@[j]@ by {
            assert(r@[i]@.0 < r@[j]@.0);
        }
    }
    r
}

/// Sets `p` on `s` unless `s` is already occupied.
pub fn add_to_chess_map(board: &mut Board, s: Square, p: ChessBoardItem)
    ensures
        final(board)@ == if old(board)@.dom().contains(s@) {
            old(board)@
        } else {
            old(board)@.insert(s@, p)
        },
{
    if board.get(s).is_none() {
        board.put(s, p);
    }
}

/// Sets `p` on `s`, replacing whatever stood there.
pub fn update_chess_map(board: &mut Board, s: Square, p: ChessBoardItem)
    ensures
        final(board)@ == old(board)@.insert(s@, p),
{
    board.put(s, p);
}

/// Sets a team's fresh pieces of a kind on their starting squares.
pub fn place_pieces(board: &mut Board, team: Team, variant: Variant)
    ensures
        final(board)@ == place(old(board)@, team, variant),
{
    let squares = initial_squares(team, variant);
    let piece = ChessBoardItem::new(team, variant);
    let ghost b0 = board@;
    let mut j: usize = 0;
    while j < squares.len()
        invariant
            j <= squares.len(),
            board@ == put_all(
                b0,
                Set::new(|k: (int, int)| exists|a: int| 0 <= a < j && #[trigger] squares@[a]@ == k),
                piece,
            ),
        decreases squares.len() - j,
    {
        let ghost before = board@;
        let ghost keys = Set::new(
            |k: (int, int)| exists|a: int| 0 <= a < j && #[trigger] squares@[a]@ == k,
        );
        let ghost next = Set::new(
            |k: (int, int)| exists|a: int| 0 <= a < j + 1 && #[trigger] squares@[a]@ == k,
        );
        update_chess_map(board, squares[j], piece);
        proof {
            assert(next =~= keys.insert(squares@[j as int]@)) by {
                assert forall|k: (int, int)| next.contains(k) implies #[trigger] keys.insert(
                    squares@[j as int]@,
                ).contains(k) by {
                    let a = choose|a: int| 0 <= a < j + 1 && #[trigger] squares@[a]@ == k;
                    if a < j {
                        assert(keys.contains(k));
                    }
                }
                assert forall|k: (int, int)| #[trigger] keys.insert(squares@[j as int]@).contains(
                    k,
                ) implies next.contains(k) by {
                    if k != squares@[j as int]@ {
                        let a = choose|a: int| 0 <= a < j && #[trigger] squares@[a]@ == k;
                        assert(0 <= a < j + 1 && squares@[a]@ == k);
                    } else {
                        assert(squares@[j as int]@ == k);
                    }
                }
            }
            assert(board@ =~= put_all(b0, next, piece));
        }
        j = j + 1;
    }
    proof {
        let keys = Set::new(
            |k: (int, int)| exists|a: int| 0 <= a < squares.len() && #[trigger] squares@[a]@ == k,
        );
        assert(keys =~= Set::new(|k: (int, int)| is_home(team, variant, k)));
    }
}

/// Places the records of `chess_items` in order, each team's pieces of the
/// named kind on their starting squares; a record whose kind names no piece
/// is passed over.
pub fn init_chess_items(board: &mut Board, chess_items: &Vec<ChessItem>)
    ensures
        final(board)@ == placed(old(board)@, chess_items@),
{
    let ghost b0 = board@;
    let mut i: usize = 0;
    while i < chess_items.len()
        invariant
            i <= chess_items.len(),
            board@ == placed(b0, chess_items@.take(i as int)),
        decreases chess_items.len() - i,
    {
        let item = &chess_items[i];
        let team = parse_team(&item.team);
        let kind = parse_variant(&item.variant);
        if let Some(variant) = kind {
            place_pieces(board, team, variant);
        }
        proof {
            assert(chess_items@.take(i + 1).drop_last() =~= chess_items@.take(i as int));
        }
        i = i + 1;
    }
    proof {
        assert(chess_items@.take(i as int) =~= chess_items@);
    }
}

} // verus!
