use vstd::prelude::*;

use crate::piece::{Team, Variant};
use crate::square::Square;

verus! {

/// The absolute value of `v`.
pub open spec fn abs(v: int) -> int {
    if v < 0 {
        -v
    } else {
        v
    }
}

/// The rank step of a single pawn advance for a team.
pub open spec fn forward(team: Team) -> int {
    match team {
        Team::White => 1,
        Team::Black => -1,
    }
}

/// Along a file or a rank, any distance.
pub open spec fn rook_shape(dx: int, dy: int) -> bool {
    dx == 0 || dy == 0
}

/// Along a diagonal, any distance.
pub open spec fn bishop_shape(dx: int, dy: int) -> bool {
    abs(dx) == abs(dy)
}

/// Whether a move by the offset `(dx, dy)` has a legal shape for the piece.
/// No board is consulted: blocking, captures and check play no part.
pub open spec fn shape_legal(variant: Variant, team: Team, moved: bool, dx: int, dy: int) -> bool {
    match variant {
        Variant::Pawn => dx == 0 && (dy == forward(team) || (dy == 2 * forward(team) && !moved)),
        Variant::Rook => rook_shape(dx, dy),
        Variant::Knight => (abs(dx) == 1 && abs(dy) == 2) || (abs(dx) == 2 && abs(dy) == 1),
        Variant::Bishop => bishop_shape(dx, dy),
        Variant::Queen => rook_shape(dx, dy) || bishop_shape(dx, dy),
        Variant::King => abs(dx) <= 1 && abs(dy) <= 1,
    }
}

fn abs_i64(v: i64) -> (r: i64)
    requires
        v > i64::MIN,
    ensures
        r == abs(v as int),
{
    if v < 0 {
        -v
    } else {
        v
    }
}

/// Whether a piece of the given kind may move from `(curr_x, curr_y)` to
/// `(new_x, new_y)`. Coordinates are taken as they are, without a bound.
pub fn check_if_can_move(
    pice_type: Variant,
    team: Team,
    moved: bool,
    curr_x: i32,
    curr_y: i32,
    new_x: i32,
    new_y: i32,
) -> (r: bool)
    ensures
        r == shape_legal(pice_type, team, moved, new_x - curr_x, new_y - curr_y),
{
    let dx: i64 = new_x as i64 - curr_x as i64;
    let dy: i64 = new_y as i64 - curr_y as i64;
    let step: i64 = match team {
        Team::White => 1,
        Team::Black => -1,
    };
    match pice_type {
        Variant::Pawn => dx == 0 && (dy == step || (dy == 2 * step && !moved)),
        Variant::Rook => dx == 0 || dy == 0,
        Variant::Knight => {
            let ax = abs_i64(dx);
            let ay = abs_i64(dy);
            (ax == 1 && ay == 2) || (ax == 2 && ay == 1)
        },
        Variant::Bishop => abs_i64(dx) == abs_i64(dy),
        Variant::Queen => dx == 0 || dy == 0 || abs_i64(dx) == abs_i64(dy),
        Variant::King => abs_i64(dx) <= 1 && abs_i64(dy) <= 1,
    }
}

/// Whether a piece of the given kind may move from `src` to `dst`.
pub fn can_move(variant: Variant, team: Team, moved: bool, src: Square, dst: Square) -> (r: bool)
    ensures
        r == shape_legal(variant, team, moved, dst@.0 - src@.0, dst@.1 - src@.1),
{
    check_if_can_move(variant, team, moved, src.file(), src.rank(), dst.file(), dst.rank())
}

} // verus!
