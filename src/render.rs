use vstd::prelude::*;

use crate::piece::PieceState;
use crate::square::{Square, BOARD_SIZE};

verus! {

/// A colour as red, green, blue and alpha channels.
#[derive(Clone, Copy, Debug, PartialEq, Eq, Structural)]
pub struct Rgba {
    pub r: u8,
    pub g: u8,
    pub b: u8,
    pub a: u8,
}

/// Light squares.
pub open spec fn light_square() -> Rgba {
    Rgba { r: 255, g: 206, b: 158, a: 255 }
}

/// Dark squares.
pub open spec fn dark_square() -> Rgba {
    Rgba { r: 209, g: 139, b: 71, a: 255 }
}

/// Under a selected piece.
pub open spec fn selected_highlight() -> Rgba {
    Rgba { r: 180, g: 180, b: 0, a: 255 }
}

/// Under a hovered piece.
pub open spec fn hover_highlight() -> Rgba {
    Rgba { r: 180, g: 180, b: 180, a: 255 }
}

/// The colours the board is drawn with.
pub struct ChessColor;

impl ChessColor {
    /// Light squares.
    pub fn white() -> (c: Rgba)
        ensures
            c == light_square(),
    {
        Rgba { r: 255, g: 206, b: 158, a: 255 }
    }

    /// Dark squares.
    pub fn black() -> (c: Rgba)
        ensures
            c == dark_square(),
    {
        Rgba { r: 209, g: 139, b: 71, a: 255 }
    }

    /// Under a selected piece.
    pub fn selected() -> (c: Rgba)
        ensures
            c == selected_highlight(),
    {
        Rgba { r: 180, g: 180, b: 0, a: 255 }
    }

    /// Under a hovered piece.
    pub fn hovered() -> (c: Rgba)
        ensures
            c == hover_highlight(),
    {
        Rgba { r: 180, g: 180, b: 180, a: 255 }
    }
}

/// Whether a square is drawn light: file plus rank even.
pub open spec fn is_light(k: (int, int)) -> bool {
    (k.0 + k.1) % 2 == 0
}

/// The colour of a square of the board.
pub fn square_color(s: Square) -> (c: Rgba)
    ensures
        is_light(s@) ==> c == light_square(),
        !is_light(s@) ==> c == dark_square(),
{
    if (s.file() + s.rank()) % 2 == 0 {
        ChessColor::white()
    } else {
        ChessColor::black()
    }
}

/// The colour drawn under a piece on `s` shown in `state`: the square's own
/// colour at rest, else the highlight of the state.
pub fn highlight_color(s: Square, state: PieceState) -> (c: Rgba)
    ensures
        state == PieceState::Rest && is_light(s@) ==> c == light_square(),
        state == PieceState::Rest && !is_light(s@) ==> c == dark_square(),
        state == PieceState::Selected ==> c == selected_highlight(),
        state == PieceState::Hover ==> c == hover_highlight(),
{
    match state {
        PieceState::Rest => square_color(s),
        PieceState::Selected => ChessColor::selected(),
        PieceState::Hover => ChessColor::hovered(),
    }
}

/// The square under the pointer at `(px, py)`, for a board drawn from
/// `(left, top)` with cells `cell_w` by `cell_h`; none when the pointer is
/// off the board.
pub fn square_at_pointer(px: i32, py: i32, left: i32, top: i32, cell_w: i32, cell_h: i32) -> (r:
    Option<Square>)
    requires
        cell_w > 0,
        cell_h > 0,
    ensures
        r is Some <==> (0 <= px - left < BOARD_SIZE * cell_w && 0 <= py - top < BOARD_SIZE
            * cell_h),
        r is Some ==> r->Some_0@ == ((px - left) / (cell_w as int), (py - top) / (cell_h as int)),
{
    let dx: i64 = px as i64 - left as i64;
    let dy: i64 = py as i64 - top as i64;
    let w: i64 = cell_w as i64;
    let h: i64 = cell_h as i64;
    if dx < 0 || dx >= 8 * w || dy < 0 || dy >= 8 * h {
        return None;
    }
    let file: i64 = dx / w;
    let rank: i64 = dy / h;
    proof {
        assert(file < 8) by (nonlinear_arith)
            requires
                0 <= dx < 8 * w,
                w > 0,
                file == dx / w,
        ;
        assert(rank < 8) by (nonlinear_arith)
            requires
                0 <= dy < 8 * h,
                h > 0,
                rank == dy / h,
        ;
        assert(file >= 0) by (nonlinear_arith)
            requires
                0 <= dx,
                w > 0,
                file == dx / w,
        ;
        assert(rank >= 0) by (nonlinear_arith)
            requires
                0 <= dy,
                h > 0,
                rank == dy / h,
        ;
    }
    match Square::new(file as i32, rank as i32) {
        Ok(s) => Some(s),
        Err(_) => None,
    }
}

} // verus!
