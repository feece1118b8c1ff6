use vstd::prelude::*;

use crate::types::{Color, PieceType, Square};

verus! {

/// Distance of a rank or file index from the board's edge (0-3).
pub open spec fn edge_distance(x: int) -> int {
    if x < 4 { x } else { 7 - x }
}

/// Rank counted from the side of color `c`.
pub open spec fn relative_rank(sq: int, c: Color) -> int {
    if c == Color::White { sq / 8 } else { 7 - sq / 8 }
}

/// Middlegame (`mg`) or endgame piece-square bonus of a piece of type `t` and color `c` on `sq`.
pub open spec fn pst(mg: bool, t: PieceType, c: Color, sq: int) -> int {
    let rr = relative_rank(sq, c);
    let f = sq % 8;
    let center = edge_distance(sq / 8) + edge_distance(f);
    match t {
        PieceType::Pawn => if mg {
            5 * rr + if f == 3 || f == 4 { 10int } else { 0int }
        } else {
            10 * rr
        },
        PieceType::Knight => if mg { 5 * center - 15 } else { 4 * center - 10 },
        PieceType::Bishop => 3 * center - 5,
        PieceType::Rook => if mg && rr == 6 { 10int } else { 0int },
        PieceType::Queen => if mg { 2 * center - 5 } else { 2 * center },
        PieceType::King => if mg {
            -10 * rr + if rr == 0 && (f <= 2 || f >= 6) { 20int } else { 0int }
        } else {
            8 * center - 20
        },
    }
}

fn edge_dist(x: i32) -> (r: i32)
    requires
        0 <= x < 8,
    ensures
        r == edge_distance(x as int),
        0 <= r <= 3,
{
    if x < 4 { x } else { 7 - x }
}

/// The piece-square bonus of the middlegame table (`middlegame`) or the endgame table.
pub fn bonus(middlegame: bool, t: PieceType, c: Color, square: Square) -> (r: i32)
    requires
        square < 64,
    ensures
        r == pst(middlegame, t, c, square as int),
        -70 <= r <= 70,
{
    let rank = (square / 8) as i32;
    let f = (square % 8) as i32;
    let rr = if c.is_white() { rank } else { 7 - rank };
    assert(0 <= rank < 8 && 0 <= f < 8 && 0 <= rr < 8);
    let center = edge_dist(rank) + edge_dist(f);
    match t {
        PieceType::Pawn => if middlegame {
            5 * rr + if f == 3 || f == 4 { 10 } else { 0 }
        } else {
            10 * rr
        },
        PieceType::Knight => if middlegame { 5 * center - 15 } else { 4 * center - 10 },
        PieceType::Bishop => 3 * center - 5,
        PieceType::Rook => if middlegame && rr == 6 { 10 } else { 0 },
        PieceType::Queen => if middlegame { 2 * center - 5 } else { 2 * center },
        PieceType::King => if middlegame {
            let shelter: i32 = if rr == 0 && (f <= 2 || f >= 6) { 20 } else { 0 };
            shelter - 10 * rr
        } else {
            8 * center - 20
        },
    }
}

pub fn get_middlegame_bonus(square: Square, t: PieceType, c: Color) -> (r: i32)
    requires
        square < 64,
    ensures
        r == pst(true, t, c, square as int),
{
    bonus(true, t, c, square)
}

pub fn get_endgame_bonus(square: Square, t: PieceType, c: Color) -> (r: i32)
    requires
        square < 64,
    ensures
        r == pst(false, t, c, square as int),
{
    bonus(false, t, c, square)
}

} // verus!
