use vstd::prelude::*;

use crate::board::Board;
use crate::geometry::{on_board, knight_dr, knight_df, dir_dr, dir_df, knight_offset, dir_offset, square_at};
use crate::types::{Color, Piece, PieceType, Square};

verus! {

pub open spec fn knight_mobility_table() -> Seq<int> {
    seq![-15int, -5, 0, 5, 10, 15, 20, 22, 24]
}

pub open spec fn bishop_mobility_table() -> Seq<int> {
    seq![-20int, -10, 0, 5, 10, 15, 18, 21, 24, 26, 28, 30, 32, 34]
}

pub open spec fn rook_mobility_table() -> Seq<int> {
    seq![-15int, -8, 0, 3, 6, 9, 12, 14, 16, 18, 20, 22, 24, 26, 28]
}

pub open spec fn queen_mobility_table() -> Seq<int> {
    seq![-10int, -5, 0, 2, 4, 6, 8, 10, 12, 13, 14, 15, 16, 17, 18, 19, 20, 21, 22, 22, 23, 23, 24, 24, 25, 25, 26, 26]
}

/// A square a piece of `c` may move to: empty or holding an enemy.
pub open spec fn reachable(b: Seq<Option<Piece>>, t: int, c: Color) -> bool {
    match b[t] {
        None => true,
        Some(p) => p.color != c,
    }
}

/// Knight targets among the first `k` offsets that are empty or hold an enemy.
pub open spec fn knight_count(b: Seq<Option<Piece>>, sq: int, c: Color, k: int) -> int
    decreases k,
{
    if k <= 0 {
        0
    } else {
        let r = sq / 8 + knight_dr(k - 1);
        let f = sq % 8 + knight_df(k - 1);
        knight_count(b, sq, c, k - 1) + if on_board(r, f) && reachable(b, r * 8 + f, c) { 1int } else { 0int }
    }
}

/// Squares along one line up to and including the first enemy, stopping before an own piece.
pub open spec fn line_count(b: Seq<Option<Piece>>, r: int, f: int, dr: int, df: int, c: Color, fuel: nat) -> int
    decreases fuel,
{
    if fuel == 0 || !on_board(r, f) {
        0
    } else {
        match b[r * 8 + f] {
            None => 1 + line_count(b, r + dr, f + df, dr, df, c, (fuel - 1) as nat),
            Some(p) => if p.color != c { 1int } else { 0int },
        }
    }
}

/// Sliding mobility over directions `d0` up to (not including) `d`.
pub open spec fn slide_count(b: Seq<Option<Piece>>, sq: int, c: Color, d0: int, d: int) -> int
    decreases d - d0,
{
    if d <= d0 {
        0
    } else {
        slide_count(b, sq, c, d0, d - 1) + line_count(
            b,
            sq / 8 + dir_dr(d - 1),
            sq % 8 + dir_df(d - 1),
            dir_dr(d - 1),
            dir_df(d - 1),
            c,
            8,
        )
    }
}

pub open spec fn capped(n: int, cap: int) -> int {
    if n < cap { n } else { cap }
}

/// Mobility bonus of a piece: its reachable-square count looked up in its curve.
pub open spec fn piece_mobility(b: Seq<Option<Piece>>, sq: int, p: Piece) -> int {
    match p.piece_type {
        PieceType::Knight => knight_mobility_table()[capped(knight_count(b, sq, p.color, 8), 8)],
        PieceType::Bishop => bishop_mobility_table()[capped(slide_count(b, sq, p.color, 4, 8), 13)],
        PieceType::Rook => rook_mobility_table()[capped(slide_count(b, sq, p.color, 0, 4), 14)],
        PieceType::Queen => queen_mobility_table()[capped(slide_count(b, sq, p.color, 0, 8), 27)],
        _ => 0,
    }
}

/// Mobility of the pieces on squares below `n`, White minus Black.
pub open spec fn mobility_upto(b: Seq<Option<Piece>>, n: int) -> int
    decreases n,
{
    if n <= 0 {
        0
    } else {
        mobility_upto(b, n - 1) + match b[n - 1] {
            Some(p) => if p.color == Color::White {
                piece_mobility(b, n - 1, p)
            } else {
                -piece_mobility(b, n - 1, p)
            },
            None => 0,
        }
    }
}

fn is_reachable(board: &Board, t: Square, c: Color) -> (r: bool)
    requires
        board.inv(),
        t < 64,
    ensures
        r == reachable(board@.board, t as int, c),
{
    match board.get_piece(t) {
        None => true,
        Some(p) => p.color != c,
    }
}

fn count_knight_mobility(board: &Board, square: Square, color: Color) -> (r: usize)
    requires
        board.inv(),
        square < 64,
    ensures
        r == knight_count(board@.board, square as int, color, 8),
        r <= 8,
{
    let rank = (square / 8) as i32;
    let file = (square % 8) as i32;
    let mut count: usize = 0;
    let mut k: usize = 0;
    while k < 8
        invariant
            board.inv(),
            square < 64,
            rank == square / 8,
            file == square % 8,
            k <= 8,
            count == knight_count(board@.board, square as int, color, k as int),
            count <= k,
        decreases 8 - k,
    {
        let (dr, df) = knight_offset(k);
        match square_at(rank + dr, file + df) {
            Some(t) => {
                if is_reachable(board, t, color) {
                    count = count + 1;
                }
            },
            None => {},
        }
        k = k + 1;
    }
    count
}

fn count_line(board: &Board, r0: i32, f0: i32, dr: i32, df: i32, color: Color) -> (r: usize)
    requires
        board.inv(),
        -1 <= r0 <= 8,
        -1 <= f0 <= 8,
        -1 <= dr <= 1,
        -1 <= df <= 1,
    ensures
        r == line_count(board@.board, r0 as int, f0 as int, dr as int, df as int, color, 8),
        r <= 8,
{
    let ghost b = board@.board;
    let mut r = r0;
    let mut f = f0;
    let mut fuel: u32 = 8;
    let mut count: usize = 0;
    let mut stop = false;
    while fuel > 0 && !stop
        invariant
            board.inv(),
            b == board@.board,
            -1 <= dr <= 1,
            -1 <= df <= 1,
            -9 <= r <= 17,
            -9 <= f <= 17,
            fuel <= 8,
            fuel < 8 ==> on_board(r - dr, f - df),
            count + fuel <= 8 || stop,
            count <= 8,
            stop ==> count == line_count(b, r0 as int, f0 as int, dr as int, df as int, color, 8),
            !stop ==> count + line_count(b, r as int, f as int, dr as int, df as int, color, fuel as nat)
                == line_count(b, r0 as int, f0 as int, dr as int, df as int, color, 8),
            !stop ==> count + fuel == 8,
        decreases fuel + if stop { 0int } else { 1int },
    {
        match square_at(r, f) {
            None => {
                stop = true;
            },
            Some(s) => match board.get_piece(s) {
                Some(p) => {
                    if p.color != color {
                        count = count + 1;
                    }
                    stop = true;
                },
                None => {
                    count = count + 1;
                    r = r + dr;
                    f = f + df;
                    fuel = fuel - 1;
                },
            },
        }
    }
    count
}

fn count_sliding_mobility(board: &Board, square: Square, color: Color, d0: usize, d1: usize) -> (r: usize)
    requires
        board.inv(),
        square < 64,
        d0 <= d1 <= 8,
    ensures
        r == slide_count(board@.board, square as int, color, d0 as int, d1 as int),
        r <= 8 * (d1 - d0),
{
    let rank = (square / 8) as i32;
    let file = (square % 8) as i32;
    let mut count: usize = 0;
    let mut d = d0;
    while d < d1
        invariant
            board.inv(),
            square < 64,
            rank == square / 8,
            file == square % 8,
            d0 <= d <= d1,
            d1 <= 8,
            count == slide_count(board@.board, square as int, color, d0 as int, d as int),
            count <= 8 * (d - d0),
        decreases d1 - d,
    {
        let (dr, df) = dir_offset(d);
        count = count + count_line(board, rank + dr, file + df, dr, df, color);
        d = d + 1;
    }
    count
}

fn count_bishop_mobility(board: &Board, square: Square, color: Color) -> (r: usize)
    requires
        board.inv(),
        square < 64,
    ensures
        r == slide_count(board@.board, square as int, color, 4, 8),
{
    count_sliding_mobility(board, square, color, 4, 8)
}

fn count_rook_mobility(board: &Board, square: Square, color: Color) -> (r: usize)
    requires
        board.inv(),
        square < 64,
    ensures
        r == slide_count(board@.board, square as int, color, 0, 4),
{
    count_sliding_mobility(board, square, color, 0, 4)
}

fn count_queen_mobility(board: &Board, square: Square, color: Color) -> (r: usize)
    requires
        board.inv(),
        square < 64,
    ensures
        r == slide_count(board@.board, square as int, color, 0, 8),
{
    count_sliding_mobility(board, square, color, 0, 8)
}

fn get_mobility_bonus(board: &Board, square: Square, piece: Piece) -> (r: i32)
    requires
        board.inv(),
        square < 64,
    ensures
        r as int == piece_mobility(board@.board, square as int, piece),
        -20 <= r <= 34,
{
    let knight: [i32; 9] = [-15, -5, 0, 5, 10, 15, 20, 22, 24];
    let bishop: [i32; 14] = [-20, -10, 0, 5, 10, 15, 18, 21, 24, 26, 28, 30, 32, 34];
    let rook: [i32; 15] = [-15, -8, 0, 3, 6, 9, 12, 14, 16, 18, 20, 22, 24, 26, 28];
    let queen: [i32; 28] = [
        -10, -5, 0, 2, 4, 6, 8, 10, 12, 13, 14, 15, 16, 17, 18, 19, 20, 21, 22, 22, 23, 23, 24, 24, 25, 25, 26, 26,
    ];
    assert(knight@.map_values(|x: i32| x as int) =~= knight_mobility_table());
    assert(bishop@.map_values(|x: i32| x as int) =~= bishop_mobility_table());
    assert(rook@.map_values(|x: i32| x as int) =~= rook_mobility_table());
    assert(queen@.map_values(|x: i32| x as int) =~= queen_mobility_table());
    match piece.piece_type {
        PieceType::Knight => {
            let n = count_knight_mobility(board, square, piece.color);
            knight[if n < 8 { n } else { 8 }]
        },
        PieceType::Bishop => {
            let n = count_bishop_mobility(board, square, piece.color);
            bishop[if n < 13 { n } else { 13 }]
        },
        PieceType::Rook => {
            let n = count_rook_mobility(board, square, piece.color);
            rook[if n < 14 { n } else { 14 }]
        },
        PieceType::Queen => {
            let n = count_queen_mobility(board, square, piece.color);
            queen[if n < 27 { n } else { 27 }]
        },
        _ => 0,
    }
}

/// Mobility of knights, bishops, rooks and queens, White minus Black.
pub fn evaluate(board: &Board) -> (r: i32)
    requires
        board.inv(),
    ensures
        r as int == mobility_upto(board@.board, 64),
        -34 * 64 <= r <= 34 * 64,
{
    let mut score: i32 = 0;
    let mut sq: usize = 0;
    while sq < 64
        invariant
            board.inv(),
            sq <= 64,
            score as int == mobility_upto(board@.board, sq as int),
            -34 * sq <= score <= 34 * sq,
        decreases 64 - sq,
    {
        match board.get_piece(sq) {
            Some(p) => {
                let bonus = get_mobility_bonus(board, sq, p);
                if p.color.is_white() {
                    score = score + bonus;
                } else {
                    score = score - bonus;
                }
            },
            None => {},
        }
        sq = sq + 1;
    }
    score
}

} // verus!
