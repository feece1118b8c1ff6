use vstd::prelude::*;

use crate::board::Board;
use crate::eval::pawn_structure::{file_pawns, on_file, pawn_of};
use crate::geometry::{on_board, dir_dr, dir_df, dir_offset, square_at};
use crate::move_generator::{MoveGenerator, attacked, king_from};
use crate::types::{Color, Piece, PieceType, Square};

verus! {

pub const PAWN_SHIELD_BONUS: i32 = 20;

pub const OPEN_FILE_PENALTY: i32 = -30;

pub const SEMI_OPEN_FILE_PENALTY: i32 = -15;

pub const ATTACKER_WEIGHT: i32 = 10;

/// Friendly pawns on the two ranks in front of the king, within one file.
pub open spec fn shield_count(b: Seq<Option<Piece>>, k: int, c: Color) -> int {
    let dir = if c == Color::White { 1int } else { -1int };
    let r = k / 8;
    let f = k % 8;
    (if pawn_of(b, r + dir, f - 1, c) { 1int } else { 0int }) + (if pawn_of(b, r + dir, f, c) { 1int } else { 0int })
        + (if pawn_of(b, r + dir, f + 1, c) { 1int } else { 0int }) + (if pawn_of(b, r + 2 * dir, f - 1, c) { 1int } else { 0int })
        + (if pawn_of(b, r + 2 * dir, f, c) { 1int } else { 0int }) + (if pawn_of(b, r + 2 * dir, f + 1, c) { 1int } else { 0int })
}

/// Penalty of one file next to the king: open, or without own pawns.
pub open spec fn file_penalty(b: Seq<Option<Piece>>, f: int, c: Color) -> int {
    if !on_file(f) {
        0
    } else if file_pawns(b, f, c, 8) == 0 && file_pawns(b, f, c.opp(), 8) == 0 {
        -30
    } else if file_pawns(b, f, c, 8) == 0 {
        -15
    } else {
        0
    }
}

/// Neighbours of the king among the first `d` directions attacked by the other side.
pub open spec fn attacked_neighbours(b: Seq<Option<Piece>>, k: int, c: Color, d: int) -> int
    decreases d,
{
    if d <= 0 {
        0
    } else {
        let r = k / 8 + dir_dr(d - 1);
        let f = k % 8 + dir_df(d - 1);
        attacked_neighbours(b, k, c, d - 1) + if on_board(r, f) && attacked(b, r * 8 + f, c.opp()) {
            1int
        } else {
            0int
        }
    }
}

/// King safety of `c`: shield bonus, open-file penalties, attacked neighbours.
pub open spec fn king_safety_of(b: Seq<Option<Piece>>, c: Color) -> int {
    match king_from(b, c, 0) {
        None => 0,
        Some(k) => 20 * shield_count(b, k, c) + file_penalty(b, k % 8 - 1, c) + file_penalty(b, k % 8, c)
            + file_penalty(b, k % 8 + 1, c) - 10 * attacked_neighbours(b, k, c, 8),
    }
}

fn pawn_here(board: &Board, r: i32, f: i32, c: Color) -> (res: bool)
    requires
        board.inv(),
    ensures
        res == pawn_of(board@.board, r as int, f as int, c),
{
    if 0 <= r && r < 8 && 0 <= f && f < 8 {
        match board.get_piece((r * 8 + f) as usize) {
            Some(p) => p.piece_type == PieceType::Pawn && p.color == c,
            None => false,
        }
    } else {
        false
    }
}

fn find_king(board: &Board, color: Color) -> (r: Option<Square>)
    requires
        board.inv(),
    ensures
        r is Some <==> king_from(board@.board, color, 0) is Some,
        r is Some ==> r->0 as int == king_from(board@.board, color, 0)->0 && r->0 < 64,
{
    let mut sq: usize = 0;
    while sq < 64
        invariant
            board.inv(),
            sq <= 64,
            king_from(board@.board, color, 0) == king_from(board@.board, color, sq as int),
        decreases 64 - sq,
    {
        match board.get_piece(sq) {
            Some(p) => {
                if p.color == color && p.piece_type == PieceType::King {
                    return Some(sq);
                }
            },
            None => {},
        }
        sq = sq + 1;
    }
    None
}

fn evaluate_pawn_shield(board: &Board, king_square: Square, color: Color) -> (r: i32)
    requires
        board.inv(),
        king_square < 64,
    ensures
        r == 20 * shield_count(board@.board, king_square as int, color),
        0 <= r <= 120,
{
    let dir: i32 = if color.is_white() { 1 } else { -1 };
    let r = (king_square / 8) as i32;
    let f = (king_square % 8) as i32;
    let mut n: i32 = 0;
    if pawn_here(board, r + dir, f - 1, color) { n = n + 1; }
    if pawn_here(board, r + dir, f, color) { n = n + 1; }
    if pawn_here(board, r + dir, f + 1, color) { n = n + 1; }
    if pawn_here(board, r + 2 * dir, f - 1, color) { n = n + 1; }
    if pawn_here(board, r + 2 * dir, f, color) { n = n + 1; }
    if pawn_here(board, r + 2 * dir, f + 1, color) { n = n + 1; }
    n * PAWN_SHIELD_BONUS
}

fn count_pawns_on_file(board: &Board, file: i32, color: Color) -> (r: (i32, i32))
    requires
        board.inv(),
        0 <= file < 8,
    ensures
        r.0 == file_pawns(board@.board, file as int, color, 8),
        r.1 == file_pawns(board@.board, file as int, color.opp(), 8),
{
    let mut own: i32 = 0;
    let mut enemy: i32 = 0;
    let mut rank: i32 = 0;
    while rank < 8
        invariant
            board.inv(),
            0 <= file < 8,
            0 <= rank <= 8,
            own == file_pawns(board@.board, file as int, color, rank as int),
            enemy == file_pawns(board@.board, file as int, color.opp(), rank as int),
            0 <= own <= rank,
            0 <= enemy <= rank,
        decreases 8 - rank,
    {
        if pawn_here(board, rank, file, color) {
            own = own + 1;
        }
        if pawn_here(board, rank, file, color.opposite()) {
            enemy = enemy + 1;
        }
        rank = rank + 1;
    }
    (own, enemy)
}

fn file_penalty_at(board: &Board, f: i32, color: Color) -> (r: i32)
    requires
        board.inv(),
        -1 <= f <= 8,
    ensures
        r == file_penalty(board@.board, f as int, color),
        -30 <= r <= 0,
{
    if f < 0 || f > 7 {
        return 0;
    }
    let (own, enemy) = count_pawns_on_file(board, f, color);
    if own == 0 && enemy == 0 {
        OPEN_FILE_PENALTY
    } else if own == 0 {
        SEMI_OPEN_FILE_PENALTY
    } else {
        0
    }
}

fn evaluate_open_files(board: &Board, king_square: Square, color: Color) -> (r: i32)
    requires
        board.inv(),
        king_square < 64,
    ensures
        r == file_penalty(board@.board, king_square as int % 8 - 1, color) + file_penalty(board@.board, king_square as int
            % 8, color) + file_penalty(board@.board, king_square as int % 8 + 1, color),
        -90 <= r <= 0,
{
    let f = (king_square % 8) as i32;
    file_penalty_at(board, f - 1, color) + file_penalty_at(board, f, color) + file_penalty_at(board, f + 1, color)
}

fn evaluate_attackers(board: &Board, king_square: Square, color: Color) -> (r: i32)
    requires
        board.inv(),
        king_square < 64,
    ensures
        r == 10 * attacked_neighbours(board@.board, king_square as int, color, 8),
        0 <= r <= 80,
{
    let mg = MoveGenerator::new();
    let rank = (king_square / 8) as i32;
    let file = (king_square % 8) as i32;
    let mut n: i32 = 0;
    let mut d: usize = 0;
    while d < 8
        invariant
            board.inv(),
            king_square < 64,
            rank == king_square / 8,
            file == king_square % 8,
            d <= 8,
            n == attacked_neighbours(board@.board, king_square as int, color, d as int),
            0 <= n <= d,
        decreases 8 - d,
    {
        let (dr, df) = dir_offset(d);
        match square_at(rank + dr, file + df) {
            Some(t) => {
                if mg.is_square_attacked(board, t, color.opposite()) {
                    n = n + 1;
                }
            },
            None => {},
        }
        d = d + 1;
    }
    n * ATTACKER_WEIGHT
}

fn evaluate_king_safety(board: &Board, color: Color) -> (r: i32)
    requires
        board.inv(),
    ensures
        r == king_safety_of(board@.board, color),
        -170 <= r <= 120,
{
    match find_king(board, color) {
        None => 0,
        Some(k) => {
            evaluate_pawn_shield(board, k, color) + evaluate_open_files(board, k, color) - evaluate_attackers(board, k, color)
        },
    }
}

/// King safety, White minus Black.
pub fn evaluate(board: &Board) -> (r: i32)
    requires
        board.inv(),
    ensures
        r == king_safety_of(board@.board, Color::White) - king_safety_of(board@.board, Color::Black),
        -290 <= r <= 290,
{
    evaluate_king_safety(board, Color::White) - evaluate_king_safety(board, Color::Black)
}

} // verus!
