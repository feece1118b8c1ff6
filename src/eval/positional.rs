use vstd::prelude::*;

use crate::board::Board;
use crate::eval::pawn_structure::{file_pawns, pawn_of};
use crate::types::{Color, Piece, PieceType, Square};

verus! {

pub const BISHOP_PAIR_BONUS: i32 = 30;

pub const ROOK_OPEN_FILE_BONUS: i32 = 25;

pub const ROOK_SEMI_OPEN_FILE_BONUS: i32 = 15;

pub const ROOK_SEVENTH_RANK_BONUS: i32 = 20;

pub const KNIGHT_OUTPOST_BONUS: i32 = 20;

/// Pieces of type `t` and color `c` on squares below `n`.
pub open spec fn count_of(b: Seq<Option<Piece>>, t: PieceType, c: Color, n: int) -> int
    decreases n,
{
    if n <= 0 {
        0
    } else {
        count_of(b, t, c, n - 1) + if b[n - 1] == Some(Piece { piece_type: t, color: c }) { 1int } else { 0int }
    }
}

pub open spec fn rook_bonus(b: Seq<Option<Piece>>, sq: int, c: Color) -> int {
    let f = sq % 8;
    let r = sq / 8;
    (if file_pawns(b, f, c, 8) == 0 && file_pawns(b, f, c.opp(), 8) == 0 {
        25int
    } else if file_pawns(b, f, c, 8) == 0 {
        15int
    } else {
        0int
    }) + if r == (if c == Color::White { 6int } else { 1int }) { 20int } else { 0int }
}

/// Enemy pawns on the files beside `f`, on ranks ahead of `r` as seen by `c`, among ranks below `n`.
pub open spec fn enemy_side_pawns_ahead(b: Seq<Option<Piece>>, r: int, f: int, c: Color, n: int) -> int
    decreases n,
{
    if n <= 0 {
        0
    } else {
        let k = n - 1;
        let ahead = if c == Color::White { k > r } else { k < r };
        enemy_side_pawns_ahead(b, r, f, c, n - 1) + if ahead {
            (if pawn_of(b, k, f - 1, c.opp()) { 1int } else { 0int }) + (if pawn_of(b, k, f + 1, c.opp()) {
                1int
            } else {
                0int
            })
        } else {
            0int
        }
    }
}

/// A knight protected by a friendly pawn that no enemy pawn can ever attack.
pub open spec fn is_outpost(b: Seq<Option<Piece>>, sq: int, c: Color) -> bool {
    let r = sq / 8;
    let f = sq % 8;
    let behind = if c == Color::White { r - 1 } else { r + 1 };
    (pawn_of(b, behind, f - 1, c) || pawn_of(b, behind, f + 1, c)) && enemy_side_pawns_ahead(b, r, f, c, 8) == 0
}

pub open spec fn piece_positional(b: Seq<Option<Piece>>, sq: int, p: Piece) -> int {
    match p.piece_type {
        PieceType::Rook => rook_bonus(b, sq, p.color),
        PieceType::Knight => if is_outpost(b, sq, p.color) { 20int } else { 0int },
        _ => 0int,
    }
}

pub open spec fn pieces_positional(b: Seq<Option<Piece>>, c: Color, n: int) -> int
    decreases n,
{
    if n <= 0 {
        0
    } else {
        pieces_positional(b, c, n - 1) + match b[n - 1] {
            Some(p) => if p.color == c { piece_positional(b, n - 1, p) } else { 0int },
            None => 0int,
        }
    }
}

/// Bishop pair, rooks on open files and the seventh rank, knight outposts.
pub open spec fn positional_of(b: Seq<Option<Piece>>, c: Color) -> int {
    (if count_of(b, PieceType::Bishop, c, 64) >= 2 { 30int } else { 0int }) + pieces_positional(b, c, 64)
}

fn pawn_at(board: &Board, r: i32, f: i32, c: Color) -> (res: bool)
    requires
        board.inv(),
    ensures
        res == pawn_of(board@.board, r as int, f as int, c),
{
    if 0 <= r && r < 8 && 0 <= f && f < 8 {
        match board.get_piece((r * 8 + f) as usize) {
            Some(p) => p.piece_type == PieceType::Pawn && p.color == c,
            None => false,
        }
    } else {
        false
    }
}

fn has_bishop_pair(board: &Board, color: Color) -> (r: bool)
    requires
        board.inv(),
    ensures
        r == (count_of(board@.board, PieceType::Bishop, color, 64) >= 2),
{
    let mut n: i32 = 0;
    let mut sq: usize = 0;
    while sq < 64
        invariant
            board.inv(),
            sq <= 64,
            n == count_of(board@.board, PieceType::Bishop, color, sq as int),
            0 <= n <= sq,
        decreases 64 - sq,
    {
        match board.get_piece(sq) {
            Some(p) => {
                if p.color == color && p.piece_type == PieceType::Bishop {
                    n = n + 1;
                }
            },
            None => {},
        }
        sq = sq + 1;
    }
    n >= 2
}

fn count_pawns_on_file(board: &Board, file: i32, color: Color) -> (r: (i32, i32))
    requires
        board.inv(),
        0 <= file < 8,
    ensures
        r.0 == file_pawns(board@.board, file as int, color, 8),
        r.1 == file_pawns(board@.board, file as int, color.opp(), 8),
{
    let mut own: i32 = 0;
    let mut enemy: i32 = 0;
    let mut rank: i32 = 0;
    while rank < 8
        invariant
            board.inv(),
            0 <= file < 8,
            0 <= rank <= 8,
            own == file_pawns(board@.board, file as int, color, rank as int),
            enemy == file_pawns(board@.board, file as int, color.opp(), rank as int),
            0 <= own <= rank,
            0 <= enemy <= rank,
        decreases 8 - rank,
    {
        if pawn_at(board, rank, file, color) {
            own = own + 1;
        }
        if pawn_at(board, rank, file, color.opposite()) {
            enemy = enemy + 1;
        }
        rank = rank + 1;
    }
    (own, enemy)
}

fn evaluate_rook(board: &Board, square: Square, color: Color) -> (r: i32)
    requires
        board.inv(),
        square < 64,
    ensures
        r == rook_bonus(board@.board, square as int, color),
        0 <= r <= 45,
{
    let file = (square % 8) as i32;
    let rank = (square / 8) as i32;
    let (own, enemy) = count_pawns_on_file(board, file, color);
    let mut bonus: i32 = 0;
    if own == 0 && enemy == 0 {
        bonus = bonus + ROOK_OPEN_FILE_BONUS;
    } else if own == 0 {
        bonus = bonus + ROOK_SEMI_OPEN_FILE_BONUS;
    }
    let seventh: i32 = if color.is_white() { 6 } else { 1 };
    if rank == seventh {
        bonus = bonus + ROOK_SEVENTH_RANK_BONUS;
    }
    bonus
}

fn is_protected_by_pawn(board: &Board, square: Square, color: Color) -> (r: bool)
    requires
        board.inv(),
        square < 64,
    ensures
        r == ({
            let behind = if color == Color::White { square / 8 - 1 } else { square / 8 + 1 };
            pawn_of(board@.board, behind, square % 8 - 1, color) || pawn_of(board@.board, behind, square % 8 + 1, color)
        }),
{
    let rank = (square / 8) as i32;
    let file = (square % 8) as i32;
    let behind = if color.is_white() { rank - 1 } else { rank + 1 };
    pawn_at(board, behind, file - 1, color) || pawn_at(board, behind, file + 1, color)
}

fn can_be_attacked_by_enemy_pawn(board: &Board, square: Square, color: Color) -> (r: bool)
    requires
        board.inv(),
        square < 64,
    ensures
        r == (enemy_side_pawns_ahead(board@.board, square as int / 8, square as int % 8, color, 8) != 0),
{
    let rank = (square / 8) as i32;
    let file = (square % 8) as i32;
    let opp = color.opposite();
    let mut n: i32 = 0;
    let mut k: i32 = 0;
    while k < 8
        invariant
            board.inv(),
            square < 64,
            rank == square / 8,
            file == square % 8,
            opp == color.opp(),
            0 <= k <= 8,
            n == enemy_side_pawns_ahead(board@.board, rank as int, file as int, color, k as int),
            0 <= n <= 2 * k,
        decreases 8 - k,
    {
        let ahead = if color.is_white() { k > rank } else { k < rank };
        if ahead {
            if pawn_at(board, k, file - 1, opp) {
                n = n + 1;
            }
            if pawn_at(board, k, file + 1, opp) {
                n = n + 1;
            }
        }
        k = k + 1;
    }
    n != 0
}

fn is_outpost_square(board: &Board, square: Square, color: Color) -> (r: bool)
    requires
        board.inv(),
        square < 64,
    ensures
        r == is_outpost(board@.board, square as int, color),
{
    is_protected_by_pawn(board, square, color) && !can_be_attacked_by_enemy_pawn(board, square, color)
}

fn evaluate_knight(board: &Board, square: Square, color: Color) -> (r: i32)
    requires
        board.inv(),
        square < 64,
    ensures
        r == if is_outpost(board@.board, square as int, color) { 20int } else { 0int },
{
    if is_outpost_square(board, square, color) {
        KNIGHT_OUTPOST_BONUS
    } else {
        0
    }
}

fn evaluate_color(board: &Board, color: Color) -> (r: i32)
    requires
        board.inv(),
    ensures
        r == positional_of(board@.board, color),
        0 <= r <= 30 + 45 * 64,
{
    let mut score: i32 = 0;
    let mut sq: usize = 0;
    while sq < 64
        invariant
            board.inv(),
            sq <= 64,
            score == pieces_positional(board@.board, color, sq as int),
            0 <= score <= 45 * sq,
        decreases 64 - sq,
    {
        match board.get_piece(sq) {
            Some(p) => {
                if p.color == color {
                    match p.piece_type {
                        PieceType::Rook => {
                            score = score + evaluate_rook(board, sq, color);
                        },
                        PieceType::Knight => {
                            score = score + evaluate_knight(board, sq, color);
                        },
                        _ => {},
                    }
                }
            },
            None => {},
        }
        sq = sq + 1;
    }
    if has_bishop_pair(board, color) {
        score = score + BISHOP_PAIR_BONUS;
    }
    score
}

/// Positional terms, White minus Black.
pub fn evaluate(board: &Board) -> (r: i32)
    requires
        board.inv(),
    ensures
        r == positional_of(board@.board, Color::White) - positional_of(board@.board, Color::Black),
        -(30 + 45 * 64) <= r <= 30 + 45 * 64,
{
    evaluate_color(board, Color::White) - evaluate_color(board, Color::Black)
}

} // verus!
