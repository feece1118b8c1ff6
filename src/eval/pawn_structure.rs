use vstd::prelude::*;

use crate::board::Board;
use crate::types::{Color, Piece, PieceType};

verus! {

pub const DOUBLED_PAWN_PENALTY: i32 = -20;

pub const ISOLATED_PAWN_PENALTY: i32 = -15;

pub const BACKWARD_PAWN_PENALTY: i32 = -10;

pub const CONNECTED_PAWN_BONUS: i32 = 5;

pub const PAWN_CHAIN_BONUS: i32 = 10;

/// Bonus of a passed pawn by its rank counted from its own side.
pub open spec fn passed_bonus(rank: int) -> int {
    if rank == 1 { 10 }
    else if rank == 2 { 20 }
    else if rank == 3 { 40 }
    else if rank == 4 { 60 }
    else if rank == 5 { 90 }
    else if rank == 6 { 120 }
    else { 0 }
}

pub open spec fn pawn_of(b: Seq<Option<Piece>>, r: int, f: int, c: Color) -> bool {
    0 <= r < 8 && 0 <= f < 8 && b[r * 8 + f] == Some(Piece { piece_type: PieceType::Pawn, color: c })
}

/// Pawns of `c` on file `f` at ranks below `n`.
pub open spec fn file_pawns(b: Seq<Option<Piece>>, f: int, c: Color, n: int) -> int
    decreases n,
{
    if n <= 0 {
        0
    } else {
        file_pawns(b, f, c, n - 1) + if pawn_of(b, n - 1, f, c) { 1int } else { 0int }
    }
}

/// Pawns of `c` on file `f` strictly ahead of rank `r` from `c`'s side, among ranks below `n`.
pub open spec fn pawns_ahead(b: Seq<Option<Piece>>, f: int, r: int, c: Color, n: int) -> int
    decreases n,
{
    if n <= 0 {
        0
    } else {
        let ahead = if c == Color::White { n - 1 > r } else { n - 1 < r };
        pawns_ahead(b, f, r, c, n - 1) + if ahead && pawn_of(b, n - 1, f, c) { 1int } else { 0int }
    }
}

pub open spec fn on_file(f: int) -> bool {
    0 <= f < 8
}

pub open spec fn adjacent_pawns(b: Seq<Option<Piece>>, f: int, c: Color) -> int {
    (if on_file(f - 1) { file_pawns(b, f - 1, c, 8) } else { 0 }) + (if on_file(f + 1) {
        file_pawns(b, f + 1, c, 8)
    } else {
        0
    })
}

/// No enemy pawn on the same or an adjacent file ahead of the pawn.
pub open spec fn is_passed(b: Seq<Option<Piece>>, r: int, f: int, c: Color) -> bool {
    &&& (!on_file(f - 1) || enemy_ahead(b, f - 1, r, c, 8) == 0)
    &&& enemy_ahead(b, f, r, c, 8) == 0
    &&& (!on_file(f + 1) || enemy_ahead(b, f + 1, r, c, 8) == 0)
}

/// Enemy pawns on file `f` ahead of rank `r` as seen by `c`, among ranks below `n`.
pub open spec fn enemy_ahead(b: Seq<Option<Piece>>, f: int, r: int, c: Color, n: int) -> int
    decreases n,
{
    if n <= 0 {
        0
    } else {
        let ahead = if c == Color::White { n - 1 > r } else { n - 1 < r };
        enemy_ahead(b, f, r, c, n - 1) + if ahead && pawn_of(b, n - 1, f, c.opp()) { 1int } else { 0int }
    }
}

/// Structure score of the pawn of `c` on `(r, f)`.
pub open spec fn pawn_score(b: Seq<Option<Piece>>, r: int, f: int, c: Color) -> int {
    let behind = if c == Color::White { r - 1 } else { r + 1 };
    let adj = adjacent_pawns(b, f, c);
    let adj_ahead = (if on_file(f - 1) { pawns_ahead(b, f - 1, r, c, 8) } else { 0 }) + (if on_file(f + 1) {
        pawns_ahead(b, f + 1, r, c, 8)
    } else {
        0
    });
    (if file_pawns(b, f, c, 8) > 1 { -20int } else { 0int })
    + (if adj == 0 { -15int } else { 0int })
    + (if is_passed(b, r, f, c) { passed_bonus(if c == Color::White { r } else { 7 - r }) } else { 0int })
    + (if pawn_of(b, r, f - 1, c) || pawn_of(b, r, f + 1, c) { 5int } else { 0int })
    + (if pawn_of(b, behind, f - 1, c) || pawn_of(b, behind, f + 1, c) { 10int } else { 0int })
    + (if adj > 0 && adj_ahead == adj { -10int } else { 0int })
}

/// Structure score of the pawns of `c` on squares below `n`.
pub open spec fn color_score(b: Seq<Option<Piece>>, c: Color, n: int) -> int
    decreases n,
{
    if n <= 0 {
        0
    } else {
        color_score(b, c, n - 1) + if b[n - 1] == Some(Piece { piece_type: PieceType::Pawn, color: c }) {
            pawn_score(b, (n - 1) / 8, (n - 1) % 8, c)
        } else {
            0
        }
    }
}

fn pawn_at(board: &Board, r: i32, f: i32, c: Color) -> (res: bool)
    requires
        board.inv(),
    ensures
        res == pawn_of(board@.board, r as int, f as int, c),
{
    if 0 <= r && r < 8 && 0 <= f && f < 8 {
        match board.get_piece((r * 8 + f) as usize) {
            Some(p) => p.piece_type == PieceType::Pawn && p.color == c,
            None => false,
        }
    } else {
        false
    }
}

fn count_file(board: &Board, f: i32, c: Color) -> (n: i32)
    requires
        board.inv(),
        0 <= f < 8,
    ensures
        n == file_pawns(board@.board, f as int, c, 8),
        0 <= n <= 8,
{
    let mut n: i32 = 0;
    let mut r: i32 = 0;
    while r < 8
        invariant
            board.inv(),
            0 <= f < 8,
            0 <= r <= 8,
            n == file_pawns(board@.board, f as int, c, r as int),
            0 <= n <= r,
        decreases 8 - r,
    {
        if pawn_at(board, r, f, c) {
            n = n + 1;
        }
        r = r + 1;
    }
    n
}

/// Pawns of `owner` on file `f` ahead of rank `rank` as seen by `c`.
fn count_ahead(board: &Board, f: i32, rank: i32, c: Color, owner: Color) -> (n: i32)
    requires
        board.inv(),
        0 <= f < 8,
    ensures
        owner == c ==> n == pawns_ahead(board@.board, f as int, rank as int, c, 8),
        owner == c.opp() ==> n == enemy_ahead(board@.board, f as int, rank as int, c, 8),
        0 <= n <= 8,
{
    let mut n: i32 = 0;
    let mut r: i32 = 0;
    while r < 8
        invariant
            board.inv(),
            0 <= f < 8,
            0 <= r <= 8,
            owner == c ==> n == pawns_ahead(board@.board, f as int, rank as int, c, r as int),
            owner == c.opp() ==> n == enemy_ahead(board@.board, f as int, rank as int, c, r as int),
            0 <= n <= r,
        decreases 8 - r,
    {
        let ahead = if c.is_white() { r > rank } else { r < rank };
        if ahead && pawn_at(board, r, f, owner) {
            n = n + 1;
        }
        r = r + 1;
    }
    n
}

fn side_count(board: &Board, f: i32, c: Color) -> (n: i32)
    requires
        board.inv(),
        0 <= f < 8,
    ensures
        n == adjacent_pawns(board@.board, f as int, c),
        0 <= n <= 16,
{
    let a = if f > 0 { count_file(board, f - 1, c) } else { 0 };
    let b = if f < 7 { count_file(board, f + 1, c) } else { 0 };
    a + b
}

fn is_passed_pawn(board: &Board, r: i32, f: i32, c: Color) -> (res: bool)
    requires
        board.inv(),
        0 <= f < 8,
    ensures
        res == is_passed(board@.board, r as int, f as int, c),
{
    let opp = c.opposite();
    let left = if f > 0 { count_ahead(board, f - 1, r, c, opp) == 0 } else { true };
    let mid = count_ahead(board, f, r, c, opp) == 0;
    let right = if f < 7 { count_ahead(board, f + 1, r, c, opp) == 0 } else { true };
    left && mid && right
}

fn passed_bonus_of(rank: i32) -> (r: i32)
    ensures
        r == passed_bonus(rank as int),
        0 <= r <= 120,
{
    if rank == 1 { 10 }
    else if rank == 2 { 20 }
    else if rank == 3 { 40 }
    else if rank == 4 { 60 }
    else if rank == 5 { 90 }
    else if rank == 6 { 120 }
    else { 0 }
}

fn score_pawn(board: &Board, r: i32, f: i32, c: Color) -> (s: i32)
    requires
        board.inv(),
        0 <= r < 8,
        0 <= f < 8,
    ensures
        s == pawn_score(board@.board, r as int, f as int, c),
        -45 <= s <= 135,
{
    let behind = if c.is_white() { r - 1 } else { r + 1 };
    let adj = side_count(board, f, c);
    let ahead_l = if f > 0 { count_ahead(board, f - 1, r, c, c) } else { 0 };
    let ahead_r = if f < 7 { count_ahead(board, f + 1, r, c, c) } else { 0 };
    let mut s: i32 = 0;
    if count_file(board, f, c) > 1 {
        s = s + DOUBLED_PAWN_PENALTY;
    }
    if adj == 0 {
        s = s + ISOLATED_PAWN_PENALTY;
    }
    if is_passed_pawn(board, r, f, c) {
        s = s + passed_bonus_of(if c.is_white() { r } else { 7 - r });
    }
    if pawn_at(board, r, f - 1, c) || pawn_at(board, r, f + 1, c) {
        s = s + CONNECTED_PAWN_BONUS;
    }
    if pawn_at(board, behind, f - 1, c) || pawn_at(board, behind, f + 1, c) {
        s = s + PAWN_CHAIN_BONUS;
    }
    if adj > 0 && ahead_l + ahead_r == adj {
        s = s + BACKWARD_PAWN_PENALTY;
    }
    s
}

/// Doubled, isolated, passed, connected, chained and backward pawns of one side.
fn evaluate_color(board: &Board, color: Color) -> (s: i32)
    requires
        board.inv(),
    ensures
        s == color_score(board@.board, color, 64),
        -45 * 64 <= s <= 135 * 64,
{
    let mut s: i32 = 0;
    let mut sq: usize = 0;
    while sq < 64
        invariant
            board.inv(),
            sq <= 64,
            s == color_score(board@.board, color, sq as int),
            -45 * sq <= s <= 135 * sq,
        decreases 64 - sq,
    {
        match board.get_piece(sq) {
            Some(p) => {
                if p.piece_type == PieceType::Pawn && p.color == color {
                    s = s + score_pawn(board, (sq / 8) as i32, (sq % 8) as i32, color);
                }
            },
            None => {},
        }
        sq = sq + 1;
    }
    s
}

/// Pawn structure, White minus Black.
pub fn evaluate(board: &Board) -> (r: i32)
    requires
        board.inv(),
    ensures
        r == color_score(board@.board, Color::White, 64) - color_score(board@.board, Color::Black, 64),
        -180 * 64 <= r <= 180 * 64,
{
    evaluate_color(board, Color::White) - evaluate_color(board, Color::Black)
}

} // verus!
