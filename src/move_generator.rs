use vstd::prelude::*;

use crate::board::Board;
use crate::geometry::{on_board, knight_dr, knight_df, dir_dr, dir_df, knight_offset, dir_offset, square_at};
use crate::types::{CastlingRights, Color, Move, Piece, PieceType, Square, quiet_move};
use crate::position::{Pos, fits, make_spec, wf_pos, lemma_make_undo_round_trip};

verus! {

pub open spec fn holds(b: Seq<Option<Piece>>, r: int, f: int, t: PieceType, c: Color) -> bool {
    on_board(r, f) && b[r * 8 + f] == Some(Piece { piece_type: t, color: c })
}

/// A pawn of `by` attacks `sq` diagonally.
pub open spec fn pawn_attack(b: Seq<Option<Piece>>, sq: int, by: Color) -> bool {
    let pr = sq / 8 + if by == Color::White { -1int } else { 1int };
    holds(b, pr, sq % 8 - 1, PieceType::Pawn, by) || holds(b, pr, sq % 8 + 1, PieceType::Pawn, by)
}

pub open spec fn knight_attack(b: Seq<Option<Piece>>, sq: int, by: Color) -> bool {
    exists|k: int|
        0 <= k < 8 && #[trigger] holds(
            b,
            sq / 8 + knight_dr(k),
            sq % 8 + knight_df(k),
            PieceType::Knight,
            by,
        )
}

pub open spec fn king_attack(b: Seq<Option<Piece>>, sq: int, by: Color) -> bool {
    exists|d: int|
        0 <= d < 8 && #[trigger] holds(b, sq / 8 + dir_dr(d), sq % 8 + dir_df(d), PieceType::King, by)
}

/// The first piece met walking from `(r, f)` in steps `(dr, df)` is a slider of
/// `by` that moves along that line.
pub open spec fn ray_hit(
    b: Seq<Option<Piece>>,
    r: int,
    f: int,
    dr: int,
    df: int,
    by: Color,
    orth: bool,
    fuel: nat,
) -> bool
    decreases fuel,
{
    if fuel == 0 || !on_board(r, f) {
        false
    } else {
        match b[r * 8 + f] {
            Some(p) => p.color == by && (p.piece_type == PieceType::Queen || (orth && p.piece_type
                == PieceType::Rook) || (!orth && p.piece_type == PieceType::Bishop)),
            None => ray_hit(b, r + dr, f + df, dr, df, by, orth, (fuel - 1) as nat),
        }
    }
}

/// Directions 0-3 run along ranks and files.
pub open spec fn is_orth(d: int) -> bool {
    d < 4
}

pub open spec fn slide_attack(b: Seq<Option<Piece>>, sq: int, by: Color) -> bool {
    exists|d: int|
        0 <= d < 8 && #[trigger] ray_hit(
            b,
            sq / 8 + dir_dr(d),
            sq % 8 + dir_df(d),
            dir_dr(d),
            dir_df(d),
            by,
            is_orth(d),
            8,
        )
}

/// Square `sq` is attacked by color `by`.
pub open spec fn attacked(b: Seq<Option<Piece>>, sq: int, by: Color) -> bool {
    pawn_attack(b, sq, by) || knight_attack(b, sq, by) || slide_attack(b, sq, by) || king_attack(
        b,
        sq,
        by,
    )
}

/// The first square at or after `i` that holds the king of `c`.
pub open spec fn king_from(b: Seq<Option<Piece>>, c: Color, i: int) -> Option<int>
    decreases 64 - i,
{
    if i >= 64 || i < 0 {
        None
    } else if b[i] == Some(Piece { piece_type: PieceType::King, color: c }) {
        Some(i)
    } else {
        king_from(b, c, i + 1)
    }
}

/// The king of `c` (the first one found from a1) is attacked by the other color.
pub open spec fn in_check(b: Seq<Option<Piece>>, c: Color) -> bool {
    match king_from(b, c, 0) {
        Some(k) => attacked(b, k, c.opp()),
        None => false,
    }
}

/// Every move of the sequence fits the board for side `c`.
pub open spec fn all_fit(b: Seq<Option<Piece>>, c: Color, s: Seq<Move>) -> bool {
    forall|i: int| 0 <= i < s.len() ==> #[trigger] fits(b, c, s[i])
}

proof fn lemma_all_fit_concat(b: Seq<Option<Piece>>, c: Color, s: Seq<Move>, t: Seq<Move>)
    requires
        all_fit(b, c, s),
        all_fit(b, c, t),
    ensures
        all_fit(b, c, s + t),
{
    assert forall|i: int| 0 <= i < (s + t).len() implies #[trigger] fits(b, c, (s + t)[i]) by {
        if i < s.len() {
            assert((s + t)[i] == s[i]);
        } else {
            assert((s + t)[i] == t[i - s.len()]);
        }
    }
}

pub open spec fn capture_move(from: int, to: int, kind: PieceType, t: PieceType) -> Move {
    Move { captured: Some(t), ..quiet_move(from as usize, to as usize, kind) }
}

/// A move of a `kind` piece of `c` onto square `t`: quiet onto an empty square,
/// a capture onto an enemy piece, none onto an own piece.
pub open spec fn target_moves(b: Seq<Option<Piece>>, from: int, t: int, c: Color, kind: PieceType) -> Seq<Move> {
    match b[t] {
        None => seq![quiet_move(from as usize, t as usize, kind)],
        Some(p) => if p.color != c {
            seq![capture_move(from, t, kind, p.piece_type)]
        } else {
            Seq::empty()
        },
    }
}

pub open spec fn leap_dr(knight: bool, k: int) -> int {
    if knight { knight_dr(k) } else { dir_dr(k) }
}

pub open spec fn leap_df(knight: bool, k: int) -> int {
    if knight { knight_df(k) } else { dir_df(k) }
}

pub open spec fn leap_step(b: Seq<Option<Piece>>, from: int, c: Color, kind: PieceType, knight: bool, k: int) -> Seq<Move> {
    let r = from / 8 + leap_dr(knight, k);
    let f = from % 8 + leap_df(knight, k);
    if on_board(r, f) {
        target_moves(b, from, r * 8 + f, c, kind)
    } else {
        Seq::empty()
    }
}

/// Moves of a knight (or, with `knight` false, a king's single steps) over the first `k` offsets.
pub open spec fn leap_moves(b: Seq<Option<Piece>>, from: int, c: Color, kind: PieceType, knight: bool, k: int) -> Seq<Move>
    decreases k,
{
    if k <= 0 {
        Seq::empty()
    } else {
        leap_moves(b, from, c, kind, knight, k - 1) + leap_step(b, from, c, kind, knight, k - 1)
    }
}

/// Moves of a slider from `from` along one line, starting at `(r, f)`.
pub open spec fn ray_moves(
    b: Seq<Option<Piece>>,
    from: int,
    c: Color,
    kind: PieceType,
    r: int,
    f: int,
    dr: int,
    df: int,
    fuel: nat,
) -> Seq<Move>
    decreases fuel,
{
    if fuel == 0 || !on_board(r, f) {
        Seq::empty()
    } else {
        match b[r * 8 + f] {
            None => seq![quiet_move(from as usize, (r * 8 + f) as usize, kind)] + ray_moves(
                b,
                from,
                c,
                kind,
                r + dr,
                f + df,
                dr,
                df,
                (fuel - 1) as nat,
            ),
            Some(p) => if p.color != c {
                seq![capture_move(from, r * 8 + f, kind, p.piece_type)]
            } else {
                Seq::empty()
            },
        }
    }
}

/// Moves of a slider over directions `d0` up to (not including) `d`.
pub open spec fn slide_moves(b: Seq<Option<Piece>>, from: int, c: Color, kind: PieceType, d0: int, d: int) -> Seq<Move>
    decreases d - d0,
{
    if d <= d0 {
        Seq::empty()
    } else {
        slide_moves(b, from, c, kind, d0, d - 1) + ray_moves(
            b,
            from,
            c,
            kind,
            from / 8 + dir_dr(d - 1),
            from % 8 + dir_df(d - 1),
            dir_dr(d - 1),
            dir_df(d - 1),
            8,
        )
    }
}

pub open spec fn pawn_dir(c: Color) -> int {
    if c == Color::White { 1 } else { -1 }
}

pub open spec fn promotion_rank(c: Color) -> int {
    if c == Color::White { 7 } else { 0 }
}

pub open spec fn start_rank(c: Color) -> int {
    if c == Color::White { 1 } else { 6 }
}

pub open spec fn ep_rank(c: Color) -> int {
    if c == Color::White { 4 } else { 3 }
}

pub open spec fn pawn_move(from: int, to: int, cap: Option<PieceType>, promo: Option<PieceType>) -> Move {
    Move {
        from: from as usize,
        to: to as usize,
        piece: PieceType::Pawn,
        captured: cap,
        promotion: promo,
        is_castling: false,
        is_en_passant: false,
    }
}

/// A pawn move onto `to`, expanded into the four promotions on the last rank.
pub open spec fn pawn_advance(from: int, to: int, c: Color, cap: Option<PieceType>) -> Seq<Move> {
    if to / 8 == promotion_rank(c) {
        seq![
            pawn_move(from, to, cap, Some(PieceType::Queen)),
            pawn_move(from, to, cap, Some(PieceType::Rook)),
            pawn_move(from, to, cap, Some(PieceType::Bishop)),
            pawn_move(from, to, cap, Some(PieceType::Knight)),
        ]
    } else {
        seq![pawn_move(from, to, cap, None)]
    }
}

pub open spec fn pawn_push(b: Seq<Option<Piece>>, from: int, c: Color) -> Seq<Move> {
    let r1 = from / 8 + pawn_dir(c);
    let f = from % 8;
    if on_board(r1, f) && b[r1 * 8 + f] is None {
        let r2 = r1 + pawn_dir(c);
        pawn_advance(from, r1 * 8 + f, c, None) + if from / 8 == start_rank(c) && b[r2 * 8 + f] is None {
            seq![pawn_move(from, r2 * 8 + f, None, None)]
        } else {
            Seq::empty()
        }
    } else {
        Seq::empty()
    }
}

pub open spec fn pawn_capture(b: Seq<Option<Piece>>, from: int, c: Color, df: int) -> Seq<Move> {
    let r1 = from / 8 + pawn_dir(c);
    let f1 = from % 8 + df;
    if on_board(r1, f1) {
        match b[r1 * 8 + f1] {
            Some(p) => if p.color != c {
                pawn_advance(from, r1 * 8 + f1, c, Some(p.piece_type))
            } else {
                Seq::empty()
            },
            None => Seq::empty(),
        }
    } else {
        Seq::empty()
    }
}

pub open spec fn ep_move(from: int, to: int) -> Move {
    Move { is_en_passant: true, ..pawn_move(from, to, Some(PieceType::Pawn), None) }
}

/// The en-passant capture towards file offset `df`, when the target square is
/// there, empty, and the enemy pawn stands beside.
pub open spec fn pawn_ep(b: Seq<Option<Piece>>, from: int, c: Color, ep: Option<Square>, df: int) -> Seq<Move> {
    let r1 = from / 8 + pawn_dir(c);
    let f1 = from % 8 + df;
    if from / 8 == ep_rank(c) && on_board(r1, f1) && ep == Some((r1 * 8 + f1) as Square)
        && b[r1 * 8 + f1] is None && b[(from / 8) * 8 + f1] == Some(
        Piece { piece_type: PieceType::Pawn, color: c.opp() },
    ) {
        seq![ep_move(from, r1 * 8 + f1)]
    } else {
        Seq::empty()
    }
}

pub open spec fn pawn_moves(b: Seq<Option<Piece>>, from: int, c: Color, ep: Option<Square>) -> Seq<Move> {
    pawn_push(b, from, c) + pawn_capture(b, from, c, -1) + pawn_capture(b, from, c, 1) + pawn_ep(
        b,
        from,
        c,
        ep,
        -1,
    ) + pawn_ep(b, from, c, ep, 1)
}

pub open spec fn castle_move(from: int, to: int) -> Move {
    Move { is_castling: true, ..quiet_move(from as usize, to as usize, PieceType::King) }
}

pub open spec fn empty_at(b: Seq<Option<Piece>>, s: int) -> bool {
    b[s] is None
}

/// Castling towards the king side from home square `k` (4 or 60).
pub open spec fn castle_kingside(b: Seq<Option<Piece>>, c: Color, k: int, right: bool) -> Seq<Move> {
    if right && empty_at(b, k + 1) && empty_at(b, k + 2) && b[k + 3] == Some(
        Piece { piece_type: PieceType::Rook, color: c },
    ) && !attacked(b, k, c.opp()) && !attacked(b, k + 1, c.opp()) && !attacked(b, k + 2, c.opp()) {
        seq![castle_move(k, k + 2)]
    } else {
        Seq::empty()
    }
}

/// Castling towards the queen side from home square `k` (4 or 60).
pub open spec fn castle_queenside(b: Seq<Option<Piece>>, c: Color, k: int, right: bool) -> Seq<Move> {
    if right && empty_at(b, k - 1) && empty_at(b, k - 2) && empty_at(b, k - 3) && b[k - 4] == Some(
        Piece { piece_type: PieceType::Rook, color: c },
    ) && !attacked(b, k, c.opp()) && !attacked(b, k - 1, c.opp()) && !attacked(b, k - 2, c.opp()) {
        seq![castle_move(k, k - 2)]
    } else {
        Seq::empty()
    }
}

pub open spec fn castle_moves(b: Seq<Option<Piece>>, from: int, c: Color, cr: CastlingRights) -> Seq<Move> {
    if c == Color::White && from == 4 {
        castle_kingside(b, c, 4, cr.white_kingside) + castle_queenside(b, c, 4, cr.white_queenside)
    } else if c == Color::Black && from == 60 {
        castle_kingside(b, c, 60, cr.black_kingside) + castle_queenside(b, c, 60, cr.black_queenside)
    } else {
        Seq::empty()
    }
}

/// Pseudo-legal moves of the piece `p` standing on `from`.
pub open spec fn piece_moves(b: Seq<Option<Piece>>, from: int, p: Piece, cr: CastlingRights, ep: Option<Square>) -> Seq<Move> {
    match p.piece_type {
        PieceType::Pawn => pawn_moves(b, from, p.color, ep),
        PieceType::Knight => leap_moves(b, from, p.color, PieceType::Knight, true, 8),
        PieceType::Bishop => slide_moves(b, from, p.color, PieceType::Bishop, 4, 8),
        PieceType::Rook => slide_moves(b, from, p.color, PieceType::Rook, 0, 4),
        PieceType::Queen => slide_moves(b, from, p.color, PieceType::Queen, 0, 8),
        PieceType::King => leap_moves(b, from, p.color, PieceType::King, false, 8) + castle_moves(b, from, p.color, cr),
    }
}

/// Pseudo-legal moves of side `c` from the pieces on squares below `n`.
pub open spec fn pseudo_upto(b: Seq<Option<Piece>>, c: Color, cr: CastlingRights, ep: Option<Square>, n: int) -> Seq<Move>
    decreases n,
{
    if n <= 0 {
        Seq::empty()
    } else {
        pseudo_upto(b, c, cr, ep, n - 1) + match b[n - 1] {
            Some(p) => if p.color == c {
                piece_moves(b, n - 1, p, cr, ep)
            } else {
                Seq::empty()
            },
            None => Seq::empty(),
        }
    }
}

/// All pseudo-legal moves of side `c`, square by square from a1.
pub open spec fn pseudo_moves(b: Seq<Option<Piece>>, c: Color, cr: CastlingRights, ep: Option<Square>) -> Seq<Move> {
    pseudo_upto(b, c, cr, ep, 64)
}

/// The moves of `ms`, in order, after which the side to move of `p` is not in check.
pub open spec fn keep_legal(p: Pos, ms: Seq<Move>) -> Seq<Move>
    decreases ms.len(),
{
    if ms.len() == 0 {
        Seq::empty()
    } else {
        keep_legal(p, ms.drop_last()) + if !in_check(make_spec(p, ms.last()).board, p.turn) {
            seq![ms.last()]
        } else {
            Seq::empty()
        }
    }
}

/// The legal moves of the side to move.
pub open spec fn legal_moves(p: Pos) -> Seq<Move> {
    keep_legal(p, pseudo_moves(p.board, p.turn, p.castling, p.ep))
}

pub struct MoveGenerator;

impl MoveGenerator {
    pub fn new() -> (r: MoveGenerator) {
        MoveGenerator
    }


    /// Appends the move of a `kind` piece onto `t`; reports whether `t` was occupied.
    fn push_target(&self, board: &Board, moves: &mut Vec<Move>, from: usize, t: usize, c: Color, kind: PieceType) -> (occupied: bool)
        requires
            board.inv(),
            from < 64,
            t < 64,
            from != t,
            board@.board[from as int] == Some(Piece { piece_type: kind, color: c }),
            all_fit(board@.board, c, old(moves)@),
        ensures
            final(moves)@ == old(moves)@ + target_moves(board@.board, from as int, t as int, c, kind),
            all_fit(board@.board, c, final(moves)@),
            occupied == board@.board[t as int] is Some,
    {
        let ghost b = board@.board;
        match board.get_piece(t) {
            None => {
                moves.push(Move::new(from, t, kind));
                proof {
                    assert(final(moves)@ =~= old(moves)@ + target_moves(b, from as int, t as int, c, kind));
                    lemma_all_fit_concat(b, c, old(moves)@, target_moves(b, from as int, t as int, c, kind));
                }
                false
            },
            Some(p) => {
                if p.color != c {
                    moves.push(Move::new(from, t, kind).with_capture(p.piece_type));
                }
                proof {
                    assert(final(moves)@ =~= old(moves)@ + target_moves(b, from as int, t as int, c, kind));
                    lemma_all_fit_concat(b, c, old(moves)@, target_moves(b, from as int, t as int, c, kind));
                }
                true
            },
        }
    }

    /// Knight moves, or with `knight` false a king's single steps.
    fn generate_leaper_moves(&self, board: &Board, from: Square, color: Color, kind: PieceType, knight: bool) -> (r: Vec<Move>)
        requires
            board.inv(),
            from < 64,
            board@.board[from as int] == Some(Piece { piece_type: kind, color }),
        ensures
            r@ == leap_moves(board@.board, from as int, color, kind, knight, 8),
            all_fit(board@.board, color, r@),
    {
        let mut moves: Vec<Move> = Vec::new();
        let row = (from / 8) as i32;
        let file = (from % 8) as i32;
        let mut k: usize = 0;
        while k < 8
            invariant
                board.inv(),
                from < 64,
                row == from / 8,
                file == from % 8,
                board@.board[from as int] == Some(Piece { piece_type: kind, color }),
                k <= 8,
                moves@ == leap_moves(board@.board, from as int, color, kind, knight, k as int),
                all_fit(board@.board, color, moves@),
            decreases 8 - k,
        {
            let (dr, df) = if knight { knight_offset(k) } else { dir_offset(k) };
            match square_at(row + dr, file + df) {
                Some(t) => {
                    self.push_target(board, &mut moves, from, t, color, kind);
                },
                None => {
                    assert(leap_step(board@.board, from as int, color, kind, knight, k as int) =~= Seq::<Move>::empty());
                },
            }
            assert(moves@ =~= leap_moves(board@.board, from as int, color, kind, knight, k as int + 1));
            k = k + 1;
        }
        moves
    }

    fn generate_knight_moves(&self, board: &Board, from: Square, color: Color) -> (r: Vec<Move>)
        requires
            board.inv(),
            from < 64,
            board@.board[from as int] == Some(Piece { piece_type: PieceType::Knight, color }),
        ensures
            r@ == leap_moves(board@.board, from as int, color, PieceType::Knight, true, 8),
            all_fit(board@.board, color, r@),
    {
        self.generate_leaper_moves(board, from, color, PieceType::Knight, true)
    }

    /// Moves of a slider along one line.
    #[verifier::rlimit(50)]
    fn generate_ray_moves(&self, board: &Board, moves: &mut Vec<Move>, from: Square, color: Color, kind: PieceType, dr: i32, df: i32)
        requires
            board.inv(),
            from < 64,
            board@.board[from as int] == Some(Piece { piece_type: kind, color }),
            -1 <= dr <= 1,
            -1 <= df <= 1,
            dr != 0 || df != 0,
            all_fit(board@.board, color, old(moves)@),
        ensures
            final(moves)@ == old(moves)@ + ray_moves(board@.board, from as int, color, kind, (from / 8) as int + dr as int, (from % 8) as int + df as int, dr as int, df as int, 8),
            all_fit(board@.board, color, final(moves)@),
    {
        let ghost b = board@.board;
        let ghost target = moves@ + ray_moves(b, from as int, color, kind, (from / 8) as int + dr as int, (from % 8) as int + df as int, dr as int, df as int, 8);
        let fr = (from / 8) as i32;
        let ff = (from % 8) as i32;
        let mut r = fr + dr;
        let mut f = ff + df;
        let mut fuel: u32 = 8;
        let mut stop = false;
        while fuel > 0 && !stop
            invariant
                board.inv(),
                b == board@.board,
                from < 64,
                fr == from / 8,
                ff == from % 8,
                b[from as int] == Some(Piece { piece_type: kind, color }),
                -1 <= dr <= 1,
                -1 <= df <= 1,
                dr != 0 || df != 0,
                dr == 1 ==> r > fr,
                dr == -1 ==> r < fr,
                dr == 0 ==> r == fr,
                df == 1 ==> f > ff,
                df == -1 ==> f < ff,
                df == 0 ==> f == ff,
                -9 <= r <= 17,
                -9 <= f <= 17,
                fuel <= 8,
                fuel < 8 ==> on_board(r - dr, f - df),
                stop ==> moves@ == target,
                !stop ==> moves@ + ray_moves(b, from as int, color, kind, r as int, f as int, dr as int, df as int, fuel as nat) == target,
                all_fit(b, color, moves@),
            decreases fuel + if stop { 0int } else { 1int },
        {
            match square_at(r, f) {
                None => {
                    assert(ray_moves(b, from as int, color, kind, r as int, f as int, dr as int, df as int, fuel as nat) =~= Seq::<Move>::empty());
                    assert(moves@ =~= target);
                    stop = true;
                },
                Some(t) => {
                    let ghost before = moves@;
                    assert(t == r * 8 + f);
                    let occupied = self.push_target(board, moves, from, t, color, kind);
                    if occupied {
                        assert(ray_moves(b, from as int, color, kind, r as int, f as int, dr as int, df as int, fuel as nat) =~= target_moves(b, from as int, t as int, color, kind));
                        assert(moves@ =~= target);
                        stop = true;
                    } else {
                        assert(before + ray_moves(b, from as int, color, kind, r as int, f as int, dr as int, df as int, fuel as nat)
                            =~= moves@ + ray_moves(b, from as int, color, kind, r + dr, f + df, dr as int, df as int, (fuel - 1) as nat));
                        r = r + dr;
                        f = f + df;
                        fuel = fuel - 1;
                    }
                },
            }
        }
        if !stop {
            assert(moves@ =~= target);
        }
    }

    /// Moves of a slider over directions `d0` up to (not including) `d1`.
    fn generate_sliding_moves(&self, board: &Board, from: Square, color: Color, d0: usize, d1: usize, piece_type: PieceType) -> (r: Vec<Move>)
        requires
            board.inv(),
            from < 64,
            d0 <= d1 <= 8,
            board@.board[from as int] == Some(Piece { piece_type, color }),
        ensures
            r@ == slide_moves(board@.board, from as int, color, piece_type, d0 as int, d1 as int),
            all_fit(board@.board, color, r@),
    {
        let mut moves: Vec<Move> = Vec::new();
        let mut d = d0;
        assert(moves@ =~= slide_moves(board@.board, from as int, color, piece_type, d0 as int, d0 as int));
        while d < d1
            invariant
                board.inv(),
                from < 64,
                d0 <= d <= d1,
                d1 <= 8,
                board@.board[from as int] == Some(Piece { piece_type, color }),
                moves@ == slide_moves(board@.board, from as int, color, piece_type, d0 as int, d as int),
                all_fit(board@.board, color, moves@),
            decreases d1 - d,
        {
            let (dr, df) = dir_offset(d);
            self.generate_ray_moves(board, &mut moves, from, color, piece_type, dr, df);
            d = d + 1;
        }
        moves
    }

    fn generate_bishop_moves(&self, board: &Board, from: Square, color: Color) -> (r: Vec<Move>)
        requires
            board.inv(),
            from < 64,
            board@.board[from as int] == Some(Piece { piece_type: PieceType::Bishop, color }),
        ensures
            r@ == slide_moves(board@.board, from as int, color, PieceType::Bishop, 4, 8),
            all_fit(board@.board, color, r@),
    {
        self.generate_sliding_moves(board, from, color, 4, 8, PieceType::Bishop)
    }

    fn generate_rook_moves(&self, board: &Board, from: Square, color: Color) -> (r: Vec<Move>)
        requires
            board.inv(),
            from < 64,
            board@.board[from as int] == Some(Piece { piece_type: PieceType::Rook, color }),
        ensures
            r@ == slide_moves(board@.board, from as int, color, PieceType::Rook, 0, 4),
            all_fit(board@.board, color, r@),
    {
        self.generate_sliding_moves(board, from, color, 0, 4, PieceType::Rook)
    }

    fn generate_queen_moves(&self, board: &Board, from: Square, color: Color) -> (r: Vec<Move>)
        requires
            board.inv(),
            from < 64,
            board@.board[from as int] == Some(Piece { piece_type: PieceType::Queen, color }),
        ensures
            r@ == slide_moves(board@.board, from as int, color, PieceType::Queen, 0, 8),
            all_fit(board@.board, color, r@),
    {
        self.generate_sliding_moves(board, from, color, 0, 8, PieceType::Queen)
    }


    /// Appends a pawn move onto `to`, as four promotions on the last rank.
    fn push_pawn_advance(&self, board: &Board, moves: &mut Vec<Move>, from: Square, to: Square, color: Color, cap: Option<PieceType>)
        requires
            board.inv(),
            from < 64,
            to < 64,
            from != to,
            board@.board[from as int] == Some(Piece { piece_type: PieceType::Pawn, color }),
            board@.board[to as int] == match cap {
                Some(t) => Some(Piece { piece_type: t, color: color.opp() }),
                None => None,
            },
            all_fit(board@.board, color, old(moves)@),
        ensures
            final(moves)@ == old(moves)@ + pawn_advance(from as int, to as int, color, cap),
            all_fit(board@.board, color, final(moves)@),
    {
        let last = if color.is_white() { 7 } else { 0 };
        let base = Move {
            from,
            to,
            piece: PieceType::Pawn,
            captured: cap,
            promotion: None,
            is_castling: false,
            is_en_passant: false,
        };
        if to / 8 == last {
            moves.push(base.with_promotion(PieceType::Queen));
            moves.push(base.with_promotion(PieceType::Rook));
            moves.push(base.with_promotion(PieceType::Bishop));
            moves.push(base.with_promotion(PieceType::Knight));
        } else {
            moves.push(base);
        }
        proof {
            let added = pawn_advance(from as int, to as int, color, cap);
            assert(final(moves)@ =~= old(moves)@ + added);
            assert(all_fit(board@.board, color, added));
            lemma_all_fit_concat(board@.board, color, old(moves)@, added);
        }
    }

    fn pawn_push_moves(&self, board: &Board, moves: &mut Vec<Move>, from: Square, color: Color)
        requires
            board.inv(),
            from < 64,
            board@.board[from as int] == Some(Piece { piece_type: PieceType::Pawn, color }),
            all_fit(board@.board, color, old(moves)@),
        ensures
            final(moves)@ == old(moves)@ + pawn_push(board@.board, from as int, color),
            all_fit(board@.board, color, final(moves)@),
    {
        let ghost b = board@.board;
        let dir: i32 = if color.is_white() { 1 } else { -1 };
        let row = (from / 8) as i32;
        let file = (from % 8) as i32;
        let start: i32 = if color.is_white() { 1 } else { 6 };
        match square_at(row + dir, file) {
            None => {
                assert(old(moves)@ + pawn_push(b, from as int, color) =~= old(moves)@);
            },
            Some(t1) => {
                if board.get_piece(t1).is_none() {
                    self.push_pawn_advance(board, moves, from, t1, color, None);
                    let ghost mid = moves@;
                    if row == start {
                        match square_at(row + 2 * dir, file) {
                            Some(t2) => {
                                if board.get_piece(t2).is_none() {
                                    moves.push(Move::new(from, t2, PieceType::Pawn));
                                    proof {
                                        let added = seq![pawn_move(from as int, t2 as int, None, None)];
                                        assert(moves@ =~= mid + added);
                                        assert(all_fit(b, color, added));
                                        lemma_all_fit_concat(b, color, mid, added);
                                    }
                                }
                            },
                            None => {},
                        }
                    }
                    assert(moves@ =~= old(moves)@ + pawn_push(b, from as int, color));
                } else {
                    assert(old(moves)@ + pawn_push(b, from as int, color) =~= old(moves)@);
                }
            },
        }
    }

    fn pawn_capture_moves(&self, board: &Board, moves: &mut Vec<Move>, from: Square, color: Color, df: i32)
        requires
            board.inv(),
            from < 64,
            df == -1 || df == 1,
            board@.board[from as int] == Some(Piece { piece_type: PieceType::Pawn, color }),
            all_fit(board@.board, color, old(moves)@),
        ensures
            final(moves)@ == old(moves)@ + pawn_capture(board@.board, from as int, color, df as int),
            all_fit(board@.board, color, final(moves)@),
    {
        let ghost b = board@.board;
        let dir: i32 = if color.is_white() { 1 } else { -1 };
        let row = (from / 8) as i32;
        let file = (from % 8) as i32;
        match square_at(row + dir, file + df) {
            None => {
                assert(old(moves)@ + pawn_capture(b, from as int, color, df as int) =~= old(moves)@);
            },
            Some(t) => {
                match board.get_piece(t) {
                    Some(p) => {
                        if p.color != color {
                            self.push_pawn_advance(board, moves, from, t, color, Some(p.piece_type));
                        } else {
                            assert(old(moves)@ + pawn_capture(b, from as int, color, df as int) =~= old(moves)@);
                        }
                    },
                    None => {
                        assert(old(moves)@ + pawn_capture(b, from as int, color, df as int) =~= old(moves)@);
                    },
                }
            },
        }
    }

    fn pawn_ep_moves(&self, board: &Board, moves: &mut Vec<Move>, from: Square, color: Color, df: i32)
        requires
            board.inv(),
            from < 64,
            df == -1 || df == 1,
            board@.board[from as int] == Some(Piece { piece_type: PieceType::Pawn, color }),
            all_fit(board@.board, color, old(moves)@),
        ensures
            final(moves)@ == old(moves)@ + pawn_ep(board@.board, from as int, color, board@.ep, df as int),
            all_fit(board@.board, color, final(moves)@),
    {
        let ghost b = board@.board;
        let dir: i32 = if color.is_white() { 1 } else { -1 };
        let row = (from / 8) as i32;
        let file = (from % 8) as i32;
        let ep_row: i32 = if color.is_white() { 4 } else { 3 };
        let mut pushed = false;
        if row == ep_row {
            match (square_at(row + dir, file + df), square_at(row, file + df)) {
                (Some(t), Some(v)) => {
                    let matches_ep = match board.get_en_passant_target() {
                        Some(e) => e == t,
                        None => false,
                    };
                    let victim_ok = match board.get_piece(v) {
                        Some(p) => p.piece_type == PieceType::Pawn && p.color != color,
                        None => false,
                    };
                    if matches_ep && board.get_piece(t).is_none() && victim_ok {
                        let m = Move::new(from, t, PieceType::Pawn).with_capture(PieceType::Pawn).with_en_passant();
                        moves.push(m);
                        pushed = true;
                        proof {
                            let added = seq![ep_move(from as int, t as int)];
                            assert(added[0] == m);
                            assert(fits(b, color, m));
                            assert(all_fit(b, color, added));
                            assert(moves@ =~= old(moves)@ + added);
                            lemma_all_fit_concat(b, color, old(moves)@, added);
                        }
                    }
                },
                _ => {},
            }
        }
        if !pushed {
            assert(old(moves)@ + pawn_ep(b, from as int, color, board@.ep, df as int) =~= old(moves)@);
        }
    }

    fn generate_pawn_moves(&self, board: &Board, from: Square, color: Color) -> (r: Vec<Move>)
        requires
            board.inv(),
            from < 64,
            board@.board[from as int] == Some(Piece { piece_type: PieceType::Pawn, color }),
        ensures
            r@ == pawn_moves(board@.board, from as int, color, board@.ep),
            all_fit(board@.board, color, r@),
    {
        let mut moves: Vec<Move> = Vec::new();
        self.pawn_push_moves(board, &mut moves, from, color);
        self.pawn_capture_moves(board, &mut moves, from, color, -1);
        self.pawn_capture_moves(board, &mut moves, from, color, 1);
        self.pawn_ep_moves(board, &mut moves, from, color, -1);
        self.pawn_ep_moves(board, &mut moves, from, color, 1);
        assert(moves@ =~= pawn_moves(board@.board, from as int, color, board@.ep));
        moves
    }

    fn is_empty_square(&self, board: &Board, s: Square) -> (r: bool)
        requires
            board.inv(),
            s < 64,
        ensures
            r == empty_at(board@.board, s as int),
    {
        board.get_piece(s).is_none()
    }

    fn holds_rook(&self, board: &Board, s: Square, c: Color) -> (r: bool)
        requires
            board.inv(),
            s < 64,
        ensures
            r == (board@.board[s as int] == Some(Piece { piece_type: PieceType::Rook, color: c })),
    {
        match board.get_piece(s) {
            Some(p) => p.piece_type == PieceType::Rook && p.color == c,
            None => false,
        }
    }

    fn castle_kingside_moves(&self, board: &Board, moves: &mut Vec<Move>, color: Color, k: Square, right: bool)
        requires
            board.inv(),
            k == 4 || k == 60,
            board@.board[k as int] == Some(Piece { piece_type: PieceType::King, color }),
            all_fit(board@.board, color, old(moves)@),
        ensures
            final(moves)@ == old(moves)@ + castle_kingside(board@.board, color, k as int, right),
            all_fit(board@.board, color, final(moves)@),
    {
        let ghost b = board@.board;
        let opp = color.opposite();
        if right && self.is_empty_square(board, k + 1) && self.is_empty_square(board, k + 2)
            && self.holds_rook(board, k + 3, color) && !self.is_square_attacked(board, k, opp)
            && !self.is_square_attacked(board, k + 1, opp) && !self.is_square_attacked(board, k + 2, opp) {
            let m = Move::new(k, k + 2, PieceType::King).with_castling();
            moves.push(m);
            proof {
                let added = seq![castle_move(k as int, k as int + 2)];
                assert(added[0] == m);
                assert(fits(b, color, m));
                assert(all_fit(b, color, added));
                assert(moves@ =~= old(moves)@ + added);
                lemma_all_fit_concat(b, color, old(moves)@, added);
            }
        } else {
            assert(old(moves)@ + castle_kingside(b, color, k as int, right) =~= old(moves)@);
        }
    }

    fn castle_queenside_moves(&self, board: &Board, moves: &mut Vec<Move>, color: Color, k: Square, right: bool)
        requires
            board.inv(),
            k == 4 || k == 60,
            board@.board[k as int] == Some(Piece { piece_type: PieceType::King, color }),
            all_fit(board@.board, color, old(moves)@),
        ensures
            final(moves)@ == old(moves)@ + castle_queenside(board@.board, color, k as int, right),
            all_fit(board@.board, color, final(moves)@),
    {
        let ghost b = board@.board;
        let opp = color.opposite();
        if right && self.is_empty_square(board, k - 1) && self.is_empty_square(board, k - 2)
            && self.is_empty_square(board, k - 3) && self.holds_rook(board, k - 4, color)
            && !self.is_square_attacked(board, k, opp) && !self.is_square_attacked(board, k - 1, opp)
            && !self.is_square_attacked(board, k - 2, opp) {
            let m = Move::new(k, k - 2, PieceType::King).with_castling();
            moves.push(m);
            proof {
                let added = seq![castle_move(k as int, k as int - 2)];
                assert(added[0] == m);
                assert(fits(b, color, m));
                assert(all_fit(b, color, added));
                assert(moves@ =~= old(moves)@ + added);
                lemma_all_fit_concat(b, color, old(moves)@, added);
            }
        } else {
            assert(old(moves)@ + castle_queenside(b, color, k as int, right) =~= old(moves)@);
        }
    }

    fn generate_king_moves(&self, board: &Board, from: Square, color: Color) -> (r: Vec<Move>)
        requires
            board.inv(),
            from < 64,
            board@.board[from as int] == Some(Piece { piece_type: PieceType::King, color }),
        ensures
            r@ == leap_moves(board@.board, from as int, color, PieceType::King, false, 8) + castle_moves(board@.board, from as int, color, board@.castling),
            all_fit(board@.board, color, r@),
    {
        let ghost b = board@.board;
        let mut moves = self.generate_leaper_moves(board, from, color, PieceType::King, false);
        let ghost steps = moves@;
        let rights = board.get_castling_rights();
        if color.is_white() && from == 4 {
            self.castle_kingside_moves(board, &mut moves, color, 4, rights.white_kingside);
            self.castle_queenside_moves(board, &mut moves, color, 4, rights.white_queenside);
        } else if color.is_black() && from == 60 {
            self.castle_kingside_moves(board, &mut moves, color, 60, rights.black_kingside);
            self.castle_queenside_moves(board, &mut moves, color, 60, rights.black_queenside);
        }
        assert(moves@ =~= steps + castle_moves(b, from as int, color, board@.castling));
        moves
    }

    fn generate_piece_moves(&self, board: &Board, from: Square, piece: Piece) -> (r: Vec<Move>)
        requires
            board.inv(),
            from < 64,
            board@.board[from as int] == Some(piece),
        ensures
            r@ == piece_moves(board@.board, from as int, piece, board@.castling, board@.ep),
            all_fit(board@.board, piece.color, r@),
    {
        match piece.piece_type {
            PieceType::Pawn => self.generate_pawn_moves(board, from, piece.color),
            PieceType::Knight => self.generate_knight_moves(board, from, piece.color),
            PieceType::Bishop => self.generate_bishop_moves(board, from, piece.color),
            PieceType::Rook => self.generate_rook_moves(board, from, piece.color),
            PieceType::Queen => self.generate_queen_moves(board, from, piece.color),
            PieceType::King => self.generate_king_moves(board, from, piece.color),
        }
    }

    /// Every pseudo-legal move of `color`, square by square from a1.
    pub fn generate_moves(&self, board: &Board, color: Color) -> (r: Vec<Move>)
        requires
            board.inv(),
        ensures
            r@ == pseudo_moves(board@.board, color, board@.castling, board@.ep),
            all_fit(board@.board, color, r@),
    {
        let ghost b = board@.board;
        let mut moves: Vec<Move> = Vec::new();
        let mut sq: usize = 0;
        while sq < 64
            invariant
                board.inv(),
                b == board@.board,
                sq <= 64,
                moves@ == pseudo_upto(b, color, board@.castling, board@.ep, sq as int),
                all_fit(b, color, moves@),
            decreases 64 - sq,
        {
            let ghost before = moves@;
            match board.get_piece(sq) {
                Some(p) => {
                    if p.color == color {
                        let mut pm = self.generate_piece_moves(board, sq, p);
                        let ghost added = pm@;
                        moves.append(&mut pm);
                        proof {
                            lemma_all_fit_concat(b, color, before, added);
                        }
                    }
                },
                None => {},
            }
            assert(moves@ =~= pseudo_upto(b, color, board@.castling, board@.ep, sq as int + 1));
            sq = sq + 1;
        }
        moves
    }


    /// The legal moves of `color`, the side to move: each pseudo-legal move
    /// is made, kept if the mover is then not in check, and taken back.
    pub fn get_legal_moves(&self, board: &mut Board, color: Color) -> (r: Vec<Move>)
        requires
            old(board).inv(),
            color == old(board)@.turn,
        ensures
            final(board).inv(),
            final(board)@ == old(board)@,
            r@ == legal_moves(old(board)@),
            forall|i: int| 0 <= i < r@.len() ==> fits(old(board)@.board, color, #[trigger] r@[i]),
            forall|i: int| 0 <= i < r@.len() ==> !in_check(make_spec(old(board)@, #[trigger] r@[i]).board, color),
    {
        let ghost p = board@;
        let pseudo = self.generate_moves(board, color);
        let mut legal: Vec<Move> = Vec::new();
        let mut i: usize = 0;
        while i < pseudo.len()
            invariant
                board.inv(),
                board@ == p,
                wf_pos(p),
                color == p.turn,
                i <= pseudo@.len(),
                pseudo@ == pseudo_moves(p.board, color, p.castling, p.ep),
                all_fit(p.board, color, pseudo@),
                legal@ == keep_legal(p, pseudo@.take(i as int)),
                forall|j: int| 0 <= j < legal@.len() ==> fits(p.board, color, #[trigger] legal@[j]),
                forall|j: int| 0 <= j < legal@.len() ==> !in_check(make_spec(p, #[trigger] legal@[j]).board, color),
            decreases pseudo@.len() - i,
        {
            let m = pseudo[i];
            assert(fits(p.board, color, pseudo@[i as int]));
            board.make_move(&m);
            let check = self.is_in_check(board, color);
            board.undo_move();
            proof {
                lemma_make_undo_round_trip(p, m);
            }
            let ghost before = legal@;
            if !check {
                legal.push(m);
            }
            proof {
                assert(pseudo@.take(i as int + 1).drop_last() =~= pseudo@.take(i as int));
                assert(pseudo@.take(i as int + 1).last() == m);
                assert(legal@ =~= keep_legal(p, pseudo@.take(i as int + 1)));
                assert forall|j: int| 0 <= j < legal@.len() implies fits(p.board, color, #[trigger] legal@[j])
                    && !in_check(make_spec(p, legal@[j]).board, color) by {
                    if j < before.len() {
                        assert(legal@[j] == before[j]);
                    }
                }
            }
            i = i + 1;
        }
        assert(pseudo@.take(pseudo@.len() as int) =~= pseudo@);
        legal
    }

    /// The side to move is in check and has no legal move.
    pub fn is_checkmate(&self, board: &mut Board, color: Color) -> (r: bool)
        requires
            old(board).inv(),
            color == old(board)@.turn,
        ensures
            final(board).inv(),
            final(board)@ == old(board)@,
            r == (in_check(old(board)@.board, color) && legal_moves(old(board)@).len() == 0),
    {
        let check = self.is_in_check(board, color);
        let moves = self.get_legal_moves(board, color);
        check && moves.len() == 0
    }

    /// The side to move is not in check and has no legal move.
    pub fn is_stalemate(&self, board: &mut Board, color: Color) -> (r: bool)
        requires
            old(board).inv(),
            color == old(board)@.turn,
        ensures
            final(board).inv(),
            final(board)@ == old(board)@,
            r == (!in_check(old(board)@.board, color) && legal_moves(old(board)@).len() == 0),
    {
        let check = self.is_in_check(board, color);
        let moves = self.get_legal_moves(board, color);
        !check && moves.len() == 0
    }

    pub fn is_valid_square(&self, square: i32) -> (r: bool)
        ensures
            r == (0 <= square < 64),
    {
        square >= 0 && square < 64
    }

    fn holds_at(&self, board: &Board, r: i32, f: i32, t: PieceType, c: Color) -> (res: bool)
        requires
            board.inv(),
        ensures
            res == holds(board@.board, r as int, f as int, t, c),
    {
        match square_at(r, f) {
            None => false,
            Some(s) => match board.get_piece(s) {
                Some(p) => p.piece_type == t && p.color == c,
                None => false,
            },
        }
    }

    fn ray_attacks(
        &self,
        board: &Board,
        r0: i32,
        f0: i32,
        dr: i32,
        df: i32,
        by: Color,
        orth: bool,
    ) -> (res: bool)
        requires
            board.inv(),
            -1 <= r0 <= 8,
            -1 <= f0 <= 8,
            -1 <= dr <= 1,
            -1 <= df <= 1,
        ensures
            res == ray_hit(board@.board, r0 as int, f0 as int, dr as int, df as int, by, orth, 8),
    {
        let mut r = r0;
        let mut f = f0;
        let mut fuel: u32 = 8;
        while fuel > 0
            invariant
                board.inv(),
                -1 <= dr <= 1,
                -1 <= df <= 1,
                -9 <= r <= 17,
                -9 <= f <= 17,
                fuel <= 8,
                fuel < 8 ==> on_board(r - dr, f - df),
                ray_hit(board@.board, r0 as int, f0 as int, dr as int, df as int, by, orth, 8)
                    == ray_hit(board@.board, r as int, f as int, dr as int, df as int, by, orth, fuel as nat),
            decreases fuel,
        {
            match square_at(r, f) {
                None => return false,
                Some(s) => match board.get_piece(s) {
                    Some(p) => {
                        let hit = p.color == by && (match p.piece_type {
                            PieceType::Queen => true,
                            PieceType::Rook => orth,
                            PieceType::Bishop => !orth,
                            _ => false,
                        });
                        return hit;
                    },
                    None => {},
                },
            }
            r = r + dr;
            f = f + df;
            fuel = fuel - 1;
        }
        false
    }

    /// Whether any piece of `by_color` attacks `square`.
    pub fn is_square_attacked(&self, board: &Board, square: Square, by_color: Color) -> (res: bool)
        requires
            board.inv(),
            square < 64,
        ensures
            res == attacked(board@.board, square as int, by_color),
    {
        let row = (square / 8) as i32;
        let file = (square % 8) as i32;
        let b = Ghost(board@.board);
        let pr = if by_color.is_white() { row - 1 } else { row + 1 };
        if self.holds_at(board, pr, file - 1, PieceType::Pawn, by_color) || self.holds_at(
            board,
            pr,
            file + 1,
            PieceType::Pawn,
            by_color,
        ) {
            return true;
        }
        let mut k: usize = 0;
        while k < 8
            invariant
                board.inv(),
                k <= 8,
                square < 64,
                row == square / 8,
                file == square % 8,
                forall|j: int|
                    0 <= j < k ==> !#[trigger] holds(
                        board@.board,
                        row + knight_dr(j),
                        file + knight_df(j),
                        PieceType::Knight,
                        by_color,
                    ),
            decreases 8 - k,
        {
            let (dr, df) = knight_offset(k);
            if self.holds_at(board, row + dr, file + df, PieceType::Knight, by_color) {
                assert(holds(board@.board, square as int / 8 + knight_dr(k as int), square as int % 8 + knight_df(k as int), PieceType::Knight, by_color));
                return true;
            }
            k = k + 1;
        }
        let mut d: usize = 0;
        while d < 8
            invariant
                board.inv(),
                d <= 8,
                square < 64,
                row == square / 8,
                file == square % 8,
                forall|j: int|
                    0 <= j < d ==> !#[trigger] ray_hit(
                        board@.board,
                        row + dir_dr(j),
                        file + dir_df(j),
                        dir_dr(j),
                        dir_df(j),
                        by_color,
                        is_orth(j),
                        8,
                    ),
            decreases 8 - d,
        {
            let (dr, df) = dir_offset(d);
            if self.ray_attacks(board, row + dr, file + df, dr, df, by_color, d < 4) {
                assert(ray_hit(board@.board, square as int / 8 + dir_dr(d as int), square as int % 8 + dir_df(d as int), dir_dr(d as int), dir_df(d as int), by_color, is_orth(d as int), 8));
                return true;
            }
            d = d + 1;
        }
        let mut d: usize = 0;
        while d < 8
            invariant
                board.inv(),
                d <= 8,
                square < 64,
                row == square / 8,
                file == square % 8,
                forall|j: int|
                    0 <= j < d ==> !#[trigger] holds(
                        board@.board,
                        row + dir_dr(j),
                        file + dir_df(j),
                        PieceType::King,
                        by_color,
                    ),
            decreases 8 - d,
        {
            let (dr, df) = dir_offset(d);
            if self.holds_at(board, row + dr, file + df, PieceType::King, by_color) {
                assert(holds(board@.board, square as int / 8 + dir_dr(d as int), square as int % 8 + dir_df(d as int), PieceType::King, by_color));
                return true;
            }
            d = d + 1;
        }
        assert(!knight_attack(board@.board, square as int, by_color));
        assert(!slide_attack(board@.board, square as int, by_color));
        assert(!king_attack(board@.board, square as int, by_color));
        false
    }

    /// Whether the king of `color` is attacked.
    pub fn is_in_check(&self, board: &Board, color: Color) -> (res: bool)
        requires
            board.inv(),
        ensures
            res == in_check(board@.board, color),
    {
        let mut sq: usize = 0;
        while sq < 64
            invariant
                board.inv(),
                sq <= 64,
                king_from(board@.board, color, 0) == king_from(board@.board, color, sq as int),
            decreases 64 - sq,
        {
            match board.get_piece(sq) {
                Some(p) => {
                    if p.color == color && p.piece_type == PieceType::King {
                        return self.is_square_attacked(board, sq, color.opposite());
                    }
                },
                None => {},
            }
            sq = sq + 1;
        }
        false
    }
}

} // verus!
