use vstd::prelude::*;

use crate::types::{CastlingRights, Color, IrreversibleState, Move, Piece, PieceType, Square};
use crate::zobrist::hash_of;

verus! {

/// Mathematical model of a position and its history.
pub struct Pos {
    pub board: Seq<Option<Piece>>,
    pub turn: Color,
    pub castling: CastlingRights,
    pub ep: Option<Square>,
    pub halfmove: u32,
    pub fullmove: u32,
    pub hash: u64,
    pub moves: Seq<Move>,
    pub snaps: Seq<IrreversibleState>,
    pub hashes: Seq<u64>,
}

/// The fingerprint that the position's fields call for.
pub open spec fn pos_hash(p: Pos) -> u64 {
    hash_of(p.board, p.turn, p.castling, p.ep)
}

/// Where the rook stands before castling towards `to`.
pub open spec fn rook_from(to: int) -> int {
    if to % 8 == 6 {
        to + 1
    } else {
        to - 2
    }
}

/// Where the rook stands after castling towards `to`.
pub open spec fn rook_to(to: int) -> int {
    if to % 8 == 6 {
        to - 1
    } else {
        to + 1
    }
}

/// The square of the pawn taken en passant by a pawn of `mover` landing on `to`.
pub open spec fn ep_victim(to: int, mover: Color) -> int {
    if mover == Color::White {
        to - 8
    } else {
        to + 8
    }
}

/// The piece that stands on `to` after the move.
pub open spec fn placed_piece(m: Move, mover: Color) -> Piece {
    Piece {
        piece_type: match m.promotion {
            Some(t) => t,
            None => m.piece,
        },
        color: mover,
    }
}

pub open spec fn touches(m: Move, sq: int) -> bool {
    m.from == sq || m.to == sq
}

/// Castling rights after a move: a king move drops both rights of its side; a
/// move from or to a corner drops that corner's right.
pub open spec fn rights_after(cr: CastlingRights, m: Move, mover: Color) -> CastlingRights {
    let king_w = m.piece == PieceType::King && mover == Color::White;
    let king_b = m.piece == PieceType::King && mover == Color::Black;
    CastlingRights {
        white_kingside: cr.white_kingside && !king_w && !touches(m, 7),
        white_queenside: cr.white_queenside && !king_w && !touches(m, 0),
        black_kingside: cr.black_kingside && !king_b && !touches(m, 63),
        black_queenside: cr.black_queenside && !king_b && !touches(m, 56),
    }
}

pub open spec fn is_double_push(m: Move) -> bool {
    m.piece == PieceType::Pawn && (m.to == m.from + 16 || m.from == m.to + 16)
}

/// The en-passant target after a move: the crossed square of a two-square push.
pub open spec fn ep_after(m: Move) -> Option<Square> {
    if is_double_push(m) {
        Some(((m.from + m.to) / 2) as Square)
    } else {
        None
    }
}

pub open spec fn halfmove_after(h: u32, m: Move) -> u32 {
    if m.piece == PieceType::Pawn || m.captured is Some {
        0
    } else if h < u32::MAX {
        (h + 1) as u32
    } else {
        h
    }
}

pub open spec fn fullmove_after(f: u32, mover: Color) -> u32 {
    if mover == Color::Black && f < u32::MAX {
        (f + 1) as u32
    } else {
        f
    }
}

pub open spec fn snapshot(p: Pos) -> IrreversibleState {
    IrreversibleState {
        castling_rights: p.castling,
        en_passant_target: p.ep,
        halfmove_clock: p.halfmove,
        fullmove_number: p.fullmove,
        hash: p.hash,
    }
}

/// The board after the pieces of a move have been moved.
pub open spec fn board_after(b: Seq<Option<Piece>>, m: Move, mover: Color) -> Seq<Option<Piece>> {
    let b1 = b.update(m.from as int, None);
    let b2 = if m.is_en_passant {
        b1.update(ep_victim(m.to as int, mover), None)
    } else {
        b1
    };
    let b3 = b2.update(m.to as int, Some(placed_piece(m, mover)));
    if m.is_castling {
        b3.update(rook_to(m.to as int), b3[rook_from(m.to as int)]).update(
            rook_from(m.to as int),
            None,
        )
    } else {
        b3
    }
}

/// The position after `make(m)`.
pub open spec fn make_spec(p: Pos, m: Move) -> Pos {
    let mover = p.turn;
    let board = board_after(p.board, m, mover);
    let castling = rights_after(p.castling, m, mover);
    let ep = ep_after(m);
    let turn = mover.opp();
    Pos {
        board,
        turn,
        castling,
        ep,
        halfmove: halfmove_after(p.halfmove, m),
        fullmove: fullmove_after(p.fullmove, mover),
        hash: hash_of(board, turn, castling, ep),
        moves: p.moves.push(m),
        snaps: p.snaps.push(snapshot(p)),
        hashes: p.hashes.push(p.hash),
    }
}

/// What stood on `to` before the move, for a move that is not en passant.
pub open spec fn captured_piece(m: Move, mover: Color) -> Option<Piece> {
    match m.captured {
        Some(t) => Some(Piece { piece_type: t, color: mover.opp() }),
        None => None,
    }
}

/// The board with the last move taken back.
pub open spec fn board_before(b: Seq<Option<Piece>>, m: Move, mover: Color) -> Seq<Option<Piece>> {
    let b2 = if m.is_castling {
        b.update(rook_from(m.to as int), b[rook_to(m.to as int)]).update(rook_to(m.to as int), None)
    } else {
        b
    };
    let b3 = b2.update(
        m.to as int,
        if m.is_en_passant {
            None
        } else {
            captured_piece(m, mover)
        },
    );
    let b4 = if m.is_en_passant {
        b3.update(ep_victim(m.to as int, mover), Some(Piece { piece_type: PieceType::Pawn, color: mover.opp() }))
    } else {
        b3
    };
    b4.update(m.from as int, Some(Piece { piece_type: m.piece, color: mover }))
}

/// The position after `undo()`; meaningful when a move has been made.
pub open spec fn undo_spec(p: Pos) -> Pos {
    let m = p.moves.last();
    let s = p.snaps.last();
    let mover = p.turn.opp();
    Pos {
        board: board_before(p.board, m, mover),
        turn: mover,
        castling: s.castling_rights,
        ep: s.en_passant_target,
        halfmove: s.halfmove_clock,
        fullmove: s.fullmove_number,
        hash: s.hash,
        moves: p.moves.drop_last(),
        snaps: p.snaps.drop_last(),
        hashes: p.hashes.drop_last(),
    }
}

pub open spec fn is_castling_target(to: int) -> bool {
    to == 2 || to == 6 || to == 58 || to == 62
}

/// A move fits a board for the side `mover`: the mover's piece stands on
/// `from`, `to` holds what `captured` says, and castling and en passant find
/// their squares as `make` expects them.
pub open spec fn fits(b: Seq<Option<Piece>>, mover: Color, m: Move) -> bool {
    &&& m.from < 64
    &&& m.to < 64
    &&& m.from != m.to
    &&& b[m.from as int] == Some(Piece { piece_type: m.piece, color: mover })
    &&& !(m.is_castling && m.is_en_passant)
    &&& if m.is_en_passant {
        let v = ep_victim(m.to as int, mover);
        &&& 0 <= v < 64
        &&& v != m.from
        &&& m.captured == Some(PieceType::Pawn)
        &&& b[m.to as int] is None
        &&& b[v] == Some(Piece { piece_type: PieceType::Pawn, color: mover.opp() })
    } else {
        b[m.to as int] == captured_piece(m, mover)
    }
    &&& m.is_castling ==> {
        &&& is_castling_target(m.to as int)
        &&& m.from == m.to - 2 || m.from == m.to + 2
        &&& m.captured is None
        &&& b[rook_to(m.to as int)] is None
    }
}

/// A move fits the position for the side to move.
pub open spec fn consistent(p: Pos, m: Move) -> bool {
    fits(p.board, p.turn, m)
}

/// Shape of a position: a full board, matching history stacks, and a hash
/// that equals its recomputation.
pub open spec fn basic(p: Pos) -> bool {
    &&& p.board.len() == 64
    &&& p.moves.len() == p.snaps.len()
    &&& p.moves.len() == p.hashes.len()
    &&& p.hash == pos_hash(p)
}

/// A well-formed position: basic, and each recorded move, taken back, leads
/// to a well-formed position that the move fits and from which `make` leads back here.
pub open spec fn wf_pos(p: Pos) -> bool
    decreases p.moves.len(),
{
    &&& basic(p)
    &&& p.moves.len() > 0 ==> {
        let q = undo_spec(p);
        &&& consistent(q, p.moves.last())
        &&& make_spec(q, p.moves.last()) == p
        &&& wf_pos(q)
    }
}

/// Making a move that fits a position and then taking it back restores every
/// field of the position, the hash included.
pub proof fn lemma_make_undo_round_trip(p: Pos, m: Move)
    requires
        basic(p),
        consistent(p, m),
    ensures
        undo_spec(make_spec(p, m)) == p,
{
    let q = make_spec(p, m);
    let u = undo_spec(q);
    assert(q.moves.last() == m);
    assert(q.moves.drop_last() =~= p.moves);
    assert(q.snaps.drop_last() =~= p.snaps);
    assert(q.hashes.drop_last() =~= p.hashes);
    assert(u.board =~= p.board);
}

/// `make` keeps a position well formed, and its hash equal to the one
/// computed from scratch.
pub proof fn lemma_make_keeps_wf(p: Pos, m: Move)
    requires
        wf_pos(p),
        consistent(p, m),
    ensures
        wf_pos(make_spec(p, m)),
        make_spec(p, m).hash == pos_hash(make_spec(p, m)),
{
    lemma_make_undo_round_trip(p, m);
    let q = make_spec(p, m);
    assert(q.board.len() == 64);
    assert(q.moves.last() == m);
}

/// `undo` keeps a position well formed, and its hash equal to the one
/// computed from scratch.
pub proof fn lemma_undo_keeps_wf(p: Pos)
    requires
        wf_pos(p),
        p.moves.len() > 0,
    ensures
        wf_pos(undo_spec(p)),
        undo_spec(p).hash == pos_hash(undo_spec(p)),
{
    let q = undo_spec(p);
    assert(wf_pos(q));
    assert(basic(q));
}

} // verus!
