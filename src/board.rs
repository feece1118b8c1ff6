use vstd::prelude::*;

use crate::position::{Pos, pos_hash, wf_pos, consistent, make_spec, undo_spec, board_after, is_castling_target, lemma_make_keeps_wf, lemma_undo_keeps_wf};
use crate::types::{CastlingRights, Color, GameState, IrreversibleState, Move, Piece, PieceType, Square, start_piece};
use crate::draw_detection::{is_draw_by_fifty_moves, is_draw_by_repetition, repetition_draw};
use crate::zobrist::{ZobristTable, compute_hash, pieces_hash, castling_hash, ep_hash, side_hash, lemma_pieces_hash_update};

verus! {

broadcast use vstd::array::group_array_axioms;

/// The position with a hash computed from scratch and an empty history.
pub open spec fn fresh(p: Pos) -> Pos {
    Pos { hash: pos_hash(p), moves: Seq::empty(), snaps: Seq::empty(), hashes: Seq::empty(), ..p }
}

/// Fifty-move rule or threefold repetition.
pub open spec fn draw_spec(p: Pos) -> bool {
    p.halfmove >= 100 || repetition_draw(p.hashes, p.hash, p.halfmove)
}

/// The game state of the standard starting position.
pub open spec fn is_start(p: Pos) -> bool {
    &&& forall|i: int| 0 <= i < 64 ==> #[trigger] p.board[i] == start_piece(i)
    &&& p.turn == Color::White
    &&& p.castling == CastlingRights::new_spec()
    &&& p.ep is None
    &&& p.halfmove == 0
    &&& p.fullmove == 1
    &&& p.moves.len() == 0
}

proof fn lemma_hash_regroup(p: u64, c: u64, e: u64, s: u64)
    ensures
        ((p ^ c) ^ e) ^ s == p ^ ((c ^ e) ^ s),
{
    assert(((p ^ c) ^ e) ^ s == p ^ ((c ^ e) ^ s)) by (bit_vector);
}

proof fn lemma_hash_finish(p: u64, c: u64, e: u64, s: u64, c2: u64, e2: u64, s2: u64)
    ensures
        (((p ^ ((c ^ e) ^ s)) ^ (c ^ c2)) ^ (e ^ e2)) ^ (s ^ s2) == ((p ^ c2) ^ e2) ^ s2,
{
    assert((((p ^ ((c ^ e) ^ s)) ^ (c ^ c2)) ^ (e ^ e2)) ^ (s ^ s2) == ((p ^ c2) ^ e2) ^ s2)
        by (bit_vector);
}

proof fn lemma_put_rebase(h: u64, p: u64, rest: u64, a: u64, b: u64)
    requires
        h == p ^ rest,
    ensures
        (h ^ a) ^ b == ((p ^ a) ^ b) ^ rest,
{
    assert(h == p ^ rest ==> (h ^ a) ^ b == ((p ^ a) ^ b) ^ rest) by (bit_vector);
}

/// Sets one square and keeps `h` equal to the pieces' hash XOR `rest`.
fn put(
    z: &ZobristTable,
    board: &mut [Option<Piece>; 64],
    h: &mut u64,
    s: usize,
    q: Option<Piece>,
    Ghost(rest): Ghost<u64>,
)
    requires
        z.wf(),
        s < 64,
        *old(h) == pieces_hash(old(board)@, 64) ^ rest,
    ensures
        final(board)@ == old(board)@.update(s as int, q),
        *final(h) == pieces_hash(final(board)@, 64) ^ rest,
{
    let a = z.square_key(board[s], s);
    let b = z.square_key(q, s);
    proof {
        lemma_pieces_hash_update(old(board)@, s as int, q, 64);
        lemma_put_rebase(*old(h), pieces_hash(old(board)@, 64), rest, a, b);
    }
    *h = (*h ^ a) ^ b;
    board[s] = q;
}

fn copy_vec<T: Copy>(v: &Vec<T>) -> (r: Vec<T>)
    ensures
        r@ == v@,
{
    let mut r: Vec<T> = Vec::new();
    let mut i: usize = 0;
    while i < v.len()
        invariant
            i <= v@.len(),
            r@ == v@.take(i as int),
        decreases v@.len() - i,
    {
        r.push(v[i]);
        assert(v@.take(i as int + 1) =~= v@.take(i as int).push(v@[i as int]));
        i = i + 1;
    }
    assert(v@.take(v@.len() as int) =~= v@);
    r
}

/// A chess position with its history, kept consistent by `make_move` and `undo_move`.
pub struct Board {
    state: GameState,
    zobrist: ZobristTable,
}

impl View for Board {
    type V = Pos;

    closed spec fn view(&self) -> Pos {
        self.state@
    }
}

impl Board {
    pub closed spec fn keys_ok(&self) -> bool {
        self.zobrist.wf()
    }

    /// The board's invariant: a well-formed position and the fixed key table.
    pub open spec fn inv(&self) -> bool {
        &&& self.keys_ok()
        &&& wf_pos(self@)
    }

    pub fn new() -> (r: Board)
        ensures
            r.inv(),
            is_start(r@),
    {
        let zobrist = ZobristTable::new();
        let mut state = GameState::new();
        state.hash = compute_hash(&state, &zobrist);
        Board { state, zobrist }
    }

    /// Recomputes the hash and starts a new history.
    fn restart(&mut self)
        requires
            old(self).keys_ok(),
            old(self)@.board.len() == 64,
        ensures
            final(self).inv(),
            final(self)@ == fresh(old(self)@),
    {
        self.state.hash = compute_hash(&self.state, &self.zobrist);
        self.state.move_history = Vec::new();
        self.state.irreversible_history = Vec::new();
        self.state.position_history = Vec::new();
        proof {
            assert(self@.moves =~= Seq::<Move>::empty());
            assert(self@.snaps =~= Seq::<IrreversibleState>::empty());
            assert(self@.hashes =~= Seq::<u64>::empty());
        }
    }

    /// An independent copy of the board, history included.
    pub fn duplicate(&self) -> (r: Board)
        requires
            self.inv(),
        ensures
            r.inv(),
            r@ == self@,
    {
        let z = ZobristTable::new();
        let state = GameState {
            board: self.state.board,
            turn: self.state.turn,
            castling_rights: self.state.castling_rights,
            en_passant_target: self.state.en_passant_target,
            halfmove_clock: self.state.halfmove_clock,
            fullmove_number: self.state.fullmove_number,
            hash: self.state.hash,
            move_history: copy_vec(&self.state.move_history),
            irreversible_history: copy_vec(&self.state.irreversible_history),
            position_history: copy_vec(&self.state.position_history),
        };
        Board { state, zobrist: z }
    }

    pub fn reset(&mut self)
        requires
            old(self).inv(),
        ensures
            final(self).inv(),
            is_start(final(self)@),
    {
        self.state = GameState::new();
        self.state.hash = compute_hash(&self.state, &self.zobrist);
    }

    pub fn get_piece(&self, square: Square) -> (r: Option<Piece>)
        requires
            self.inv(),
            square < 64,
        ensures
            r == self@.board[square as int],
    {
        self.state.board[square]
    }

    /// Puts a piece on a square; editing the position starts a new history.
    pub fn set_piece(&mut self, square: Square, piece: Option<Piece>)
        requires
            old(self).inv(),
            square < 64,
        ensures
            final(self).inv(),
            final(self)@ == fresh(Pos { board: old(self)@.board.update(square as int, piece), ..old(self)@ }),
    {
        self.state.board[square] = piece;
        self.restart();
    }

    pub fn get_turn(&self) -> (r: Color)
        ensures
            r == self@.turn,
    {
        self.state.turn
    }

    /// Sets the side to move; editing the position starts a new history.
    pub fn set_turn(&mut self, color: Color)
        requires
            old(self).inv(),
        ensures
            final(self).inv(),
            final(self)@ == fresh(Pos { turn: color, ..old(self)@ }),
    {
        self.state.turn = color;
        self.restart();
    }

    pub fn get_castling_rights(&self) -> (r: CastlingRights)
        ensures
            r == self@.castling,
    {
        self.state.castling_rights
    }

    /// Sets the castling rights; editing the position starts a new history.
    pub fn set_castling_rights(&mut self, rights: CastlingRights)
        requires
            old(self).inv(),
        ensures
            final(self).inv(),
            final(self)@ == fresh(Pos { castling: rights, ..old(self)@ }),
    {
        self.state.castling_rights = rights;
        self.restart();
    }

    pub fn get_en_passant_target(&self) -> (r: Option<Square>)
        ensures
            r == self@.ep,
    {
        self.state.en_passant_target
    }

    /// Sets the en-passant target; editing the position starts a new history.
    pub fn set_en_passant_target(&mut self, square: Option<Square>)
        requires
            old(self).inv(),
        ensures
            final(self).inv(),
            final(self)@ == fresh(Pos { ep: square, ..old(self)@ }),
    {
        self.state.en_passant_target = square;
        self.restart();
    }

    /// Sets both move counters; editing the position starts a new history.
    pub fn set_clocks(&mut self, halfmove_clock: u32, fullmove_number: u32)
        requires
            old(self).inv(),
        ensures
            final(self).inv(),
            final(self)@ == fresh(Pos { halfmove: halfmove_clock, fullmove: fullmove_number, ..old(self)@ }),
    {
        self.state.halfmove_clock = halfmove_clock;
        self.state.fullmove_number = fullmove_number;
        self.restart();
    }

    /// Installs a whole position; its hash is recomputed and its history starts anew.
    pub fn set_position(
        &mut self,
        squares: [Option<Piece>; 64],
        turn: Color,
        rights: CastlingRights,
        ep: Option<Square>,
        halfmove_clock: u32,
        fullmove_number: u32,
    )
        requires
            old(self).inv(),
        ensures
            final(self).inv(),
            final(self)@ == fresh(Pos {
                board: squares@,
                turn,
                castling: rights,
                ep,
                halfmove: halfmove_clock,
                fullmove: fullmove_number,
                ..old(self)@
            }),
    {
        self.state.board = squares;
        self.state.turn = turn;
        self.state.castling_rights = rights;
        self.state.en_passant_target = ep;
        self.state.halfmove_clock = halfmove_clock;
        self.state.fullmove_number = fullmove_number;
        self.restart();
    }

    pub fn get_state(&self) -> (r: &GameState)
        ensures
            r@ == self@,
    {
        &self.state
    }

    /// Installs a position; its hash is recomputed and its history starts anew.
    pub fn set_state(&mut self, state: GameState)
        requires
            old(self).inv(),
        ensures
            final(self).inv(),
            final(self)@ == fresh(state@),
    {
        self.state = state;
        self.restart();
    }

    pub fn get_hash(&self) -> (r: u64)
        requires
            self.inv(),
        ensures
            r == self@.hash,
            r == pos_hash(self@),
    {
        self.state.hash
    }

    pub open spec fn is_draw_spec(&self) -> bool {
        draw_spec(self@)
    }

    /// Fifty-move rule or threefold repetition.
    pub fn is_draw(&self) -> (r: bool)
        ensures
            r == self.is_draw_spec(),
    {
        is_draw_by_fifty_moves(&self.state) || is_draw_by_repetition(&self.state)
    }

    /// Plays a move that fits the position, updating the hash incrementally.
    pub fn make_move(&mut self, chess_move: &Move)
        requires
            old(self).inv(),
            consistent(old(self)@, *chess_move),
        ensures
            final(self).inv(),
            final(self)@ == make_spec(old(self)@, *chess_move),
    {
        let m = *chess_move;
        let ghost p = self@;
        let mover = self.state.turn;
        let opp = mover.opposite();
        let old_rights = self.state.castling_rights;
        let old_ep = self.state.en_passant_target;
        let old_hash = self.state.hash;
        let snap = IrreversibleState {
            castling_rights: old_rights,
            en_passant_target: old_ep,
            halfmove_clock: self.state.halfmove_clock,
            fullmove_number: self.state.fullmove_number,
            hash: old_hash,
        };
        let mut board = self.state.board;
        let mut h = old_hash;
        let ghost rest = (castling_hash(old_rights) ^ ep_hash(old_ep)) ^ side_hash(mover);
        proof {
            lemma_hash_regroup(pieces_hash(board@, 64), castling_hash(old_rights), ep_hash(old_ep), side_hash(mover));
        }
        let placed = Piece::new(
            match m.promotion {
                Some(t) => t,
                None => m.piece,
            },
            mover,
        );
        put(&self.zobrist, &mut board, &mut h, m.from, None, Ghost(rest));
        if m.is_en_passant {
            let v = if mover.is_white() { m.to - 8 } else { m.to + 8 };
            put(&self.zobrist, &mut board, &mut h, v, None, Ghost(rest));
        }
        put(&self.zobrist, &mut board, &mut h, m.to, Some(placed), Ghost(rest));
        if m.is_castling {
            let (rf, rt) = if m.to % 8 == 6 { (m.to + 1, m.to - 1) } else { (m.to - 2, m.to + 1) };
            let rook = board[rf];
            put(&self.zobrist, &mut board, &mut h, rt, rook, Ghost(rest));
            put(&self.zobrist, &mut board, &mut h, rf, None, Ghost(rest));
        }
        assert(board@ == board_after(p.board, m, mover));

        let king_w = m.piece == PieceType::King && mover.is_white();
        let king_b = m.piece == PieceType::King && mover.is_black();
        let rights = CastlingRights {
            white_kingside: old_rights.white_kingside && !king_w && m.from != 7 && m.to != 7,
            white_queenside: old_rights.white_queenside && !king_w && m.from != 0 && m.to != 0,
            black_kingside: old_rights.black_kingside && !king_b && m.from != 63 && m.to != 63,
            black_queenside: old_rights.black_queenside && !king_b && m.from != 56 && m.to != 56,
        };
        let new_ep = if m.piece == PieceType::Pawn && ((m.from < 48 && m.to == m.from + 16) || (
        m.to < 48 && m.from == m.to + 16)) {
            Some((m.from + m.to) / 2)
        } else {
            None
        };
        let c1 = self.zobrist.castling_key(old_rights);
        let c2 = self.zobrist.castling_key(rights);
        let e1 = self.zobrist.ep_target_key(old_ep);
        let e2 = self.zobrist.ep_target_key(new_ep);
        let s1 = self.zobrist.side_key(mover);
        let s2 = self.zobrist.side_key(opp);
        proof {
            lemma_hash_finish(pieces_hash(board@, 64), c1, e1, s1, c2, e2, s2);
        }
        h = ((h ^ (c1 ^ c2)) ^ (e1 ^ e2)) ^ (s1 ^ s2);

        let is_pawn = match m.piece {
            PieceType::Pawn => true,
            _ => false,
        };
        if is_pawn || m.captured.is_some() {
            self.state.halfmove_clock = 0;
        } else if self.state.halfmove_clock < u32::MAX {
            self.state.halfmove_clock = self.state.halfmove_clock + 1;
        }
        if mover.is_black() && self.state.fullmove_number < u32::MAX {
            self.state.fullmove_number = self.state.fullmove_number + 1;
        }
        self.state.board = board;
        self.state.hash = h;
        self.state.castling_rights = rights;
        self.state.en_passant_target = new_ep;
        self.state.turn = opp;
        self.state.move_history.push(m);
        self.state.irreversible_history.push(snap);
        self.state.position_history.push(old_hash);
        proof {
            assert(self@.board == make_spec(p, m).board);
            assert(self@ == make_spec(p, m));
            lemma_make_keeps_wf(p, m);
        }
    }

    /// Takes back the last move, restoring the position exactly as it was.
    pub fn undo_move(&mut self) -> (r: Option<Move>)
        requires
            old(self).inv(),
        ensures
            final(self).inv(),
            old(self)@.moves.len() == 0 ==> r is None && final(self)@ == old(self)@,
            old(self)@.moves.len() > 0 ==> r == Some(old(self)@.moves.last()) && final(self)@
                == undo_spec(old(self)@),
    {
        if self.state.move_history.len() == 0 {
            return None;
        }
        let ghost p = self@;
        let m = self.state.move_history.pop().unwrap();
        let s = self.state.irreversible_history.pop().unwrap();
        let _ = self.state.position_history.pop().unwrap();
        let mover = self.state.turn.opposite();
        let opp = self.state.turn;
        let mut board = self.state.board;
        assert(0 <= m.to < 64 && 0 <= m.from < 64) by {
            assert(consistent(undo_spec(p), p.moves.last()));
        }
        if m.is_castling {
            assert(is_castling_target(m.to as int)) by {
                assert(consistent(undo_spec(p), p.moves.last()));
            }
            let (rf, rt) = if m.to % 8 == 6 { (m.to + 1, m.to - 1) } else { (m.to - 2, m.to + 1) };
            board[rf] = board[rt];
            board[rt] = None;
        }
        if m.is_en_passant {
            board[m.to] = None;
            let v = if mover.is_white() { m.to - 8 } else { m.to + 8 };
            assert(0 <= v < 64) by {
                assert(consistent(undo_spec(p), p.moves.last()));
            }
            board[v] = Some(Piece::new(PieceType::Pawn, opp));
        } else {
            board[m.to] = match m.captured {
                Some(t) => Some(Piece::new(t, opp)),
                None => None,
            };
        }
        board[m.from] = Some(Piece::new(m.piece, mover));
        self.state.board = board;
        self.state.turn = mover;
        self.state.castling_rights = s.castling_rights;
        self.state.en_passant_target = s.en_passant_target;
        self.state.halfmove_clock = s.halfmove_clock;
        self.state.fullmove_number = s.fullmove_number;
        self.state.hash = s.hash;
        proof {
            assert(self@.board =~= undo_spec(p).board);
            assert(self@ == undo_spec(p));
            lemma_undo_keeps_wf(p);
        }
        Some(m)
    }
}

} // verus!

verus! {

/// The position after making each move of `ms` in turn.
pub open spec fn make_all(p: Pos, ms: Seq<Move>) -> Pos
    decreases ms.len(),
{
    if ms.len() == 0 {
        p
    } else {
        make_spec(make_all(p, ms.drop_last()), ms.last())
    }
}

/// Each ply that neither moves a pawn nor captures adds one to the halfmove
/// clock; once the clock reaches 100 the fifty-move rule declares a draw.
pub proof fn lemma_fifty_move_rule(p: Pos, ms: Seq<Move>)
    requires
        forall|i: int| 0 <= i < ms.len() ==> (#[trigger] ms[i]).piece != PieceType::Pawn && ms[i].captured is None,
        p.halfmove as int + ms.len() <= u32::MAX,
    ensures
        make_all(p, ms).halfmove == p.halfmove + ms.len(),
        p.halfmove + ms.len() >= 100 ==> draw_spec(make_all(p, ms)),
    decreases ms.len(),
{
    if ms.len() > 0 {
        let rest = ms.drop_last();
        assert forall|i: int| 0 <= i < rest.len() implies (#[trigger] rest[i]).piece != PieceType::Pawn && rest[i].captured is None by {
            assert(rest[i] == ms[i]);
        }
        lemma_fifty_move_rule(p, rest);
        assert(ms.last() == ms[ms.len() - 1]);
    }
}

} // verus!
