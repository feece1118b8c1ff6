use vstd::prelude::*;

use crate::board::Board;
use crate::move_generator::{MoveGenerator, legal_moves, in_check};
use crate::position::{Pos, fits, make_spec, wf_pos, lemma_make_undo_round_trip};
use crate::board::draw_spec;
use crate::time_manager::{elapsed_since, now, whole_millis};
use crate::transposition_table::{BoundType, TTEntry, TTView, TranspositionTable, encode_move, probe_spec, store_spec};
use crate::types::{Color, Move, Piece, PieceType, Square, value_of};

verus! {

/// Score of a mated side (negated for the minimizing side).
pub const MATE_SCORE: i32 = 100000;

/// Bound on the magnitude of a static evaluation.
pub const EVAL_BOUND: i32 = 2000000;

/// Number of non-king, non-pawn pieces on squares below `n`, and how many of them are queens.
pub open spec fn officer_counts(b: Seq<Option<Piece>>, n: int) -> (int, int)
    decreases n,
{
    if n <= 0 {
        (0, 0)
    } else {
        let (pc, qc) = officer_counts(b, n - 1);
        match b[n - 1] {
            Some(p) => if p.piece_type != PieceType::King && p.piece_type != PieceType::Pawn {
                (pc + 1, qc + if p.piece_type == PieceType::Queen { 1int } else { 0int })
            } else {
                (pc, qc)
            },
            None => (pc, qc),
        }
    }
}

/// Few pieces are left: at most four officers, or six without queens.
pub open spec fn endgame(b: Seq<Option<Piece>>) -> bool {
    let (pc, qc) = officer_counts(b, 64);
    pc <= 4 || (pc <= 6 && qc == 0)
}

pub open spec fn is_center(sq: int) -> bool {
    sq == 27 || sq == 28 || sq == 35 || sq == 36
}

/// Positional bonus of the simple evaluator.
pub open spec fn position_bonus(sq: int, t: PieceType, c: Color, eg: bool) -> int {
    let file = sq % 8;
    let rank = sq / 8;
    (if is_center(sq) { 10int } else { 0int }) + match t {
        PieceType::Pawn => 5 * if c == Color::White { rank } else { 7 - rank },
        PieceType::King => if eg {
            0int
        } else if rank == (if c == Color::White { 0int } else { 7int }) && (file <= 2 || file >= 5) {
            20int
        } else {
            -20int
        },
        _ => 0int,
    }
}

/// Material plus positional bonus of the squares below `n`, from White's view.
pub open spec fn simple_eval_upto(b: Seq<Option<Piece>>, eg: bool, n: int) -> int
    decreases n,
{
    if n <= 0 {
        0
    } else {
        simple_eval_upto(b, eg, n - 1) + match b[n - 1] {
            Some(p) => {
                let v = value_of(p.piece_type) + position_bonus(n - 1, p.piece_type, p.color, eg);
                if p.color == Color::White { v } else { -v }
            },
            None => 0,
        }
    }
}

pub open spec fn simple_eval(b: Seq<Option<Piece>>) -> int {
    simple_eval_upto(b, endgame(b), 64)
}

/// Outcome of a root search.
#[derive(Debug)]
pub struct SearchResult {
    pub best_move: Option<Move>,
    pub evaluation: i32,
    pub nodes: u64,
    pub time_ms: u128,
}

/// Alpha-beta searcher with a transposition table.
pub struct AI {
    move_generator: MoveGenerator,
    nodes_evaluated: u64,
    tt: TranspositionTable,
}

impl AI {
    pub closed spec fn inv(&self) -> bool {
        self.tt.wf()
    }

    pub closed spec fn nodes(&self) -> u64 {
        self.nodes_evaluated
    }

    pub closed spec fn table(&self) -> TranspositionTable {
        self.tt
    }

    pub fn new() -> (r: AI)
        ensures
            r.inv(),
            r.nodes() == 0,
    {
        AI { move_generator: MoveGenerator::new(), nodes_evaluated: 0, tt: TranspositionTable::new(16) }
    }

    pub fn get_tt(&self) -> (r: &TranspositionTable)
        ensures
            *r == self.table(),
            self.inv() ==> r.wf(),
    {
        &self.tt
    }

    pub fn get_tt_mut(&mut self) -> (r: &mut TranspositionTable)
        ensures
            *r == old(self).table(),
            final(self).table() == *final(r),
            final(self).nodes() == old(self).nodes(),
    {
        &mut self.tt
    }

    /// Starts a new search generation of the transposition table.
    pub fn new_search(&mut self)
        requires
            old(self).inv(),
        ensures
            final(self).inv(),
            final(self).table()@.age == old(self).table()@.age.wrapping_add(1),
            final(self).table()@.entries == old(self).table()@.entries,
    {
        self.tt.new_search();
    }

    /// Few pieces are left.
    fn is_endgame(&self, board: &Board) -> (r: bool)
        requires
            board.inv(),
        ensures
            r == endgame(board@.board),
    {
        let mut piece_count: i32 = 0;
        let mut queen_count: i32 = 0;
        let mut sq: usize = 0;
        while sq < 64
            invariant
                board.inv(),
                sq <= 64,
                (piece_count as int, queen_count as int) == officer_counts(board@.board, sq as int),
                0 <= queen_count <= piece_count <= sq,
            decreases 64 - sq,
        {
            match board.get_piece(sq) {
                Some(p) => {
                    if p.piece_type != PieceType::King && p.piece_type != PieceType::Pawn {
                        piece_count = piece_count + 1;
                        if p.piece_type == PieceType::Queen {
                            queen_count = queen_count + 1;
                        }
                    }
                },
                None => {},
            }
            sq = sq + 1;
        }
        piece_count <= 4 || (piece_count <= 6 && queen_count == 0)
    }

    fn get_position_bonus(&self, square: Square, piece_type: PieceType, color: Color, endgame: bool) -> (r: i32)
        requires
            square < 64,
        ensures
            r as int == position_bonus(square as int, piece_type, color, endgame),
    {
        let file = square % 8;
        let rank = square / 8;
        let mut bonus: i32 = 0;
        if square == 27 || square == 28 || square == 35 || square == 36 {
            bonus = bonus + 10;
        }
        match piece_type {
            PieceType::Pawn => {
                let advancement = if color.is_white() { rank } else { 7 - rank };
                bonus = bonus + (advancement * 5) as i32;
            },
            PieceType::King => {
                if !endgame {
                    let safe_rank = if color.is_white() { 0 } else { 7 };
                    if rank == safe_rank && (file <= 2 || file >= 5) {
                        bonus = bonus + 20;
                    } else {
                        bonus = bonus - 20;
                    }
                }
            },
            _ => {},
        }
        bonus
    }

    /// Material and simple positional terms, from White's view.
    pub fn evaluate(&self, board: &Board) -> (r: i32)
        requires
            board.inv(),
        ensures
            r as int == simple_eval(board@.board),
            -EVAL_BOUND <= r <= EVAL_BOUND,
    {
        let eg = self.is_endgame(board);
        let mut score: i32 = 0;
        let mut sq: usize = 0;
        while sq < 64
            invariant
                board.inv(),
                eg == endgame(board@.board),
                sq <= 64,
                score as int == simple_eval_upto(board@.board, eg, sq as int),
                -30000 * sq <= score <= 30000 * sq,
            decreases 64 - sq,
        {
            match board.get_piece(sq) {
                Some(p) => {
                    let v = p.piece_type.value() + self.get_position_bonus(sq, p.piece_type, p.color, eg);
                    if p.color.is_white() {
                        score = score + v;
                    } else {
                        score = score - v;
                    }
                },
                None => {},
            }
            sq = sq + 1;
        }
        score
    }

    /// Alpha-beta search of `depth` plies with table probe and store; the
    /// board comes back unchanged, and the score and the table are those of `ab_node`.
    pub fn minimax(&mut self, board: &mut Board, depth: u8, alpha: i32, beta: i32, maximizing: bool) -> (r: i32)
        requires
            old(board).inv(),
            old(self).inv(),
        ensures
            final(board).inv(),
            final(board)@ == old(board)@,
            final(self).inv(),
            final(self).nodes() >= old(self).nodes(),
            (r, final(self).table()@) == ab_node(old(board)@, old(self).table()@, depth, alpha, beta, maximizing),
        decreases depth,
    {
        self.nodes_evaluated = self.nodes_evaluated.saturating_add(1);
        if board.is_draw() {
            return 0;
        }
        let ghost p = board@;
        let ghost t0 = self.tt@;
        let mut alpha_w = alpha;
        let mut beta_w = beta;
        let hash = board.get_hash();
        match self.tt.probe(hash) {
            Some(entry) => {
                if entry.depth >= depth {
                    match entry.bound {
                        BoundType::Exact => {
                            return entry.score;
                        },
                        BoundType::LowerBound => {
                            if entry.score > alpha_w {
                                alpha_w = entry.score;
                            }
                        },
                        BoundType::UpperBound => {
                            if entry.score < beta_w {
                                beta_w = entry.score;
                            }
                        },
                    }
                    if alpha_w >= beta_w {
                        return entry.score;
                    }
                }
            },
            None => {},
        }
        if depth == 0 {
            let score = self.evaluate(board);
            self.tt.store(hash, 0, score, BoundType::Exact, None);
            return score;
        }
        let color = board.get_turn();
        let moves = self.move_generator.get_legal_moves(board, color);
        if moves.len() == 0 {
            let score = if self.move_generator.is_in_check(board, color) {
                if maximizing { -MATE_SCORE } else { MATE_SCORE }
            } else {
                0
            };
            self.tt.store(hash, depth, score, BoundType::Exact, None);
            return score;
        }
        let ghost init = LoopState {
            best: if maximizing { i32::MIN } else { i32::MAX },
            best_move: None,
            alpha: alpha_w,
            beta: beta_w,
            table: self.tt@,
        };
        let mut best: i32 = if maximizing { i32::MIN } else { i32::MAX };
        let mut best_move: Option<u16> = None;
        let mut i: usize = 0;
        let mut stop = false;
        while i < moves.len() && !stop
            invariant
                board.inv(),
                board@ == p,
                wf_pos(p),
                self.inv(),
                self.nodes() >= old(self).nodes(),
                depth > 0,
                i <= moves@.len(),
                moves@ == legal_moves(p),
                forall|j: int| 0 <= j < moves@.len() ==> fits(p.board, p.turn, #[trigger] moves@[j]),
                ({
                    let cur = LoopState { best, best_move, alpha: alpha_w, beta: beta_w, table: self.tt@ };
                    &&& !stop ==> ab_loop(p, moves@, 0, depth, maximizing, init) == ab_loop(p, moves@, i as int, depth, maximizing, cur)
                    &&& stop ==> ab_loop(p, moves@, 0, depth, maximizing, init) == cur
                }),
            decreases moves@.len() - i + if stop { 0int } else { 1int },
        {
            let m = moves[i];
            assert(fits(p.board, p.turn, moves@[i as int]));
            board.make_move(&m);
            let eval = self.minimax(board, depth - 1, alpha_w, beta_w, !maximizing);
            board.undo_move();
            proof {
                lemma_make_undo_round_trip(p, m);
            }
            let better = if maximizing { eval > best } else { eval < best };
            if better {
                best = eval;
                best_move = Some(encode_move(m.from, m.to));
            }
            if maximizing && eval > alpha_w {
                alpha_w = eval;
            }
            if !maximizing && eval < beta_w {
                beta_w = eval;
            }
            if beta_w <= alpha_w {
                stop = true;
            } else {
                i = i + 1;
            }
        }
        let bound = if best <= alpha {
            BoundType::UpperBound
        } else if best >= beta_w {
            BoundType::LowerBound
        } else {
            BoundType::Exact
        };
        self.tt.store(hash, depth, best, bound, best_move);
        best
    }

    /// Searches every legal root move to `depth` plies and keeps the best for
    /// the side to move (White maximizes, Black minimizes), then records it in the table.
    #[verifier::rlimit(60)]
    pub fn find_best_move(&mut self, board: &mut Board, depth: u8) -> (r: SearchResult)
        requires
            old(board).inv(),
            old(self).inv(),
            depth >= 1,
        ensures
            final(board).inv(),
            final(board)@ == old(board)@,
            final(self).inv(),
            r.best_move is None <==> legal_moves(old(board)@).len() == 0,
            r.best_move is Some ==> legal_moves(old(board)@).contains(r.best_move->0),
            r.best_move is Some ==> fits(old(board)@.board, old(board)@.turn, r.best_move->0),
            r.best_move is Some ==> ({
                let ms = legal_moves(old(board)@);
                let white = old(board)@.turn == Color::White;
                let fin = root_loop(old(board)@, ms, 0, depth, white, if white { i32::MIN } else { i32::MAX }, 0, old(self).table()@);
                &&& r.evaluation == fin.0
                &&& r.best_move->0 == ms[fin.1]
                &&& final(self).table()@ == store_spec(fin.2, old(board)@.hash, depth, fin.0, BoundType::Exact,
                    Some((ms[fin.1].from + 64 * ms[fin.1].to) as u16))
            }),
    {
        let start = now();
        self.nodes_evaluated = 0;
        let ghost p = board@;
        let ghost t0 = self.tt@;
        let color = board.get_turn();
        let moves = self.move_generator.get_legal_moves(board, color);
        if moves.len() == 0 {
            return SearchResult { best_move: None, evaluation: 0, nodes: 0, time_ms: 0 };
        }
        let white = color.is_white();
        let mut best_idx: usize = 0;
        let mut best_eval: i32 = if white { i32::MIN } else { i32::MAX };
        let mut i: usize = 0;
        while i < moves.len()
            invariant
                board.inv(),
                board@ == p,
                wf_pos(p),
                self.inv(),
                moves@ == legal_moves(p),
                moves@.len() > 0,
                depth >= 1,
                white == (p.turn == Color::White),
                i <= moves@.len(),
                best_idx < moves@.len(),
                forall|j: int| 0 <= j < moves@.len() ==> fits(p.board, p.turn, #[trigger] moves@[j]),
                root_loop(p, moves@, 0, depth, white, if white { i32::MIN } else { i32::MAX }, 0, t0)
                    == root_loop(p, moves@, i as int, depth, white, best_eval, best_idx as int, self.tt@),
            decreases moves@.len() - i,
        {
            let m = moves[i];
            assert(fits(p.board, p.turn, moves@[i as int]));
            board.make_move(&m);
            let eval = self.minimax(board, depth - 1, i32::MIN, i32::MAX, !white);
            board.undo_move();
            proof {
                lemma_make_undo_round_trip(p, m);
            }
            if (white && eval > best_eval) || (!white && eval < best_eval) {
                best_eval = eval;
                best_idx = i;
            }
            i = i + 1;
        }
        let elapsed = elapsed_since(&start);
        let best = moves[best_idx];
        assert(moves@[best_idx as int] == best);
        assert(fits(p.board, p.turn, moves@[best_idx as int]));
        let root_key = board.get_hash();
        self.tt.store(root_key, depth, best_eval, BoundType::Exact, Some(encode_move(best.from, best.to)));
        SearchResult {
            best_move: Some(best),
            evaluation: best_eval,
            nodes: self.nodes_evaluated,
            time_ms: whole_millis(&elapsed),
        }
    }
}

/// Running state of a node's move loop: best score and move so far, the
/// window, and the table.
pub struct LoopState {
    pub best: i32,
    pub best_move: Option<u16>,
    pub alpha: i32,
    pub beta: i32,
    pub table: TTView,
}

/// The window after a table entry deep enough for the node narrows it.
pub open spec fn tt_window(e: TTEntry, alpha: i32, beta: i32) -> (i32, i32) {
    match e.bound {
        BoundType::LowerBound => (if e.score > alpha { e.score } else { alpha }, beta),
        BoundType::UpperBound => (alpha, if e.score < beta { e.score } else { beta }),
        BoundType::Exact => (alpha, beta),
    }
}

/// Score of a position without legal moves: mated (from the maximizer's
/// side) or stalemate.
pub open spec fn terminal_score(p: Pos, maximizing: bool) -> i32 {
    if in_check(p.board, p.turn) {
        if maximizing { (-(MATE_SCORE as int)) as i32 } else { MATE_SCORE }
    } else {
        0
    }
}

pub open spec fn encoded(m: Move) -> u16 {
    (m.from + 64 * m.to) as u16
}

/// Score and table after searching `p` to `depth` in the window
/// `(alpha, beta)`: draws score 0; a table entry of at least that depth
/// answers (exact) or narrows the window (bounds); depth 0 evaluates; a
/// position without moves is mate or stalemate; otherwise the moves are
/// searched in turn until the window closes, and the result is stored with
/// the bound it has against the entry `alpha` and the final `beta`.
pub open spec fn ab_node(p: Pos, t: TTView, depth: u8, alpha: i32, beta: i32, maximizing: bool) -> (i32, TTView)
    decreases depth, 1int, 0int,
{
    if draw_spec(p) {
        (0, t)
    } else {
        let pr = probe_spec(t, p.hash);
        let deep = pr is Some && pr->0.depth >= depth;
        if deep && pr->0.bound == BoundType::Exact {
            (pr->0.score, t)
        } else {
            let w = if deep { tt_window(pr->0, alpha, beta) } else { (alpha, beta) };
            if deep && w.0 >= w.1 {
                (pr->0.score, t)
            } else if depth == 0 {
                let s = simple_eval(p.board) as i32;
                (s, store_spec(t, p.hash, 0, s, BoundType::Exact, None))
            } else {
                let ms = legal_moves(p);
                if ms.len() == 0 {
                    let s = terminal_score(p, maximizing);
                    (s, store_spec(t, p.hash, depth, s, BoundType::Exact, None))
                } else {
                    let init = LoopState {
                        best: if maximizing { i32::MIN } else { i32::MAX },
                        best_move: None,
                        alpha: w.0,
                        beta: w.1,
                        table: t,
                    };
                    let fin = ab_loop(p, ms, 0, depth, maximizing, init);
                    let bound = if fin.best <= alpha {
                        BoundType::UpperBound
                    } else if fin.best >= fin.beta {
                        BoundType::LowerBound
                    } else {
                        BoundType::Exact
                    };
                    (fin.best, store_spec(fin.table, p.hash, depth, fin.best, bound, fin.best_move))
                }
            }
        }
    }
}

/// The move loop of a node from move `i` on.
pub open spec fn ab_loop(p: Pos, ms: Seq<Move>, i: int, depth: u8, maximizing: bool, st: LoopState) -> LoopState
    decreases depth, 0int, ms.len() - i,
{
    if i >= ms.len() || i < 0 || depth == 0 {
        st
    } else {
        let m = ms[i];
        let (v, t2) = ab_node(make_spec(p, m), st.table, (depth - 1) as u8, st.alpha, st.beta, !maximizing);
        let better = if maximizing { v > st.best } else { v < st.best };
        let st2 = LoopState {
            best: if better { v } else { st.best },
            best_move: if better { Some(encoded(m)) } else { st.best_move },
            alpha: if maximizing && v > st.alpha { v } else { st.alpha },
            beta: if !maximizing && v < st.beta { v } else { st.beta },
            table: t2,
        };
        if st2.beta <= st2.alpha {
            st2
        } else {
            ab_loop(p, ms, i + 1, depth, maximizing, st2)
        }
    }
}

/// The root loop from move `i` on: best score, index of its move, and the table.
pub open spec fn root_loop(p: Pos, ms: Seq<Move>, i: int, depth: u8, white: bool, best: i32, idx: int, t: TTView) -> (i32, int, TTView)
    decreases ms.len() - i,
{
    if i >= ms.len() || i < 0 || depth == 0 {
        (best, idx, t)
    } else {
        let (v, t2) = ab_node(make_spec(p, ms[i]), t, (depth - 1) as u8, i32::MIN, i32::MAX, !white);
        let better = if white { v > best } else { v < best };
        root_loop(p, ms, i + 1, depth, white, if better { v } else { best }, if better { i } else { idx }, t2)
    }
}

} // verus!
