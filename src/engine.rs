use vstd::prelude::*;

use crate::ai::{AI, SearchResult, simple_eval};
use crate::board::{Board, draw_spec, fresh, is_start};
use crate::fen::{FenParser, fen_of, parse_fen_spec};
use crate::iterative_deepening::{IterativeDeepeningResult, is_mate_score, iterative_deepening};
use crate::move_generator::{MoveGenerator, in_check, legal_moves};
use crate::perft::{Perft, move_name, perft_spec};
use crate::position::{Pos, fits, make_spec, undo_spec};
use crate::time_manager::{TimeControl, TimeManager};
use crate::types::{Color, Move, PieceType, Square, parse_square, type_of_letter};

verus! {

/// Errors reported at the engine's boundary.
#[derive(Debug, Clone, Copy, PartialEq, Eq, Structural)]
pub enum EngineError {
    MalformedFen,
    IllegalMove,
    NoMovesToUndo,
    InvalidMoveText,
}

/// How the game stands for the side to move.
#[derive(Debug, Clone, Copy, PartialEq, Eq, Structural)]
pub enum GameStatus {
    Checkmate { winner: Color },
    Stalemate,
    Draw,
    Ongoing,
}

/// Whether legal move `m` answers a request for `from`, `to` and an optional
/// promotion: a promotion must match the request, or be a queen when none is given.
pub open spec fn answers(m: Move, from: Square, to: Square, promotion: Option<PieceType>) -> bool {
    m.from == from && m.to == to && match m.promotion {
        Some(p) => match promotion {
            Some(q) => p == q,
            None => p == PieceType::Queen,
        },
        None => true,
    }
}

/// The first move of `ms` at or after index `i` that answers the request.
pub open spec fn first_answer(ms: Seq<Move>, i: int, from: Square, to: Square, promotion: Option<PieceType>) -> Option<Move>
    decreases ms.len() - i,
{
    if i >= ms.len() || i < 0 {
        None
    } else if answers(ms[i], from, to, promotion) {
        Some(ms[i])
    } else {
        first_answer(ms, i + 1, from, to, promotion)
    }
}

/// The squares and promotion that long algebraic text such as `e7e8q` names.
pub open spec fn move_text(s: Seq<char>) -> Option<(Square, Square, Option<PieceType>)> {
    if s.len() < 4 || s.len() > 5 {
        None
    } else {
        let from = parse_square(s.subrange(0, 2));
        let to = parse_square(s.subrange(2, 4));
        let promo = if s.len() == 5 { type_of_letter(s[4]) } else { None };
        if from is None || to is None || (s.len() == 5 && promo is None) {
            None
        } else {
            Some((from->0 as Square, to->0 as Square, promo))
        }
    }
}

pub open spec fn status_of(p: Pos, draw: bool) -> GameStatus {
    if legal_moves(p).len() == 0 {
        if in_check(p.board, p.turn) {
            GameStatus::Checkmate { winner: p.turn.opp() }
        } else {
            GameStatus::Stalemate
        }
    } else if draw {
        GameStatus::Draw
    } else {
        GameStatus::Ongoing
    }
}

fn char_square(f: char, r: char) -> (s: Option<Square>)
    ensures
        s is Some <==> parse_square(seq![f, r]) is Some,
        s is Some ==> s->0 as int == parse_square(seq![f, r])->0,
{
    if 'a' <= f && f <= 'h' && '1' <= r && r <= '8' {
        Some(((r as u32 - '1' as u32) * 8 + (f as u32 - 'a' as u32)) as usize)
    } else {
        None
    }
}

/// Reads long algebraic move text.
pub fn parse_move_text(text: &str) -> (r: Option<(Square, Square, Option<PieceType>)>)
    ensures
        r == move_text(text@),
{
    let n = text.unicode_len();
    if n < 4 || n > 5 {
        return None;
    }
    let c0 = text.get_char(0);
    let c1 = text.get_char(1);
    let c2 = text.get_char(2);
    let c3 = text.get_char(3);
    assert(text@.subrange(0, 2) =~= seq![c0, c1]);
    assert(text@.subrange(2, 4) =~= seq![c2, c3]);
    let from = char_square(c0, c1);
    let to = char_square(c2, c3);
    let promo = if n == 5 { PieceType::from_char(text.get_char(4)) } else { None };
    match (from, to) {
        (Some(f), Some(t)) => {
            if n == 5 && promo.is_none() {
                None
            } else {
                Some((f, t, promo))
            }
        },
        _ => None,
    }
}

/// The engine's state and the operations a driver performs on it.
pub struct ChessEngine {
    board: Board,
    move_generator: MoveGenerator,
    fen_parser: FenParser,
    ai: AI,
    perft: Perft,
}

impl ChessEngine {
    pub closed spec fn inv(&self) -> bool {
        self.board.inv() && self.ai.inv()
    }

    pub closed spec fn position(&self) -> Pos {
        self.board@
    }

    pub fn new() -> (r: ChessEngine)
        ensures
            r.inv(),
            is_start(r.position()),
    {
        ChessEngine {
            board: Board::new(),
            move_generator: MoveGenerator::new(),
            fen_parser: FenParser::new(),
            ai: AI::new(),
            perft: Perft::new(),
        }
    }

    pub fn board(&self) -> (r: &Board)
        ensures
            r@ == self.position(),
            self.inv() ==> r.inv(),
    {
        &self.board
    }

    /// Back to the standard starting position.
    pub fn new_game(&mut self)
        requires
            old(self).inv(),
        ensures
            final(self).inv(),
            is_start(final(self).position()),
    {
        self.board.reset();
    }

    pub fn set_position_from_fen(&mut self, fen: &str) -> (r: Result<(), EngineError>)
        requires
            old(self).inv(),
        ensures
            final(self).inv(),
            r is Ok <==> parse_fen_spec(fen@) is Some,
            r is Err ==> r->Err_0 == EngineError::MalformedFen && final(self).position() == old(self).position(),
            r is Ok ==> ({
                let f = parse_fen_spec(fen@)->0;
                final(self).position() == fresh(Pos {
                    board: f.board,
                    turn: f.turn,
                    castling: f.castling,
                    ep: f.ep,
                    halfmove: f.halfmove,
                    fullmove: f.fullmove,
                    ..old(self).position()
                })
            }),
    {
        match self.fen_parser.parse_fen(&mut self.board, fen) {
            Ok(()) => Ok(()),
            Err(_) => Err(EngineError::MalformedFen),
        }
    }

    pub fn export_fen(&self) -> (r: String)
        requires
            self.inv(),
        ensures
            r@ == fen_of(self.position()),
    {
        self.fen_parser.export_fen(&self.board)
    }

    pub fn legal_moves(&mut self) -> (r: Vec<Move>)
        requires
            old(self).inv(),
        ensures
            final(self).inv(),
            final(self).position() == old(self).position(),
            r@ == legal_moves(old(self).position()),
    {
        let turn = self.board.get_turn();
        self.move_generator.get_legal_moves(&mut self.board, turn)
    }

    /// Plays the legal move that answers the request (a queen when a
    /// promotion is needed and none is named); the position is unchanged on error.
    pub fn apply_move(&mut self, from: Square, to: Square, promotion: Option<PieceType>) -> (r: Result<Move, EngineError>)
        requires
            old(self).inv(),
        ensures
            final(self).inv(),
            ({
                let found = first_answer(legal_moves(old(self).position()), 0, from, to, promotion);
                &&& r is Ok <==> found is Some
                &&& r is Ok ==> r->Ok_0 == found->0 && final(self).position() == make_spec(old(self).position(), found->0)
                &&& r is Err ==> r->Err_0 == EngineError::IllegalMove && final(self).position() == old(self).position()
            }),
    {
        let ghost p = self.board@;
        let turn = self.board.get_turn();
        let moves = self.move_generator.get_legal_moves(&mut self.board, turn);
        let mut i: usize = 0;
        let mut found: Option<Move> = None;
        while i < moves.len() && found.is_none()
            invariant
                i <= moves@.len(),
                moves@ == legal_moves(p),
                forall|j: int| 0 <= j < moves@.len() ==> fits(p.board, p.turn, #[trigger] moves@[j]),
                found is None ==> first_answer(moves@, 0, from, to, promotion) == first_answer(moves@, i as int, from, to, promotion),
                found is Some ==> first_answer(moves@, 0, from, to, promotion) == found && fits(p.board, p.turn, found->0),
            decreases moves@.len() - i + if found is Some { 0int } else { 1int },
        {
            let m = moves[i];
            let ok = m.from == from && m.to == to && match m.promotion {
                Some(pt) => match promotion {
                    Some(q) => pt == q,
                    None => pt == PieceType::Queen,
                },
                None => true,
            };
            assert(moves@[i as int] == m);
            if ok {
                found = Some(m);
            } else {
                i = i + 1;
            }
        }
        match found {
            Some(m) => {
                self.board.make_move(&m);
                Ok(m)
            },
            None => Err(EngineError::IllegalMove),
        }
    }

    /// Plays a move given as long algebraic text.
    pub fn apply_move_text(&mut self, text: &str) -> (r: Result<Move, EngineError>)
        requires
            old(self).inv(),
        ensures
            final(self).inv(),
            move_text(text@) is None ==> r == Err::<Move, EngineError>(EngineError::InvalidMoveText)
                && final(self).position() == old(self).position(),
            move_text(text@) is Some ==> ({
                let (f, t, pr) = move_text(text@)->0;
                let found = first_answer(legal_moves(old(self).position()), 0, f, t, pr);
                &&& r is Ok <==> found is Some
                &&& r is Ok ==> r->Ok_0 == found->0 && final(self).position() == make_spec(old(self).position(), found->0)
                &&& r is Err ==> final(self).position() == old(self).position()
            }),
    {
        match parse_move_text(text) {
            None => Err(EngineError::InvalidMoveText),
            Some((f, t, pr)) => self.apply_move(f, t, pr),
        }
    }

    /// Takes back the last move.
    pub fn undo(&mut self) -> (r: Result<Move, EngineError>)
        requires
            old(self).inv(),
        ensures
            final(self).inv(),
            old(self).position().moves.len() == 0 ==> r == Err::<Move, EngineError>(EngineError::NoMovesToUndo)
                && final(self).position() == old(self).position(),
            old(self).position().moves.len() > 0 ==> r == Ok::<Move, EngineError>(old(self).position().moves.last())
                && final(self).position() == undo_spec(old(self).position()),
    {
        match self.board.undo_move() {
            Some(m) => Ok(m),
            None => Err(EngineError::NoMovesToUndo),
        }
    }

    /// Checkmate, stalemate, draw, or a game in progress.
    pub fn status(&mut self) -> (r: GameStatus)
        requires
            old(self).inv(),
        ensures
            final(self).inv(),
            final(self).position() == old(self).position(),
            r == status_of(old(self).position(), draw_spec(old(self).position())),
    {
        let turn = self.board.get_turn();
        let moves = self.move_generator.get_legal_moves(&mut self.board, turn);
        if moves.len() == 0 {
            if self.move_generator.is_in_check(&self.board, turn) {
                GameStatus::Checkmate { winner: turn.opposite() }
            } else {
                GameStatus::Stalemate
            }
        } else if self.board.is_draw() {
            GameStatus::Draw
        } else {
            GameStatus::Ongoing
        }
    }

    /// Best move found by a fixed-depth search; the position is left as it was.
    pub fn search_depth(&mut self, depth: u8) -> (r: SearchResult)
        requires
            old(self).inv(),
            depth >= 1,
        ensures
            final(self).inv(),
            final(self).position() == old(self).position(),
            r.best_move is None <==> legal_moves(old(self).position()).len() == 0,
            r.best_move is Some ==> legal_moves(old(self).position()).contains(r.best_move->0),
    {
        self.ai.find_best_move(&mut self.board, depth)
    }

    /// Iterative deepening under a time control; the position is left as it was.
    pub fn search(&mut self, time_control: TimeControl) -> (r: IterativeDeepeningResult)
        requires
            old(self).inv(),
        ensures
            final(self).inv(),
            final(self).position() == old(self).position(),
            r.best_move is Some ==> fits(old(self).position().board, old(self).position().turn, r.best_move->0),
            r.best_move is Some ==> legal_moves(old(self).position()).contains(r.best_move->0),
            forall|i: int| 0 <= i < r.info@.len() ==> (#[trigger] r.info@[i]).depth == i + 1,
            (time_control is Depth && time_control->Depth_0 >= 1 || time_control is Infinite)
                && legal_moves(old(self).position()).len() > 0 ==> {
                &&& r.best_move is Some
                &&& r.depth_reached >= 1
                &&& !is_mate_score(r.best_score) ==> r.depth_reached == match time_control {
                    TimeControl::Depth(d) => d,
                    _ => 100u8,
                }
            },
    {
        let max_depth: u8 = match time_control {
            TimeControl::Depth(d) => d,
            _ => 100,
        };
        let white = self.board.get_turn().is_white();
        let move_number = self.board.get_state().fullmove_number as usize;
        let mut tm = TimeManager::new(time_control, move_number, white);
        self.ai.new_search();
        iterative_deepening(&mut self.board, max_depth, &mut tm, &mut self.ai)
    }

    pub fn perft(&mut self, depth: u8) -> (r: u64)
        requires
            old(self).inv(),
        ensures
            final(self).inv(),
            final(self).position() == old(self).position(),
            r == perft_spec(old(self).position(), depth as nat),
    {
        self.perft.perft(&mut self.board, depth)
    }

    pub fn perft_divide(&mut self, depth: u8) -> (r: Vec<(String, u64)>)
        requires
            old(self).inv(),
            depth >= 1,
        ensures
            final(self).inv(),
            final(self).position() == old(self).position(),
            r@.len() == legal_moves(old(self).position()).len(),
            forall|i: int| 0 <= i < r@.len() ==> (#[trigger] r@[i]).1 == perft_spec(
                make_spec(old(self).position(), legal_moves(old(self).position())[i]),
                (depth - 1) as nat,
            ),
            forall|i: int| 0 <= i < r@.len() ==> (#[trigger] r@[i]).0@ == move_name(
                legal_moves(old(self).position())[i],
            ),
    {
        self.perft.perft_divide(&mut self.board, depth)
    }

    pub fn hash(&self) -> (r: u64)
        requires
            self.inv(),
        ensures
            r == self.position().hash,
    {
        self.board.get_hash()
    }

    pub fn is_draw(&self) -> (r: bool)
        ensures
            r == draw_spec(self.position()),
    {
        self.board.is_draw()
    }

    /// Static evaluation of the simple evaluator, from White's view.
    pub fn evaluate(&self) -> (r: i32)
        requires
            self.inv(),
        ensures
            r as int == simple_eval(self.position().board),
    {
        self.ai.evaluate(&self.board)
    }
}

} // verus!
