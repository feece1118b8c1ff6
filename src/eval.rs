use vstd::prelude::*;

pub mod tables;
pub mod tapered;
pub mod mobility;
pub mod pawn_structure;
pub mod king_safety;
pub mod positional;

use crate::board::Board;
use crate::types::{Color, Piece, PieceType, value_of};
use crate::eval::tables::pst;
use crate::eval::tapered::blend;

verus! {

pub open spec fn phase_weight(t: PieceType) -> int {
    match t {
        PieceType::Knight => 1,
        PieceType::Bishop => 1,
        PieceType::Rook => 2,
        PieceType::Queen => 4,
        _ => 0,
    }
}

/// Phase weights of the pieces on squares below `n`.
pub open spec fn phase_sum(b: Seq<Option<Piece>>, n: int) -> int
    decreases n,
{
    if n <= 0 {
        0
    } else {
        phase_sum(b, n - 1) + match b[n - 1] {
            Some(p) => phase_weight(p.piece_type),
            None => 0,
        }
    }
}

/// Game phase: piece weights summed and clamped to 24.
pub open spec fn phase_of(b: Seq<Option<Piece>>) -> int {
    if phase_sum(b, 64) < 24 { phase_sum(b, 64) } else { 24 }
}

/// Material plus piece-square bonuses of the squares below `n`, White minus Black.
pub open spec fn material_pst(b: Seq<Option<Piece>>, mg: bool, n: int) -> int
    decreases n,
{
    if n <= 0 {
        0
    } else {
        material_pst(b, mg, n - 1) + match b[n - 1] {
            Some(p) => {
                let v = value_of(p.piece_type) + pst(mg, p.piece_type, p.color, n - 1);
                if p.color == Color::White { v } else { -v }
            },
            None => 0,
        }
    }
}

/// The rich evaluation from White's view.
pub open spec fn rich_eval(b: Seq<Option<Piece>>) -> int {
    blend(material_pst(b, true, 64), material_pst(b, false, 64), phase_of(b))
        + mobility::mobility_upto(b, 64)
        + (pawn_structure::color_score(b, Color::White, 64) - pawn_structure::color_score(b, Color::Black, 64))
        + (king_safety::king_safety_of(b, Color::White) - king_safety::king_safety_of(b, Color::Black))
        + (positional::positional_of(b, Color::White) - positional::positional_of(b, Color::Black))
}

/// Tapered evaluator: material and piece-square tables blended by phase, plus
/// mobility, pawn structure, king safety and positional terms.
pub struct RichEvaluator;

impl RichEvaluator {
    pub fn new() -> (r: RichEvaluator) {
        RichEvaluator
    }

    fn compute_phase(&self, board: &Board) -> (r: i32)
        requires
            board.inv(),
        ensures
            r == phase_of(board@.board),
            0 <= r <= 24,
    {
        let mut phase: i32 = 0;
        let mut sq: usize = 0;
        while sq < 64
            invariant
                board.inv(),
                sq <= 64,
                phase == phase_sum(board@.board, sq as int),
                0 <= phase <= 4 * sq,
            decreases 64 - sq,
        {
            match board.get_piece(sq) {
                Some(p) => {
                    phase = phase + match p.piece_type {
                        PieceType::Knight => 1,
                        PieceType::Bishop => 1,
                        PieceType::Rook => 2,
                        PieceType::Queen => 4,
                        _ => 0,
                    };
                },
                None => {},
            }
            sq = sq + 1;
        }
        if phase < 24 { phase } else { 24 }
    }

    fn evaluate_phase(&self, board: &Board, middlegame: bool) -> (r: i32)
        requires
            board.inv(),
        ensures
            r == material_pst(board@.board, middlegame, 64),
            -20100 * 64 <= r <= 20100 * 64,
    {
        let mut score: i32 = 0;
        let mut sq: usize = 0;
        while sq < 64
            invariant
                board.inv(),
                sq <= 64,
                score == material_pst(board@.board, middlegame, sq as int),
                -20100 * sq <= score <= 20100 * sq,
            decreases 64 - sq,
        {
            match board.get_piece(sq) {
                Some(p) => {
                    let v = p.piece_type.value() + tables::bonus(middlegame, p.piece_type, p.color, sq);
                    if p.color.is_white() {
                        score = score + v;
                    } else {
                        score = score - v;
                    }
                },
                None => {},
            }
            sq = sq + 1;
        }
        score
    }

    /// The rich evaluation of the position, from White's view.
    pub fn evaluate(&self, board: &Board) -> (r: i32)
        requires
            board.inv(),
        ensures
            r == rich_eval(board@.board),
    {
        let phase = self.compute_phase(board);
        let mg = self.evaluate_phase(board, true);
        let eg = self.evaluate_phase(board, false);
        let tapered = tapered::interpolate(mg, eg, phase);
        assert(-20100 * 64 <= tapered <= 20100 * 64) by {
            assert(blend(mg as int, eg as int, phase as int) <= 20100 * 64) by (nonlinear_arith)
                requires
                    -20100 * 64 <= mg <= 20100 * 64,
                    -20100 * 64 <= eg <= 20100 * 64,
                    0 <= phase <= 24,
            {
            }
            assert(blend(mg as int, eg as int, phase as int) >= -20100 * 64) by (nonlinear_arith)
                requires
                    -20100 * 64 <= mg <= 20100 * 64,
                    -20100 * 64 <= eg <= 20100 * 64,
                    0 <= phase <= 24,
            {
            }
        }
        let m = mobility::evaluate(board);
        let p = pawn_structure::evaluate(board);
        let k = king_safety::evaluate(board);
        let s = positional::evaluate(board);
        tapered + m + p + k + s
    }
}

} // verus!
