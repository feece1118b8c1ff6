use vstd::prelude::*;

use crate::board::Board;
use crate::move_generator::{MoveGenerator, legal_moves};
use crate::position::{Pos, make_spec, wf_pos, lemma_make_undo_round_trip};
use crate::types::{Move, square_to_algebraic, lower_letter_of};
use crate::text::push_char;

verus! {

pub open spec fn sat_add(a: u64, b: u64) -> u64 {
    if a as int + b as int > u64::MAX as int {
        u64::MAX
    } else {
        (a + b) as u64
    }
}

/// Number of leaf nodes of the legal move tree of depth `d` (saturating at `u64::MAX`).
pub open spec fn perft_spec(p: Pos, d: nat) -> u64
    decreases d, 0nat,
{
    if d == 0 {
        1
    } else {
        perft_list(p, legal_moves(p), (d - 1) as nat)
    }
}

/// Sum of `perft_spec` of depth `d` over the positions reached by the moves of `ms`.
pub open spec fn perft_list(p: Pos, ms: Seq<Move>, d: nat) -> u64
    decreases d, ms.len() + 1,
{
    if ms.len() == 0 {
        0
    } else {
        sat_add(perft_list(p, ms.drop_last(), d), perft_spec(make_spec(p, ms.last()), d))
    }
}

pub struct Perft {
    move_generator: MoveGenerator,
}

impl Perft {
    pub fn new() -> (r: Perft) {
        Perft { move_generator: MoveGenerator::new() }
    }

    /// Counts the leaves of the legal move tree to `depth`; the board comes back unchanged.
    pub fn perft(&self, board: &mut Board, depth: u8) -> (r: u64)
        requires
            old(board).inv(),
        ensures
            final(board).inv(),
            final(board)@ == old(board)@,
            r == perft_spec(old(board)@, depth as nat),
        decreases depth,
    {
        if depth == 0 {
            return 1;
        }
        let ghost p = board@;
        let color = board.get_turn();
        let moves = self.move_generator.get_legal_moves(board, color);
        let mut nodes: u64 = 0;
        let mut i: usize = 0;
        while i < moves.len()
            invariant
                board.inv(),
                board@ == p,
                wf_pos(p),
                depth > 0,
                i <= moves@.len(),
                moves@ == legal_moves(p),
                forall|j: int| 0 <= j < moves@.len() ==> crate::position::fits(p.board, p.turn, #[trigger] moves@[j]),
                nodes == perft_list(p, moves@.take(i as int), (depth - 1) as nat),
            decreases moves@.len() - i,
        {
            let m = moves[i];
            assert(crate::position::fits(p.board, p.turn, moves@[i as int]));
            board.make_move(&m);
            let n = self.perft(board, depth - 1);
            board.undo_move();
            proof {
                lemma_make_undo_round_trip(p, m);
                assert(moves@.take(i as int + 1).drop_last() =~= moves@.take(i as int));
                assert(moves@.take(i as int + 1).last() == m);
            }
            nodes = nodes.saturating_add(n);
            i = i + 1;
        }
        assert(moves@.take(moves@.len() as int) =~= moves@);
        nodes
    }

    /// For each legal move, its long algebraic name and the leaf count below it at `depth - 1`.
    pub fn perft_divide(&self, board: &mut Board, depth: u8) -> (r: Vec<(String, u64)>)
        requires
            old(board).inv(),
            depth >= 1,
        ensures
            final(board).inv(),
            final(board)@ == old(board)@,
            r@.len() == legal_moves(old(board)@).len(),
            forall|i: int| 0 <= i < r@.len() ==> (#[trigger] r@[i]).1 == perft_spec(
                make_spec(old(board)@, legal_moves(old(board)@)[i]),
                (depth - 1) as nat,
            ),
            forall|i: int| 0 <= i < r@.len() ==> (#[trigger] r@[i]).0@ == move_name(
                legal_moves(old(board)@)[i],
            ),
    {
        let ghost p = board@;
        let color = board.get_turn();
        let moves = self.move_generator.get_legal_moves(board, color);
        let mut results: Vec<(String, u64)> = Vec::new();
        let mut i: usize = 0;
        while i < moves.len()
            invariant
                board.inv(),
                board@ == p,
                wf_pos(p),
                depth >= 1,
                i <= moves@.len(),
                moves@ == legal_moves(p),
                forall|j: int| 0 <= j < moves@.len() ==> crate::position::fits(p.board, p.turn, #[trigger] moves@[j]),
                results@.len() == i,
                forall|j: int| 0 <= j < i ==> (#[trigger] results@[j]).1 == perft_spec(make_spec(p, moves@[j]), (depth - 1) as nat),
                forall|j: int| 0 <= j < i ==> (#[trigger] results@[j]).0@ == move_name(moves@[j]),
            decreases moves@.len() - i,
        {
            let m = moves[i];
            assert(crate::position::fits(p.board, p.turn, moves@[i as int]));
            let name = move_to_string(&m);
            board.make_move(&m);
            let n = self.perft(board, depth - 1);
            board.undo_move();
            proof {
                lemma_make_undo_round_trip(p, m);
            }
            results.push((name, n));
            i = i + 1;
        }
        results
    }
}

/// Long algebraic name of a move: `<from><to>` and the lower-case promotion letter.
pub open spec fn move_name(m: Move) -> Seq<char> {
    crate::types::algebraic(m.from as int) + crate::types::algebraic(m.to as int) + match m.promotion {
        Some(t) => seq![lower_letter_of(t)],
        None => Seq::empty(),
    }
}

pub fn move_to_string(m: &Move) -> (s: String)
    requires
        m.from < 64,
        m.to < 64,
    ensures
        s@ == move_name(*m),
{
    let mut s = square_to_algebraic(m.from);
    let to = square_to_algebraic(m.to);
    let ghost s0 = s@;
    let mut i: usize = 0;
    let n = to.as_str().unicode_len();
    while i < n
        invariant
            i <= n,
            n == to@.len(),
            s@ == s0 + to@.take(i as int),
        decreases n - i,
    {
        push_char(&mut s, to.as_str().get_char(i));
        assert(to@.take(i as int + 1) =~= to@.take(i as int).push(to@[i as int]));
        i = i + 1;
    }
    assert(to@.take(n as int) =~= to@);
    match m.promotion {
        Some(t) => push_char(&mut s, t.to_lower_char()),
        None => {},
    }
    assert(s@ =~= move_name(*m));
    s
}

} // verus!
