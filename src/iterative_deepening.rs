use vstd::prelude::*;

use crate::ai::{AI, MATE_SCORE};
use crate::board::Board;
use crate::move_generator::{MoveGenerator, legal_moves};
use crate::position::{Pos, consistent, make_spec};
use crate::time_manager::{TimeControl, TimeManager, continue_spec};
use crate::transposition_table::{TTView, TranspositionTable, decode_move, encode_move, probe_spec};
use crate::types::{Move, algebraic, square_to_algebraic};

verus! {

pub const MAX_DEPTH: u8 = 100;

/// Outcome of iterative deepening, with one report per completed depth.
pub struct IterativeDeepeningResult {
    pub best_move: Option<Move>,
    pub best_score: i32,
    pub depth_reached: u8,
    pub info: Vec<InfoLine>,
}

/// What `info depth <d> score cp <s> nodes <n> time <ms> pv <pv>` reports.
pub struct InfoLine {
    pub depth: u8,
    pub score: i32,
    pub nodes: u64,
    pub time_ms: u64,
    pub pv: Vec<String>,
}

/// Name `<from><to>` of an encoded move.
pub open spec fn encoded_name(e: u16) -> Seq<char> {
    algebraic((e % 64) as int) + algebraic(((e / 64) % 64) as int)
}

fn encoded_to_string(e: u16) -> (s: String)
    ensures
        s@ == encoded_name(e),
{
    let (from, to) = decode_move(e);
    let mut s = square_to_algebraic(from);
    let t = square_to_algebraic(to);
    let ghost s0 = s@;
    let mut i: usize = 0;
    let n = t.as_str().unicode_len();
    while i < n
        invariant
            i <= n,
            n == t@.len(),
            s@ == s0 + t@.take(i as int),
        decreases n - i,
    {
        crate::text::push_char(&mut s, t.as_str().get_char(i));
        assert(t@.take(i as int + 1) =~= t@.take(i as int).push(t@[i as int]));
        i = i + 1;
    }
    assert(t@.take(n as int) =~= t@);
    s
}

fn contains_hash(seen: &Vec<u64>, h: u64) -> (r: bool)
    ensures
        r == seen@.contains(h),
{
    let mut i: usize = 0;
    while i < seen.len()
        invariant
            i <= seen@.len(),
            forall|j: int| 0 <= j < i ==> seen@[j] != h,
        decreases seen@.len() - i,
    {
        if seen[i] == h {
            assert(seen@[i as int] == h);
            return true;
        }
        i = i + 1;
    }
    false
}

/// The first move of `ms`, from index `i` on, going from `from` to `to`.
pub open spec fn first_from_to(ms: Seq<Move>, i: int, from: int, to: int) -> Option<Move>
    decreases ms.len() - i,
{
    if i < 0 || i >= ms.len() {
        None
    } else if ms[i].from == from && ms[i].to == to {
        Some(ms[i])
    } else {
        first_from_to(ms, i + 1, from, to)
    }
}

/// The table's move for `p` (encoded) and the legal move it names, unless `p`
/// was already seen, the table has no entry or no move for it, or no legal
/// move has those squares.
pub open spec fn pv_move(p: Pos, t: TTView, seen: Seq<u64>) -> Option<(u16, Move)> {
    if seen.contains(p.hash) {
        None
    } else {
        match probe_spec(t, p.hash) {
            None => None,
            Some(e) => match e.best_move {
                None => None,
                Some(enc) => match first_from_to(legal_moves(p), 0, (enc % 64) as int, ((enc / 64) % 64) as int) {
                    Some(m) => Some((enc, m)),
                    None => None,
                },
            },
        }
    }
}

/// The principal variation: the names of the table's moves followed from `p`
/// for at most `depth` plies.
pub open spec fn pv_spec(p: Pos, t: TTView, depth: nat, seen: Seq<u64>) -> Seq<Seq<char>>
    decreases depth,
{
    if depth == 0 {
        Seq::empty()
    } else {
        match pv_move(p, t, seen) {
            None => Seq::empty(),
            Some((enc, m)) => seq![encoded_name(enc)] + pv_spec(make_spec(p, m), t, (depth - 1) as nat, seen.push(p.hash)),
        }
    }
}

/// The table's best move for the current position, named and found among the
/// legal moves, unless the position was seen or the table has no move for it.
#[verifier::rlimit(50)]
fn pv_step(mg: &MoveGenerator, board: &mut Board, tt: &TranspositionTable, seen: &Vec<u64>) -> (r: Option<(String, Move)>)
    requires
        old(board).inv(),
        tt.wf(),
    ensures
        final(board).inv(),
        final(board)@ == old(board)@,
        r is Some ==> consistent(old(board)@, (r->0).1),
        pv_move(old(board)@, tt@, seen@) is None ==> r is None,
        pv_move(old(board)@, tt@, seen@) is Some ==> r is Some && (r->0).1 == (pv_move(old(board)@, tt@, seen@)->0).1
            && (r->0).0@ == encoded_name((pv_move(old(board)@, tt@, seen@)->0).0),
{
    let hash = board.get_hash();
    if contains_hash(seen, hash) {
        return None;
    }
    let encoded = match tt.probe(hash) {
        None => {
            return None;
        },
        Some(entry) => match entry.best_move {
            None => {
                return None;
            },
            Some(e) => e,
        },
    };
    let (from, to) = decode_move(encoded);
    let turn = board.get_turn();
    let legal = mg.get_legal_moves(board, turn);
    let ghost p = old(board)@;
    let mut k: usize = 0;
    let mut found: Option<Move> = None;
    while k < legal.len() && found.is_none()
        invariant
            k <= legal@.len(),
            legal@ == legal_moves(p),
            forall|i: int| 0 <= i < legal@.len() ==> crate::position::fits(p.board, turn, #[trigger] legal@[i]),
            found is Some ==> crate::position::fits(p.board, turn, found->0),
            found is None ==> first_from_to(legal@, 0, from as int, to as int) == first_from_to(legal@, k as int, from as int, to as int),
            found is Some ==> first_from_to(legal@, 0, from as int, to as int) == found,
        decreases legal@.len() - k + if found is Some { 0int } else { 1int },
    {
        let m = legal[k];
        assert(legal@[k as int] == m);
        if m.from == from && m.to == to {
            found = Some(m);
        } else {
            k = k + 1;
        }
    }
    match found {
        Some(m) => Some((encoded_to_string(encoded), m)),
        None => None,
    }
}

/// Follows the best moves stored in the table from the position, for at most
/// `depth` plies, stopping at a missing entry or move, a move that is not
/// legal, or a repeated position; the moves are played on a scratch copy of the board.
pub fn extract_pv(board: &Board, tt: &TranspositionTable, depth: u8) -> (r: Vec<String>)
    requires
        board.inv(),
        tt.wf(),
    ensures
        r@.len() == pv_spec(board@, tt@, depth as nat, Seq::empty()).len(),
        forall|i: int| 0 <= i < r@.len() ==> (#[trigger] r@[i])@ == pv_spec(board@, tt@, depth as nat, Seq::empty())[i],
        r@.len() <= depth,
{
    let ghost target = pv_spec(board@, tt@, depth as nat, Seq::empty());
    let mg = MoveGenerator::new();
    let mut scratch = board.duplicate();
    let mut pv: Vec<String> = Vec::new();
    let ghost mut names: Seq<Seq<char>> = Seq::empty();
    let mut seen: Vec<u64> = Vec::new();
    let mut current_depth = depth;
    let mut done = false;
    while current_depth > 0 && !done
        invariant
            scratch.inv(),
            tt.wf(),
            pv@.len() == names.len(),
            forall|i: int| 0 <= i < pv@.len() ==> (#[trigger] pv@[i])@ == names[i],
            names.len() + current_depth <= depth,
            !done ==> names + pv_spec(scratch@, tt@, current_depth as nat, seen@) == target,
            done ==> names == target,
        decreases current_depth + if done { 0int } else { 1int },
    {
        let hash = scratch.get_hash();
        let ghost q = scratch@;
        let ghost sn = seen@;
        match pv_step(&mg, &mut scratch, tt, &seen) {
            None => {
                assert(pv_spec(q, tt@, current_depth as nat, sn) =~= Seq::<Seq<char>>::empty());
                assert(names =~= target);
                done = true;
            },
            Some((name, m)) => {
                proof {
                    names = names.push(name@);
                }
                seen.push(hash);
                pv.push(name);
                scratch.make_move(&m);
                assert(seen@ == sn.push(q.hash));
                current_depth = current_depth - 1;
            },
        }
    }
    if !done {
        assert(pv_spec(scratch@, tt@, 0, seen@) =~= Seq::<Seq<char>>::empty());
        assert(names =~= target);
    }
    pv
}

/// One completed iteration at `depth`: the best move, its score and the report,
/// or `None` when the position has no legal move.
fn search_iteration(board: &mut Board, depth: u8, time_manager: &TimeManager, ai: &mut AI) -> (r: Option<(Move, i32, InfoLine)>)
    requires
        old(board).inv(),
        old(ai).inv(),
        depth >= 1,
    ensures
        final(board).inv(),
        final(board)@ == old(board)@,
        final(ai).inv(),
        r is Some ==> crate::position::fits(old(board)@.board, old(board)@.turn, (r->0).0),
        r is Some ==> legal_moves(old(board)@).contains((r->0).0),
        r is Some ==> (r->0).2.depth == depth,
        r is None <==> legal_moves(old(board)@).len() == 0,
{
    let result = ai.find_best_move(board, depth);
    match result.best_move {
        Some(m) => {
            let pv = extract_pv(board, ai.get_tt(), depth);
            let line = InfoLine {
                depth,
                score: result.evaluation,
                nodes: result.nodes,
                time_ms: time_manager.elapsed_ms(),
                pv,
            };
            Some((m, result.evaluation, line))
        },
        None => None,
    }
}

/// A score that only a forced mate gives.
pub open spec fn is_mate_score(s: i32) -> bool {
    s >= MATE_SCORE - MAX_DEPTH || s <= -(MATE_SCORE - MAX_DEPTH)
}

/// The depth iterative deepening reaches when nothing stops it early.
pub open spec fn depth_limit(tc: TimeControl, max_depth: u8) -> int {
    match tc {
        TimeControl::Depth(n) => if n < max_depth { n as int } else { max_depth as int },
        _ => max_depth as int,
    }
}

/// The time manager cannot stop the search on time, and a depth limit, if
/// any, asks for at least one iteration.
pub open spec fn untimed(tm: TimeManager) -> bool {
    &&& tm.allocated() is None
    &&& tm.hard_max() is None
    &&& match tm.control() {
        TimeControl::Depth(n) => n >= 1,
        _ => true,
    }
}

/// Searches at depth 1, 2, ... up to `max_depth` while the time manager
/// allows, keeping the result of the last completed iteration and a report
/// for each; stops early once a mate score is found. The board comes back unchanged.
#[verifier::rlimit(100)]
pub fn iterative_deepening(
    board: &mut Board,
    max_depth: u8,
    time_manager: &mut TimeManager,
    ai: &mut AI,
) -> (r: IterativeDeepeningResult)
    requires
        old(board).inv(),
        old(ai).inv(),
        old(time_manager).changes() < usize::MAX - 600,
    ensures
        final(board).inv(),
        final(board)@ == old(board)@,
        final(ai).inv(),
        r.depth_reached <= max_depth,
        r.info@.len() == r.depth_reached,
        forall|i: int| 0 <= i < r.info@.len() ==> (#[trigger] r.info@[i]).depth == i + 1,
        r.best_move is Some ==> crate::position::fits(old(board)@.board, old(board)@.turn, r.best_move->0),
        r.best_move is Some ==> legal_moves(old(board)@).contains(r.best_move->0),
        r.best_move is None ==> r.depth_reached == 0,
        untimed(*old(time_manager)) && max_depth >= 1 && legal_moves(old(board)@).len() > 0 ==> {
            &&& r.best_move is Some
            &&& r.depth_reached >= 1
            &&& !is_mate_score(r.best_score) ==> r.depth_reached == depth_limit(old(time_manager).control(), max_depth)
        },
{
    let ghost quiet = untimed(*time_manager) && max_depth >= 1 && legal_moves(board@).len() > 0;
    let ghost limit = depth_limit(time_manager.control(), max_depth);
    let ghost p = board@;
    let mut best_move: Option<Move> = None;
    let mut best_score: i32 = 0;
    let mut depth_reached: u8 = 0;
    let mut info: Vec<InfoLine> = Vec::new();
    let mut depth: u8 = 1;
    let mut done = false;
    while depth <= max_depth && !done
        invariant
            board.inv(),
            board@ == p,
            ai.inv(),
            1 <= depth,
            depth_reached <= depth,
            depth_reached <= max_depth,
            !done ==> depth_reached == depth - 1,
            time_manager.changes() <= old(time_manager).changes() + 2 * depth,
            !done ==> time_manager.changes() <= old(time_manager).changes() + 2 * (depth - 1),
            old(time_manager).changes() < usize::MAX - 600,
            info@.len() == depth_reached,
            best_move is Some ==> crate::position::fits(p.board, p.turn, best_move->0),
            best_move is Some ==> legal_moves(p).contains(best_move->0),
            best_move is None ==> depth_reached == 0,
            forall|i: int| 0 <= i < info@.len() ==> (#[trigger] info@[i]).depth == i + 1,
            time_manager.control() == old(time_manager).control(),
            time_manager.allocated() == old(time_manager).allocated(),
            time_manager.hard_max() == old(time_manager).hard_max(),
            quiet == (untimed(*old(time_manager)) && max_depth >= 1 && legal_moves(p).len() > 0),
            limit == depth_limit(old(time_manager).control(), max_depth),
            quiet && !done ==> depth - 1 <= limit,
            limit <= max_depth,
            quiet && done ==> best_move is Some && depth_reached >= 1 && (is_mate_score(best_score) || depth_reached == limit),
        decreases 256 - depth + if done { 0int } else { 1int },
    {
        if time_manager.should_stop() || !time_manager.should_continue_iteration(depth - 1) {
            done = true;
        } else {
            let found = search_iteration(board, depth, time_manager, ai);
            if time_manager.search_was_interrupted() {
                done = true;
            } else {
                match found {
                    Some((m, score, line)) => {
                        best_move = Some(m);
                        best_score = score;
                        depth_reached = depth;
                        info.push(line);
                        let encoded = encode_move(m.from, m.to);
                        time_manager.report_iteration(depth, score, Some(encoded));
                        if score >= MATE_SCORE - MAX_DEPTH as i32 || score <= -(MATE_SCORE - MAX_DEPTH as i32) {
                            done = true;
                        }
                    },
                    None => {
                        done = true;
                    },
                }
            }
        }
        if !done {
            if depth == 255 {
                done = true;
            } else {
                depth = depth + 1;
            }
        }
    }
    assert(quiet && !done ==> depth_reached == limit);
    IterativeDeepeningResult { best_move, best_score, depth_reached, info }
}

} // verus!
