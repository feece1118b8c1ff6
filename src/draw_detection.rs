use vstd::prelude::*;

use crate::types::GameState;

verus! {

/// Number of indices `i` in `[lo, hi)` with `hashes[i] == h`.
pub open spec fn count_matches(hashes: Seq<u64>, h: u64, lo: int, hi: int) -> nat
    decreases hi - lo,
{
    if hi <= lo {
        0
    } else {
        count_matches(hashes, h, lo, hi - 1) + if hashes[hi - 1] == h { 1nat } else { 0nat }
    }
}

/// First index of the window searched for repetitions: no position before the
/// last irreversible move can recur.
pub open spec fn window_start(len: int, halfmove: u32) -> int {
    if len > halfmove as int {
        len - halfmove as int
    } else {
        0
    }
}

/// The current position has occurred at least twice before within the window.
pub open spec fn repetition_draw(hashes: Seq<u64>, h: u64, halfmove: u32) -> bool {
    hashes.len() > 0 && count_matches(hashes, h, window_start(hashes.len() as int, halfmove), hashes.len() as int) >= 2
}

/// Threefold repetition: the current hash occurs at least twice in the history
/// since the last irreversible move.
pub fn is_draw_by_repetition(state: &GameState) -> (r: bool)
    ensures
        r == repetition_draw(state.position_history@, state.hash, state.halfmove_clock),
{
    let current = state.hash;
    let len = state.position_history.len();
    if len == 0 {
        return false;
    }
    let limit = state.halfmove_clock as usize;
    let start = if len > limit { len - limit } else { 0 };
    let mut count: u64 = 0;
    let mut i = len;
    let ghost hs = state.position_history@;
    while i > start
        invariant
            start <= i <= len,
            len == hs.len(),
            hs == state.position_history@,
            start == window_start(len as int, state.halfmove_clock),
            count as nat + count_matches(hs, current, start as int, i as int) == count_matches(
                hs,
                current,
                start as int,
                len as int,
            ),
            count <= len - i,
        decreases i - start,
    {
        i = i - 1;
        if state.position_history[i] == current {
            count = count + 1;
        }
    }
    count >= 2
}

/// Fifty-move rule: at least 100 plies without a pawn move or a capture.
pub fn is_draw_by_fifty_moves(state: &GameState) -> (r: bool)
    ensures
        r == (state.halfmove_clock >= 100),
{
    state.halfmove_clock >= 100
}

} // verus!
