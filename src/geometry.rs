use vstd::prelude::*;

verus! {

/// A (rank, file) pair lies on the board.
pub open spec fn on_board(r: int, f: int) -> bool {
    0 <= r < 8 && 0 <= f < 8
}

/// Rank step of knight offset `k` (0-7).
pub open spec fn knight_dr(k: int) -> int {
    if k == 0 || k == 1 {
        -2
    } else if k == 2 || k == 3 {
        -1
    } else if k == 4 || k == 5 {
        1
    } else {
        2
    }
}

/// File step of knight offset `k` (0-7).
pub open spec fn knight_df(k: int) -> int {
    if k == 0 || k == 6 {
        -1
    } else if k == 1 || k == 7 {
        1
    } else if k == 2 || k == 4 {
        -2
    } else {
        2
    }
}

/// Rank step of compass direction `d`: North, South, East, West, then
/// North-East, North-West, South-East, South-West.
pub open spec fn dir_dr(d: int) -> int {
    if d == 0 || d == 4 || d == 5 {
        1
    } else if d == 1 || d == 6 || d == 7 {
        -1
    } else {
        0
    }
}

/// File step of compass direction `d`.
pub open spec fn dir_df(d: int) -> int {
    if d == 2 || d == 4 || d == 6 {
        1
    } else if d == 3 || d == 5 || d == 7 {
        -1
    } else {
        0
    }
}

pub fn knight_offset(k: usize) -> (r: (i32, i32))
    requires
        k < 8,
    ensures
        r.0 == knight_dr(k as int),
        r.1 == knight_df(k as int),
{
    if k == 0 {
        (-2, -1)
    } else if k == 1 {
        (-2, 1)
    } else if k == 2 {
        (-1, -2)
    } else if k == 3 {
        (-1, 2)
    } else if k == 4 {
        (1, -2)
    } else if k == 5 {
        (1, 2)
    } else if k == 6 {
        (2, -1)
    } else {
        (2, 1)
    }
}

pub fn dir_offset(d: usize) -> (r: (i32, i32))
    requires
        d < 8,
    ensures
        r.0 == dir_dr(d as int),
        r.1 == dir_df(d as int),
{
    if d == 0 {
        (1, 0)
    } else if d == 1 {
        (-1, 0)
    } else if d == 2 {
        (0, 1)
    } else if d == 3 {
        (0, -1)
    } else if d == 4 {
        (1, 1)
    } else if d == 5 {
        (1, -1)
    } else if d == 6 {
        (-1, 1)
    } else {
        (-1, -1)
    }
}

/// The square at `(r, f)` if it is on the board.
pub fn square_at(r: i32, f: i32) -> (s: Option<usize>)
    ensures
        on_board(r as int, f as int) ==> s == Some((r * 8 + f) as usize),
        !on_board(r as int, f as int) ==> s is None,
{
    if 0 <= r && r < 8 && 0 <= f && f < 8 {
        Some((r * 8 + f) as usize)
    } else {
        None
    }
}

} // verus!
