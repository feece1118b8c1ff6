use vstd::prelude::*;

use crate::geometry::{on_board, dir_dr, dir_df, knight_dr, knight_df};
use crate::move_generator::{keep_legal, legal_moves, attacked, in_check, king_from, pseudo_moves, pawn_attack, knight_attack, king_attack, slide_attack, holds, is_orth, ray_hit, ray_moves, target_moves, leap_moves, leap_step, leap_dr, leap_df, slide_moves, pseudo_upto, piece_moves, pawn_moves, pawn_push, pawn_capture, pawn_ep, pawn_advance, pawn_dir, castle_moves, castle_kingside, castle_queenside};
use crate::position::{Pos, make_spec};
use crate::types::{CastlingRights, Square};
use crate::types::{Color, Move, Piece, PieceType};

verus! {

/// Coordinate after `n` steps of `d` from `x`.
pub open spec fn walk(x: int, d: int, n: nat) -> int
    decreases n,
{
    if n == 0 {
        x
    } else {
        walk(x, d, (n - 1) as nat) + d
    }
}

proof fn lemma_walk_shift(x: int, d: int, n: nat)
    ensures
        walk(x + d, d, n) == walk(x, d, n + 1),
    decreases n,
{
    assert(walk(x, d, n + 1) == walk(x, d, n) + d);
    if n > 0 {
        lemma_walk_shift(x, d, (n - 1) as nat);
    } else {
        assert(walk(x, d, 0) == x);
    }
}

proof fn lemma_walk_back(x: int, d: int, m: nat, j: nat)
    requires
        j <= m,
    ensures
        walk(walk(x, d, m), -d, j) == walk(x, d, (m - j) as nat),
    decreases j,
{
    if j > 0 {
        lemma_walk_back(x, d, m, (j - 1) as nat);
    }
}

/// The first `n` cells of the line from `(r, f)` lie on the board and are empty.
pub open spec fn clear(b: Seq<Option<Piece>>, r: int, f: int, dr: int, df: int, n: nat) -> bool {
    forall|j: nat|
        j < n ==> on_board(#[trigger] walk(r, dr, j), walk(f, df, j)) && b[walk(r, dr, j) * 8 + walk(
            f,
            df,
            j,
        )] is None
}

pub open spec fn slider_ok(p: Option<Piece>, by: Color, orth: bool) -> bool {
    match p {
        Some(q) => q.color == by && (q.piece_type == PieceType::Queen || (orth && q.piece_type
            == PieceType::Rook) || (!orth && q.piece_type == PieceType::Bishop)),
        None => false,
    }
}

/// The line from `(r, f)` meets, after `n` empty cells, a slider of `by` moving along it.
pub open spec fn hit_at(b: Seq<Option<Piece>>, r: int, f: int, dr: int, df: int, by: Color, orth: bool, n: nat) -> bool {
    &&& clear(b, r, f, dr, df, n)
    &&& on_board(walk(r, dr, n), walk(f, df, n))
    &&& slider_ok(b[walk(r, dr, n) * 8 + walk(f, df, n)], by, orth)
}

proof fn lemma_clear_shift(b: Seq<Option<Piece>>, r: int, f: int, dr: int, df: int, n: nat)
    ensures
        clear(b, r, f, dr, df, n + 1) <==> (on_board(r, f) && b[r * 8 + f] is None && clear(
            b,
            r + dr,
            f + df,
            dr,
            df,
            n,
        )),
{
    assert forall|j: nat| true implies #[trigger] walk(r + dr, dr, j) == walk(r, dr, j + 1) && walk(f + df, df, j)
        == walk(f, df, j + 1) by {
        lemma_walk_shift(r, dr, j);
        lemma_walk_shift(f, df, j);
    }
    if clear(b, r, f, dr, df, n + 1) {
        assert(walk(r, dr, 0) == r && walk(f, df, 0) == f);
        assert forall|j: nat| j < n implies on_board(#[trigger] walk(r + dr, dr, j), walk(f + df, df, j))
            && b[walk(r + dr, dr, j) * 8 + walk(f + df, df, j)] is None by {
            assert(walk(r, dr, j + 1) == walk(r + dr, dr, j));
        }
    }
    if on_board(r, f) && b[r * 8 + f] is None && clear(b, r + dr, f + df, dr, df, n) {
        assert forall|j: nat| j < n + 1 implies on_board(#[trigger] walk(r, dr, j), walk(f, df, j))
            && b[walk(r, dr, j) * 8 + walk(f, df, j)] is None by {
            if j > 0 {
                let i = (j - 1) as nat;
                assert(walk(r + dr, dr, i) == walk(r, dr, j));
                assert(walk(f + df, df, i) == walk(f, df, j));
            }
        }
    }
}

/// A ray hits a slider exactly when some cell within reach holds one with empty cells before it.
pub proof fn lemma_ray_hit_at(b: Seq<Option<Piece>>, r: int, f: int, dr: int, df: int, by: Color, orth: bool, fuel: nat)
    ensures
        ray_hit(b, r, f, dr, df, by, orth, fuel) <==> exists|n: nat| n < fuel && #[trigger] hit_at(b, r, f, dr, df, by, orth, n),
    decreases fuel,
{
    if fuel == 0 {
    } else if !on_board(r, f) {
        assert forall|n: nat| n < fuel implies !#[trigger] hit_at(b, r, f, dr, df, by, orth, n) by {
            if n > 0 {
                assert(walk(r, dr, 0) == r && walk(f, df, 0) == f);
            }
        }
    } else {
        match b[r * 8 + f] {
            Some(p) => {
                assert(hit_at(b, r, f, dr, df, by, orth, 0) == slider_ok(b[r * 8 + f], by, orth));
                assert forall|n: nat| 0 < n < fuel implies !#[trigger] hit_at(b, r, f, dr, df, by, orth, n) by {
                    assert(walk(r, dr, 0) == r && walk(f, df, 0) == f);
                }
            },
            None => {
                lemma_ray_hit_at(b, r + dr, f + df, dr, df, by, orth, (fuel - 1) as nat);
                assert(!hit_at(b, r, f, dr, df, by, orth, 0));
                if ray_hit(b, r, f, dr, df, by, orth, fuel) {
                    let n = choose|n: nat| n < fuel - 1 && #[trigger] hit_at(b, r + dr, f + df, dr, df, by, orth, n);
                    lemma_clear_shift(b, r, f, dr, df, n);
                    lemma_walk_shift(r, dr, n);
                    lemma_walk_shift(f, df, n);
                    assert(hit_at(b, r, f, dr, df, by, orth, n + 1));
                }
                if exists|n: nat| n < fuel && #[trigger] hit_at(b, r, f, dr, df, by, orth, n) {
                    let n = choose|n: nat| n < fuel && #[trigger] hit_at(b, r, f, dr, df, by, orth, n);
                    assert(n > 0);
                    let m = (n - 1) as nat;
                    lemma_clear_shift(b, r, f, dr, df, m);
                    lemma_walk_shift(r, dr, m);
                    lemma_walk_shift(f, df, m);
                    assert(hit_at(b, r + dr, f + df, dr, df, by, orth, m));
                }
            },
        }
    }
}


/// Some move of `ms` lands on square `k`.
pub open spec fn hits(ms: Seq<Move>, k: int) -> bool {
    exists|i: int| 0 <= i < ms.len() && (#[trigger] ms[i]).to as int == k
}

proof fn lemma_hits_concat(a: Seq<Move>, c: Seq<Move>, k: int)
    ensures
        hits(a + c, k) <==> hits(a, k) || hits(c, k),
{
    if hits(a + c, k) {
        let i = choose|i: int| 0 <= i < (a + c).len() && (#[trigger] (a + c)[i]).to as int == k;
        if i < a.len() {
            assert(a[i] == (a + c)[i]);
        } else {
            assert(c[i - a.len()] == (a + c)[i]);
        }
    }
    if hits(a, k) {
        let i = choose|i: int| 0 <= i < a.len() && (#[trigger] a[i]).to as int == k;
        assert((a + c)[i] == a[i]);
    }
    if hits(c, k) {
        let i = choose|i: int| 0 <= i < c.len() && (#[trigger] c[i]).to as int == k;
        assert((a + c)[i + a.len()] == c[i]);
    }
}

proof fn lemma_walk_add(x: int, d: int, a: nat, m: nat)
    ensures
        walk(walk(x, d, a), d, m) == walk(x, d, a + m),
    decreases m,
{
    if m > 0 {
        lemma_walk_add(x, d, a, (m - 1) as nat);
        assert(walk(x, d, a + m) == walk(x, d, (a + m - 1) as nat) + d);
    }
}

/// The line from `(r, f)` reaches square `k` after `n` empty cells.
pub open spec fn reach_at(b: Seq<Option<Piece>>, r: int, f: int, dr: int, df: int, k: int, n: nat) -> bool {
    &&& clear(b, r, f, dr, df, n)
    &&& on_board(walk(r, dr, n), walk(f, df, n))
    &&& walk(r, dr, n) * 8 + walk(f, df, n) == k
}

/// A slider's moves along a line reach an enemy-occupied square exactly when
/// the square lies on the line with empty cells before it.
pub proof fn lemma_ray_moves_hits(
    b: Seq<Option<Piece>>,
    from: int,
    c: Color,
    kind: PieceType,
    r: int,
    f: int,
    dr: int,
    df: int,
    fuel: nat,
    k: int,
)
    requires
        b.len() == 64,
        0 <= k < 64,
        b[k] is Some,
        b[k]->0.color != c,
    ensures
        hits(ray_moves(b, from, c, kind, r, f, dr, df, fuel), k) <==> exists|n: nat| n < fuel && #[trigger] reach_at(b, r, f, dr, df, k, n),
    decreases fuel,
{
    let ms = ray_moves(b, from, c, kind, r, f, dr, df, fuel);
    assert(walk(r, dr, 0) == r && walk(f, df, 0) == f);
    if fuel == 0 {
    } else if !on_board(r, f) {
        assert forall|n: nat| n < fuel implies !#[trigger] reach_at(b, r, f, dr, df, k, n) by {
            if n > 0 {
                assert(walk(r, dr, 0) == r);
            }
        }
    } else {
        match b[r * 8 + f] {
            Some(p) => {
                assert forall|n: nat| 0 < n < fuel implies !#[trigger] reach_at(b, r, f, dr, df, k, n) by {
                    assert(walk(r, dr, 0) == r);
                }
                if p.color != c {
                    assert(ms.len() == 1 && ms[0].to as int == r * 8 + f);
                    if r * 8 + f == k {
                        assert(reach_at(b, r, f, dr, df, k, 0));
                    }
                } else {
                    assert(ms.len() == 0);
                    assert(!reach_at(b, r, f, dr, df, k, 0));
                }
            },
            None => {
                let rest = ray_moves(b, from, c, kind, r + dr, f + df, dr, df, (fuel - 1) as nat);
                let head = seq![crate::types::quiet_move(from as usize, (r * 8 + f) as usize, kind)];
                assert(ms == head + rest);
                lemma_hits_concat(head, rest, k);
                assert(!hits(head, k)) by {
                    assert(r * 8 + f != k);
                }
                lemma_ray_moves_hits(b, from, c, kind, r + dr, f + df, dr, df, (fuel - 1) as nat, k);
                assert(!reach_at(b, r, f, dr, df, k, 0));
                if hits(rest, k) {
                    let n = choose|n: nat| n < fuel - 1 && #[trigger] reach_at(b, r + dr, f + df, dr, df, k, n);
                    lemma_clear_shift(b, r, f, dr, df, n);
                    lemma_walk_shift(r, dr, n);
                    lemma_walk_shift(f, df, n);
                    assert(reach_at(b, r, f, dr, df, k, n + 1));
                }
                if exists|n: nat| n < fuel && #[trigger] reach_at(b, r, f, dr, df, k, n) {
                    let n = choose|n: nat| n < fuel && #[trigger] reach_at(b, r, f, dr, df, k, n);
                    assert(n > 0);
                    let m = (n - 1) as nat;
                    lemma_clear_shift(b, r, f, dr, df, m);
                    lemma_walk_shift(r, dr, m);
                    lemma_walk_shift(f, df, m);
                    assert(reach_at(b, r + dr, f + df, dr, df, k, m));
                }
            },
        }
    }
}

/// Walking back along a clear line from its far end passes the same cells.
proof fn lemma_reverse_line(
    b: Seq<Option<Piece>>,
    sr: int,
    sf: int,
    dr: int,
    df: int,
    n: nat,
)
    requires
        clear(b, walk(sr, dr, 1), walk(sf, df, 1), dr, df, n),
    ensures
        clear(b, walk(walk(sr, dr, n + 1), -dr, 1), walk(walk(sf, df, n + 1), -df, 1), -dr, -df, n),
        walk(walk(walk(sr, dr, n + 1), -dr, 1), -dr, n) == sr,
        walk(walk(walk(sf, df, n + 1), -df, 1), -df, n) == sf,
{
    let kr = walk(sr, dr, n + 1);
    let kf = walk(sf, df, n + 1);
    assert forall|j: nat| j < n implies on_board(#[trigger] walk(walk(kr, -dr, 1), -dr, j), walk(walk(kf, -df, 1), -df, j))
        && b[walk(walk(kr, -dr, 1), -dr, j) * 8 + walk(walk(kf, -df, 1), -df, j)] is None by {
        lemma_walk_add(kr, -dr, 1, j);
        lemma_walk_add(kf, -df, 1, j);
        lemma_walk_back(sr, dr, n + 1, j + 1);
        lemma_walk_back(sf, df, n + 1, j + 1);
        let i = (n - j - 1) as nat;
        lemma_walk_add(sr, dr, 1, i);
        lemma_walk_add(sf, df, 1, i);
        assert(walk(walk(sr, dr, 1), dr, i) == walk(sr, dr, (n - j) as nat));
    }
    lemma_walk_add(kr, -dr, 1, n);
    lemma_walk_add(kf, -df, 1, n);
    lemma_walk_back(sr, dr, n + 1, n + 1);
    lemma_walk_back(sf, df, n + 1, n + 1);
    assert(walk(sr, dr, 0) == sr && walk(sf, df, 0) == sf);
}

/// The target square of leap offset `j` from `s`, when it is on the board.
pub open spec fn leap_target(s: int, knight: bool, j: int) -> Option<int> {
    let r = s / 8 + leap_dr(knight, j);
    let f = s % 8 + leap_df(knight, j);
    if on_board(r, f) { Some(r * 8 + f) } else { None }
}

proof fn lemma_target_moves_hits(b: Seq<Option<Piece>>, from: int, t: int, c: Color, kind: PieceType, k: int)
    requires
        b.len() == 64,
        0 <= t < 64,
        0 <= k < 64,
        b[k] is Some,
        b[k]->0.color != c,
    ensures
        hits(target_moves(b, from, t, c, kind), k) <==> t == k,
{
    let ms = target_moves(b, from, t, c, kind);
    if t == k {
        assert(ms.len() == 1 && ms[0].to as int == t) by {
            assert(0 <= t < 64);
        }
    } else {
        assert forall|i: int| 0 <= i < ms.len() implies (#[trigger] ms[i]).to as int != k by {
            assert(ms.len() <= 1);
        }
    }
}

proof fn lemma_leap_hits(b: Seq<Option<Piece>>, s: int, c: Color, kind: PieceType, knight: bool, m: int, k: int)
    requires
        b.len() == 64,
        0 <= s < 64,
        0 <= k < 64,
        b[k] is Some,
        b[k]->0.color != c,
    ensures
        hits(leap_moves(b, s, c, kind, knight, m), k) <==> exists|j: int| 0 <= j < m && #[trigger] leap_target(s, knight, j) == Some(k),
    decreases m,
{
    if m > 0 {
        lemma_leap_hits(b, s, c, kind, knight, m - 1, k);
        lemma_hits_concat(leap_moves(b, s, c, kind, knight, m - 1), leap_step(b, s, c, kind, knight, m - 1), k);
        let r = s / 8 + leap_dr(knight, m - 1);
        let f = s % 8 + leap_df(knight, m - 1);
        if on_board(r, f) {
            lemma_target_moves_hits(b, s, r * 8 + f, c, kind, k);
        } else {
            assert(leap_step(b, s, c, kind, knight, m - 1) =~= Seq::<Move>::empty());
        }
        if hits(leap_step(b, s, c, kind, knight, m - 1), k) {
            assert(leap_target(s, knight, m - 1) == Some(k));
        }
        if exists|j: int| 0 <= j < m && #[trigger] leap_target(s, knight, j) == Some(k) {
            let j = choose|j: int| 0 <= j < m && #[trigger] leap_target(s, knight, j) == Some(k);
            if j < m - 1 {
            }
        }
    }
}

/// Start of the line from `s` in direction `d`.
pub open spec fn line_reaches(b: Seq<Option<Piece>>, s: int, d: int, k: int) -> bool {
    exists|n: nat| n < 8 && #[trigger] reach_at(b, s / 8 + dir_dr(d), s % 8 + dir_df(d), dir_dr(d), dir_df(d), k, n)
}

proof fn lemma_slide_hits(b: Seq<Option<Piece>>, s: int, c: Color, kind: PieceType, d0: int, d: int, k: int)
    requires
        b.len() == 64,
        0 <= k < 64,
        b[k] is Some,
        b[k]->0.color != c,
    ensures
        hits(slide_moves(b, s, c, kind, d0, d), k) <==> exists|e: int| d0 <= e < d && #[trigger] line_reaches(b, s, e, k),
    decreases d - d0,
{
    if d > d0 {
        lemma_slide_hits(b, s, c, kind, d0, d - 1, k);
        let rm = ray_moves(b, s, c, kind, s / 8 + dir_dr(d - 1), s % 8 + dir_df(d - 1), dir_dr(d - 1), dir_df(d - 1), 8);
        lemma_hits_concat(slide_moves(b, s, c, kind, d0, d - 1), rm, k);
        lemma_ray_moves_hits(b, s, c, kind, s / 8 + dir_dr(d - 1), s % 8 + dir_df(d - 1), dir_dr(d - 1), dir_df(d - 1), 8, k);
        if hits(rm, k) {
            assert(line_reaches(b, s, d - 1, k));
        }
        if exists|e: int| d0 <= e < d && #[trigger] line_reaches(b, s, e, k) {
            let e = choose|e: int| d0 <= e < d && #[trigger] line_reaches(b, s, e, k);
            if e < d - 1 {
            }
        }
    }
}

/// The pieces of `o` on squares below `n` with a pseudo-legal move onto `k`.
pub open spec fn hits_from(b: Seq<Option<Piece>>, o: Color, cr: CastlingRights, ep: Option<Square>, s: int, k: int) -> bool {
    match b[s] {
        Some(p) => p.color == o && hits(piece_moves(b, s, p, cr, ep), k),
        None => false,
    }
}

proof fn lemma_pseudo_hits(b: Seq<Option<Piece>>, o: Color, cr: CastlingRights, ep: Option<Square>, n: int, k: int)
    ensures
        hits(pseudo_upto(b, o, cr, ep, n), k) <==> exists|s: int| 0 <= s < n && #[trigger] hits_from(b, o, cr, ep, s, k),
    decreases n,
{
    if n > 0 {
        lemma_pseudo_hits(b, o, cr, ep, n - 1, k);
        let tail = match b[n - 1] {
            Some(p) => if p.color == o { piece_moves(b, n - 1, p, cr, ep) } else { Seq::empty() },
            None => Seq::empty(),
        };
        lemma_hits_concat(pseudo_upto(b, o, cr, ep, n - 1), tail, k);
        assert(hits(tail, k) == hits_from(b, o, cr, ep, n - 1, k));
        if exists|s: int| 0 <= s < n && #[trigger] hits_from(b, o, cr, ep, s, k) {
            let s = choose|s: int| 0 <= s < n && #[trigger] hits_from(b, o, cr, ep, s, k);
            if s < n - 1 {
            }
        }
    }
}

/// The pawn of `o` on `s` captures diagonally towards file offset `df` onto `k`.
pub open spec fn pawn_reach(s: int, o: Color, k: int, df: int) -> bool {
    on_board(s / 8 + pawn_dir(o), s % 8 + df) && (s / 8 + pawn_dir(o)) * 8 + s % 8 + df == k
}

proof fn lemma_advance_hits(from: int, to: int, c: Color, cap: Option<PieceType>, k: int)
    requires
        0 <= to < 64,
    ensures
        hits(pawn_advance(from, to, c, cap), k) <==> to == k,
{
    let ms = pawn_advance(from, to, c, cap);
    assert(ms.len() >= 1 && ms[0].to as int == to);
    assert forall|i: int| 0 <= i < ms.len() implies (#[trigger] ms[i]).to as int == to by {
    }
}

proof fn lemma_pawn_hits(b: Seq<Option<Piece>>, s: int, o: Color, ep: Option<Square>, k: int)
    requires
        b.len() == 64,
        0 <= s < 64,
        0 <= k < 64,
        b[k] is Some,
        b[k]->0.color != o,
    ensures
        hits(pawn_moves(b, s, o, ep), k) <==> pawn_reach(s, o, k, -1) || pawn_reach(s, o, k, 1),
{
    let push = pawn_push(b, s, o);
    let c1 = pawn_capture(b, s, o, -1);
    let c2 = pawn_capture(b, s, o, 1);
    let e1 = pawn_ep(b, s, o, ep, -1);
    let e2 = pawn_ep(b, s, o, ep, 1);
    lemma_hits_concat(push, c1, k);
    lemma_hits_concat(push + c1, c2, k);
    lemma_hits_concat(push + c1 + c2, e1, k);
    lemma_hits_concat(push + c1 + c2 + e1, e2, k);
    let r1 = s / 8 + pawn_dir(o);
    let f = s % 8;
    if on_board(r1, f) && b[r1 * 8 + f] is None {
        let r2 = r1 + pawn_dir(o);
        lemma_advance_hits(s, r1 * 8 + f, o, None, k);
        let dbl = if s / 8 == crate::move_generator::start_rank(o) && b[r2 * 8 + f] is None {
            seq![crate::move_generator::pawn_move(s, r2 * 8 + f, None, None)]
        } else {
            Seq::empty()
        };
        lemma_hits_concat(pawn_advance(s, r1 * 8 + f, o, None), dbl, k);
        if dbl.len() > 0 {
            assert(dbl[0].to as int != k);
        }
    }
    assert(!hits(push, k));
    assert(!hits(e1, k));
    assert(!hits(e2, k));
    if on_board(r1, f - 1) {
        match b[r1 * 8 + f - 1] {
            Some(p) => if p.color != o {
                lemma_advance_hits(s, r1 * 8 + f - 1, o, Some(p.piece_type), k);
            } else {
                assert(r1 * 8 + f - 1 != k);
            },
            None => {
                assert(r1 * 8 + f - 1 != k);
            },
        }
    }
    if on_board(r1, f + 1) {
        match b[r1 * 8 + f + 1] {
            Some(p) => if p.color != o {
                lemma_advance_hits(s, r1 * 8 + f + 1, o, Some(p.piece_type), k);
            } else {
                assert(r1 * 8 + f + 1 != k);
            },
            None => {
                assert(r1 * 8 + f + 1 != k);
            },
        }
    }
}

proof fn lemma_king_hits(b: Seq<Option<Piece>>, s: int, o: Color, cr: CastlingRights, k: int)
    requires
        b.len() == 64,
        0 <= s < 64,
        0 <= k < 64,
        b[k] is Some,
        b[k]->0.color != o,
    ensures
        hits(leap_moves(b, s, o, PieceType::King, false, 8) + castle_moves(b, s, o, cr), k)
            <==> exists|j: int| 0 <= j < 8 && #[trigger] leap_target(s, false, j) == Some(k),
{
    lemma_leap_hits(b, s, o, PieceType::King, false, 8, k);
    let cm = castle_moves(b, s, o, cr);
    lemma_hits_concat(leap_moves(b, s, o, PieceType::King, false, 8), cm, k);
    if o == Color::White && s == 4 {
        lemma_hits_concat(castle_kingside(b, o, 4, cr.white_kingside), castle_queenside(b, o, 4, cr.white_queenside), k);
    } else if o == Color::Black && s == 60 {
        lemma_hits_concat(castle_kingside(b, o, 60, cr.black_kingside), castle_queenside(b, o, 60, cr.black_queenside), k);
    }
    assert(!hits(cm, k));
}

/// The direction opposite to `d`.
pub open spec fn opp_dir(d: int) -> int {
    if d == 0 { 1 } else if d == 1 { 0 } else if d == 2 { 3 } else if d == 3 { 2 } else { 11 - d }
}

proof fn lemma_opp_dir(d: int)
    requires
        0 <= d < 8,
    ensures
        0 <= opp_dir(d) < 8,
        dir_dr(opp_dir(d)) == -dir_dr(d),
        dir_df(opp_dir(d)) == -dir_df(d),
        is_orth(opp_dir(d)) == is_orth(d),
        opp_dir(opp_dir(d)) == d,
{
}

proof fn lemma_knight_opp(j: int)
    requires
        0 <= j < 8,
    ensures
        knight_dr(7 - j) == -knight_dr(j),
        knight_df(7 - j) == -knight_df(j),
{
}

proof fn lemma_square_parts(r: int, f: int)
    requires
        on_board(r, f),
    ensures
        (r * 8 + f) / 8 == r,
        (r * 8 + f) % 8 == f,
{
}

proof fn lemma_walk_one(x: int, d: int)
    ensures
        walk(x, d, 1) == x + d,
        walk(x, d, 0) == x,
{
    assert(walk(x, d, 1) == walk(x, d, 0) + d);
}

proof fn lemma_king_from(b: Seq<Option<Piece>>, c: Color, i: int)
    requires
        king_from(b, c, i) is Some,
    ensures
        0 <= king_from(b, c, i)->0 < 64,
        b[king_from(b, c, i)->0] == Some(Piece { piece_type: PieceType::King, color: c }),
    decreases 64 - i,
{
    if 0 <= i < 64 && b[i] != Some(Piece { piece_type: PieceType::King, color: c }) {
        lemma_king_from(b, c, i + 1);
    }
}

/// A slider of `o` whose line attacks `k` has a pseudo-legal move onto `k`.
proof fn lemma_slide_attack_hits(b: Seq<Option<Piece>>, k: int, o: Color, cr: CastlingRights, ep: Option<Square>)
    requires
        b.len() == 64,
        0 <= k < 64,
        b[k] is Some,
        b[k]->0.color != o,
        slide_attack(b, k, o),
    ensures
        exists|s: int| 0 <= s < 64 && #[trigger] hits_from(b, o, cr, ep, s, k),
{
    let d = choose|d: int| 0 <= d < 8 && #[trigger] ray_hit(b, k / 8 + dir_dr(d), k % 8 + dir_df(d), dir_dr(d), dir_df(d), o, is_orth(d), 8);
    let dr = dir_dr(d);
    let df = dir_df(d);
    let kr = k / 8;
    let kf = k % 8;
    lemma_ray_hit_at(b, kr + dr, kf + df, dr, df, o, is_orth(d), 8);
    let n = choose|n: nat| n < 8 && #[trigger] hit_at(b, kr + dr, kf + df, dr, df, o, is_orth(d), n);
    let sr = walk(kr + dr, dr, n);
    let sf = walk(kf + df, df, n);
    let s = sr * 8 + sf;
    lemma_square_parts(sr, sf);
    lemma_walk_one(kr, dr);
    lemma_walk_one(kf, df);
    lemma_walk_shift(kr, dr, n);
    lemma_walk_shift(kf, df, n);
    lemma_reverse_line(b, kr, kf, dr, df, n);
    let e = opp_dir(d);
    lemma_opp_dir(d);
    lemma_walk_one(sr, -dr);
    lemma_walk_one(sf, -df);
    assert(reach_at(b, s / 8 + dir_dr(e), s % 8 + dir_df(e), dir_dr(e), dir_df(e), k, n));
    assert(line_reaches(b, s, e, k));
    let p = b[s]->0;
    lemma_slide_hits(b, s, o, p.piece_type, 0, 8, k);
    lemma_slide_hits(b, s, o, p.piece_type, 0, 4, k);
    lemma_slide_hits(b, s, o, p.piece_type, 4, 8, k);
    assert(hits_from(b, o, cr, ep, s, k));
}

proof fn lemma_pawn_attack_hits(b: Seq<Option<Piece>>, k: int, o: Color, cr: CastlingRights, ep: Option<Square>)
    requires
        b.len() == 64,
        0 <= k < 64,
        b[k] is Some,
        b[k]->0.color != o,
        pawn_attack(b, k, o),
    ensures
        exists|s: int| 0 <= s < 64 && #[trigger] hits_from(b, o, cr, ep, s, k),
{
    let kf = k % 8;
    let pr = k / 8 + if o == Color::White { -1int } else { 1int };
    if holds(b, pr, kf - 1, PieceType::Pawn, o) {
        let s = pr * 8 + kf - 1;
        lemma_square_parts(pr, kf - 1);
        assert(pawn_reach(s, o, k, 1));
        lemma_pawn_hits(b, s, o, ep, k);
        assert(hits_from(b, o, cr, ep, s, k));
    } else {
        let s = pr * 8 + kf + 1;
        lemma_square_parts(pr, kf + 1);
        assert(pawn_reach(s, o, k, -1));
        lemma_pawn_hits(b, s, o, ep, k);
        assert(hits_from(b, o, cr, ep, s, k));
    }
}

proof fn lemma_knight_attack_hits(b: Seq<Option<Piece>>, k: int, o: Color, cr: CastlingRights, ep: Option<Square>)
    requires
        b.len() == 64,
        0 <= k < 64,
        b[k] is Some,
        b[k]->0.color != o,
        knight_attack(b, k, o),
    ensures
        exists|s: int| 0 <= s < 64 && #[trigger] hits_from(b, o, cr, ep, s, k),
{
    let j = choose|j: int| 0 <= j < 8 && #[trigger] holds(b, k / 8 + knight_dr(j), k % 8 + knight_df(j), PieceType::Knight, o);
    let sr = k / 8 + knight_dr(j);
    let sf = k % 8 + knight_df(j);
    let s = sr * 8 + sf;
    lemma_square_parts(sr, sf);
    lemma_knight_opp(j);
    assert(leap_target(s, true, 7 - j) == Some(k));
    lemma_leap_hits(b, s, o, PieceType::Knight, true, 8, k);
    assert(hits_from(b, o, cr, ep, s, k));
}

proof fn lemma_king_attack_hits(b: Seq<Option<Piece>>, k: int, o: Color, cr: CastlingRights, ep: Option<Square>)
    requires
        b.len() == 64,
        0 <= k < 64,
        b[k] is Some,
        b[k]->0.color != o,
        king_attack(b, k, o),
    ensures
        exists|s: int| 0 <= s < 64 && #[trigger] hits_from(b, o, cr, ep, s, k),
{
    let d = choose|d: int| 0 <= d < 8 && #[trigger] holds(b, k / 8 + dir_dr(d), k % 8 + dir_df(d), PieceType::King, o);
    let sr = k / 8 + dir_dr(d);
    let sf = k % 8 + dir_df(d);
    let s = sr * 8 + sf;
    lemma_square_parts(sr, sf);
    lemma_opp_dir(d);
    assert(leap_target(s, false, opp_dir(d)) == Some(k));
    lemma_king_hits(b, s, o, cr, k);
    assert(hits_from(b, o, cr, ep, s, k));
}

/// Every attack on `k` by `o` comes with a pseudo-legal move of `o` onto `k`.
proof fn lemma_attacked_hits(b: Seq<Option<Piece>>, k: int, o: Color, cr: CastlingRights, ep: Option<Square>)
    requires
        b.len() == 64,
        0 <= k < 64,
        b[k] is Some,
        b[k]->0.color != o,
        attacked(b, k, o),
    ensures
        exists|s: int| 0 <= s < 64 && #[trigger] hits_from(b, o, cr, ep, s, k),
{
    if pawn_attack(b, k, o) {
        lemma_pawn_attack_hits(b, k, o, cr, ep);
    } else if knight_attack(b, k, o) {
        lemma_knight_attack_hits(b, k, o, cr, ep);
    } else if slide_attack(b, k, o) {
        lemma_slide_attack_hits(b, k, o, cr, ep);
    } else {
        lemma_king_attack_hits(b, k, o, cr, ep);
    }
}

proof fn lemma_slider_hits_attacked(b: Seq<Option<Piece>>, k: int, o: Color, s: int, d0: int, d1: int)
    requires
        b.len() == 64,
        0 <= k < 64,
        0 <= s < 64,
        b[k] is Some,
        b[k]->0.color != o,
        b[s] is Some,
        b[s]->0.color == o,
        0 <= d0 <= d1 <= 8,
        forall|e: int| d0 <= e < d1 ==> slider_ok(b[s], o, is_orth(e)),
        hits(slide_moves(b, s, o, b[s]->0.piece_type, d0, d1), k),
    ensures
        slide_attack(b, k, o),
{
    let kr = k / 8;
    let kf = k % 8;
    lemma_slide_hits(b, s, o, b[s]->0.piece_type, d0, d1, k);
    let e = choose|e: int| d0 <= e < d1 && #[trigger] line_reaches(b, s, e, k);
    let dr = dir_dr(e);
    let df = dir_df(e);
    let sr = s / 8;
    let sf = s % 8;
    let n = choose|n: nat| n < 8 && #[trigger] reach_at(b, sr + dr, sf + df, dr, df, k, n);
    lemma_walk_one(sr, dr);
    lemma_walk_one(sf, df);
    lemma_walk_shift(sr, dr, n);
    lemma_walk_shift(sf, df, n);
    lemma_square_parts(walk(sr + dr, dr, n), walk(sf + df, df, n));
    lemma_reverse_line(b, sr, sf, dr, df, n);
    let d = opp_dir(e);
    lemma_opp_dir(e);
    lemma_walk_one(kr, -dr);
    lemma_walk_one(kf, -df);
    assert(slider_ok(b[s], o, is_orth(e)));
    assert(hit_at(b, kr + dir_dr(d), kf + dir_df(d), dir_dr(d), dir_df(d), o, is_orth(d), n));
    lemma_ray_hit_at(b, kr + dir_dr(d), kf + dir_df(d), dir_dr(d), dir_df(d), o, is_orth(d), 8);
    assert(ray_hit(b, kr + dir_dr(d), kf + dir_df(d), dir_dr(d), dir_df(d), o, is_orth(d), 8));
}

proof fn lemma_pawn_hits_attacked(b: Seq<Option<Piece>>, k: int, o: Color, ep: Option<Square>, s: int)
    requires
        b.len() == 64,
        0 <= k < 64,
        0 <= s < 64,
        b[k] is Some,
        b[k]->0.color != o,
        b[s] == Some(Piece { piece_type: PieceType::Pawn, color: o }),
        hits(pawn_moves(b, s, o, ep), k),
    ensures
        pawn_attack(b, k, o),
{
    let kr = k / 8;
    let kf = k % 8;
    lemma_pawn_hits(b, s, o, ep, k);
    let pr = kr + if o == Color::White { -1int } else { 1int };
    if pawn_reach(s, o, k, 1) {
        lemma_square_parts(s / 8 + pawn_dir(o), s % 8 + 1);
        assert(holds(b, pr, kf - 1, PieceType::Pawn, o));
    } else {
        lemma_square_parts(s / 8 + pawn_dir(o), s % 8 - 1);
        assert(holds(b, pr, kf + 1, PieceType::Pawn, o));
    }
}

proof fn lemma_knight_hits_attacked(b: Seq<Option<Piece>>, k: int, o: Color, s: int)
    requires
        b.len() == 64,
        0 <= k < 64,
        0 <= s < 64,
        b[k] is Some,
        b[k]->0.color != o,
        b[s] == Some(Piece { piece_type: PieceType::Knight, color: o }),
        hits(leap_moves(b, s, o, PieceType::Knight, true, 8), k),
    ensures
        knight_attack(b, k, o),
{
    lemma_leap_hits(b, s, o, PieceType::Knight, true, 8, k);
    let j = choose|j: int| 0 <= j < 8 && #[trigger] leap_target(s, true, j) == Some(k);
    lemma_knight_opp(j);
    lemma_square_parts(s / 8 + knight_dr(j), s % 8 + knight_df(j));
    assert(holds(b, k / 8 + knight_dr(7 - j), k % 8 + knight_df(7 - j), PieceType::Knight, o));
}

proof fn lemma_king_hits_attacked(b: Seq<Option<Piece>>, k: int, o: Color, cr: CastlingRights, s: int)
    requires
        b.len() == 64,
        0 <= k < 64,
        0 <= s < 64,
        b[k] is Some,
        b[k]->0.color != o,
        b[s] == Some(Piece { piece_type: PieceType::King, color: o }),
        hits(leap_moves(b, s, o, PieceType::King, false, 8) + castle_moves(b, s, o, cr), k),
    ensures
        king_attack(b, k, o),
{
    lemma_king_hits(b, s, o, cr, k);
    let j = choose|j: int| 0 <= j < 8 && #[trigger] leap_target(s, false, j) == Some(k);
    lemma_opp_dir(j);
    lemma_square_parts(s / 8 + dir_dr(j), s % 8 + dir_df(j));
    assert(holds(b, k / 8 + dir_dr(opp_dir(j)), k % 8 + dir_df(opp_dir(j)), PieceType::King, o));
}

/// A pseudo-legal move of `o` onto `k` comes with an attack on `k` by `o`.
proof fn lemma_hits_attacked(b: Seq<Option<Piece>>, k: int, o: Color, cr: CastlingRights, ep: Option<Square>, s: int)
    requires
        b.len() == 64,
        0 <= k < 64,
        0 <= s < 64,
        b[k] is Some,
        b[k]->0.color != o,
        hits_from(b, o, cr, ep, s, k),
    ensures
        attacked(b, k, o),
{
    let p = b[s]->0;
    match p.piece_type {
        PieceType::Pawn => {
            lemma_pawn_hits_attacked(b, k, o, ep, s);
        },
        PieceType::Knight => {
            lemma_knight_hits_attacked(b, k, o, s);
        },
        PieceType::King => {
            lemma_king_hits_attacked(b, k, o, cr, s);
        },
        PieceType::Bishop => {
            lemma_slider_hits_attacked(b, k, o, s, 4, 8);
        },
        PieceType::Rook => {
            lemma_slider_hits_attacked(b, k, o, s, 0, 4);
        },
        PieceType::Queen => {
            lemma_slider_hits_attacked(b, k, o, s, 0, 8);
        },
    }
}

/// A king is in check exactly when some pseudo-legal move of the other side
/// lands on its square.
pub proof fn lemma_in_check_iff_capturable(b: Seq<Option<Piece>>, c: Color, cr: CastlingRights, ep: Option<Square>)
    requires
        b.len() == 64,
    ensures
        in_check(b, c) <==> match king_from(b, c, 0) {
            Some(k) => hits(pseudo_moves(b, c.opp(), cr, ep), k),
            None => false,
        },
{
    match king_from(b, c, 0) {
        Some(k) => {
            lemma_king_from(b, c, 0);
            let o = c.opp();
            lemma_pseudo_hits(b, o, cr, ep, 64, k);
            if attacked(b, k, o) {
                lemma_attacked_hits(b, k, o, cr, ep);
            }
            if hits(pseudo_moves(b, o, cr, ep), k) {
                let s = choose|s: int| 0 <= s < 64 && #[trigger] hits_from(b, o, cr, ep, s, k);
                lemma_hits_attacked(b, k, o, cr, ep, s);
            }
        },
        None => {},
    }
}

/// No move of `ms` is a castling move.
pub open spec fn no_castle(ms: Seq<Move>) -> bool {
    forall|i: int| 0 <= i < ms.len() ==> !(#[trigger] ms[i]).is_castling
}

/// Some castling move of `ms` lands on `k`.
pub open spec fn castles_to(ms: Seq<Move>, k: int) -> bool {
    exists|i: int| 0 <= i < ms.len() && (#[trigger] ms[i]).is_castling && ms[i].to == k
}

proof fn lemma_castles_concat(a: Seq<Move>, c: Seq<Move>, k: int)
    ensures
        castles_to(a + c, k) <==> castles_to(a, k) || castles_to(c, k),
        no_castle(a) && no_castle(c) ==> no_castle(a + c),
{
    if castles_to(a + c, k) {
        let i = choose|i: int| 0 <= i < (a + c).len() && (#[trigger] (a + c)[i]).is_castling && (a + c)[i].to == k;
        if i < a.len() {
            assert(a[i] == (a + c)[i]);
        } else {
            assert(c[i - a.len()] == (a + c)[i]);
        }
    }
    if castles_to(a, k) {
        let i = choose|i: int| 0 <= i < a.len() && (#[trigger] a[i]).is_castling && a[i].to == k;
        assert((a + c)[i] == a[i]);
    }
    if castles_to(c, k) {
        let i = choose|i: int| 0 <= i < c.len() && (#[trigger] c[i]).is_castling && c[i].to == k;
        assert((a + c)[i + a.len()] == c[i]);
    }
    if no_castle(a) && no_castle(c) {
        assert forall|i: int| 0 <= i < (a + c).len() implies !(#[trigger] (a + c)[i]).is_castling by {
            if i < a.len() {
                assert(a[i] == (a + c)[i]);
            } else {
                assert(c[i - a.len()] == (a + c)[i]);
            }
        }
    }
}

proof fn lemma_no_castle_castles(ms: Seq<Move>, k: int)
    requires
        no_castle(ms),
    ensures
        !castles_to(ms, k),
{
}

proof fn lemma_leap_no_castle(b: Seq<Option<Piece>>, s: int, c: Color, kind: PieceType, knight: bool, m: int)
    ensures
        no_castle(leap_moves(b, s, c, kind, knight, m)),
    decreases m,
{
    if m > 0 {
        lemma_leap_no_castle(b, s, c, kind, knight, m - 1);
        let st = leap_step(b, s, c, kind, knight, m - 1);
        assert(no_castle(st));
        lemma_castles_concat(leap_moves(b, s, c, kind, knight, m - 1), st, 0);
    }
}

proof fn lemma_ray_no_castle(b: Seq<Option<Piece>>, from: int, c: Color, kind: PieceType, r: int, f: int, dr: int, df: int, fuel: nat)
    ensures
        no_castle(ray_moves(b, from, c, kind, r, f, dr, df, fuel)),
    decreases fuel,
{
    if fuel > 0 && on_board(r, f) {
        lemma_ray_no_castle(b, from, c, kind, r + dr, f + df, dr, df, (fuel - 1) as nat);
        let head = seq![crate::types::quiet_move(from as usize, (r * 8 + f) as usize, kind)];
        lemma_castles_concat(head, ray_moves(b, from, c, kind, r + dr, f + df, dr, df, (fuel - 1) as nat), 0);
    }
}

proof fn lemma_slide_no_castle(b: Seq<Option<Piece>>, s: int, c: Color, kind: PieceType, d0: int, d: int)
    ensures
        no_castle(slide_moves(b, s, c, kind, d0, d)),
    decreases d - d0,
{
    if d > d0 {
        lemma_slide_no_castle(b, s, c, kind, d0, d - 1);
        lemma_ray_no_castle(b, s, c, kind, s / 8 + dir_dr(d - 1), s % 8 + dir_df(d - 1), dir_dr(d - 1), dir_df(d - 1), 8);
        lemma_castles_concat(
            slide_moves(b, s, c, kind, d0, d - 1),
            ray_moves(b, s, c, kind, s / 8 + dir_dr(d - 1), s % 8 + dir_df(d - 1), dir_dr(d - 1), dir_df(d - 1), 8),
            0,
        );
    }
}

proof fn lemma_pawn_no_castle(b: Seq<Option<Piece>>, s: int, o: Color, ep: Option<Square>)
    ensures
        no_castle(pawn_moves(b, s, o, ep)),
{
    let push = pawn_push(b, s, o);
    let c1 = pawn_capture(b, s, o, -1);
    let c2 = pawn_capture(b, s, o, 1);
    let e1 = pawn_ep(b, s, o, ep, -1);
    let e2 = pawn_ep(b, s, o, ep, 1);
    assert(no_castle(push));
    assert(no_castle(c1));
    assert(no_castle(c2));
    assert(no_castle(e1));
    assert(no_castle(e2));
    lemma_castles_concat(push, c1, 0);
    lemma_castles_concat(push + c1, c2, 0);
    lemma_castles_concat(push + c1 + c2, e1, 0);
    lemma_castles_concat(push + c1 + c2 + e1, e2, 0);
}

/// Only the king's castling moves from its home square `h` land on `h + 2`,
/// and they need `h + 1` unattacked.
proof fn lemma_piece_castles(b: Seq<Option<Piece>>, s: int, p: Piece, cr: CastlingRights, ep: Option<Square>, h: int)
    requires
        p.color == Color::White && h == 4 || p.color == Color::Black && h == 60,
        castles_to(piece_moves(b, s, p, cr, ep), h + 2),
    ensures
        !attacked(b, h + 1, p.color.opp()),
{
    let o = p.color;
    match p.piece_type {
        PieceType::Pawn => {
            lemma_pawn_no_castle(b, s, o, ep);
        },
        PieceType::Knight => {
            lemma_leap_no_castle(b, s, o, PieceType::Knight, true, 8);
        },
        PieceType::Bishop => {
            lemma_slide_no_castle(b, s, o, PieceType::Bishop, 4, 8);
        },
        PieceType::Rook => {
            lemma_slide_no_castle(b, s, o, PieceType::Rook, 0, 4);
        },
        PieceType::Queen => {
            lemma_slide_no_castle(b, s, o, PieceType::Queen, 0, 8);
        },
        PieceType::King => {
            let lm = leap_moves(b, s, o, PieceType::King, false, 8);
            let cm = castle_moves(b, s, o, cr);
            lemma_leap_no_castle(b, s, o, PieceType::King, false, 8);
            lemma_castles_concat(lm, cm, h + 2);
            if o == Color::White && s == 4 {
                lemma_castles_concat(castle_kingside(b, o, 4, cr.white_kingside), castle_queenside(b, o, 4, cr.white_queenside), h + 2);
            } else if o == Color::Black && s == 60 {
                lemma_castles_concat(castle_kingside(b, o, 60, cr.black_kingside), castle_queenside(b, o, 60, cr.black_queenside), h + 2);
            }
        },
    }
}

proof fn lemma_pseudo_castles(b: Seq<Option<Piece>>, o: Color, cr: CastlingRights, ep: Option<Square>, n: int, h: int)
    requires
        o == Color::White && h == 4 || o == Color::Black && h == 60,
        castles_to(pseudo_upto(b, o, cr, ep, n), h + 2),
    ensures
        !attacked(b, h + 1, o.opp()),
    decreases n,
{
    if n > 0 {
        let tail = match b[n - 1] {
            Some(p) => if p.color == o { piece_moves(b, n - 1, p, cr, ep) } else { Seq::empty() },
            None => Seq::empty(),
        };
        lemma_castles_concat(pseudo_upto(b, o, cr, ep, n - 1), tail, h + 2);
        if castles_to(tail, h + 2) {
            lemma_piece_castles(b, n - 1, b[n - 1]->0, cr, ep, h);
        } else {
            lemma_pseudo_castles(b, o, cr, ep, n - 1, h);
        }
    }
}

proof fn lemma_keep_legal_castles(p: Pos, ms: Seq<Move>, k: int)
    requires
        castles_to(keep_legal(p, ms), k),
    ensures
        castles_to(ms, k),
    decreases ms.len(),
{
    if ms.len() > 0 {
        let kept = keep_legal(p, ms.drop_last());
        let last = if !in_check(make_spec(p, ms.last()).board, p.turn) { seq![ms.last()] } else { Seq::<Move>::empty() };
        lemma_castles_concat(kept, last, k);
        lemma_castles_concat(ms.drop_last(), seq![ms.last()], k);
        assert(ms =~= ms.drop_last() + seq![ms.last()]);
        if castles_to(kept, k) {
            lemma_keep_legal_castles(p, ms.drop_last(), k);
        }
    }
}

/// Castling is never legal across an attacked square: the side to move
/// cannot castle king-side while the square its king passes is attacked.
pub proof fn lemma_no_castling_through_attack(p: Pos)
    requires
        attacked(p.board, if p.turn == Color::White { 5int } else { 61int }, p.turn.opp()),
    ensures
        !castles_to(legal_moves(p), if p.turn == Color::White { 6int } else { 62int }),
{
    let h = if p.turn == Color::White { 4int } else { 60int };
    if castles_to(legal_moves(p), h + 2) {
        lemma_keep_legal_castles(p, pseudo_moves(p.board, p.turn, p.castling, p.ep), h + 2);
        lemma_pseudo_castles(p.board, p.turn, p.castling, p.ep, 64, h);
    }
}
} // verus!
