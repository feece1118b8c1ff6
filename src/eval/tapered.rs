use vstd::prelude::*;

verus! {

/// Phase of the opening; a phase of 0 is the pure endgame.
pub const MAX_PHASE: i32 = 24;

/// Division truncating toward zero, as Rust's integer division does.
pub open spec fn tdiv(n: int, d: int) -> int {
    if n >= 0 { n / d } else { -((-n) / d) }
}

/// Linear blend of middlegame and endgame scores: phase 24 gives `mg`, phase 0 gives `eg`.
pub open spec fn blend(mg: int, eg: int, phase: int) -> int {
    tdiv(mg * phase + eg * (24 - phase), 24)
}

pub fn interpolate(mg_score: i32, eg_score: i32, phase: i32) -> (r: i32)
    requires
        0 <= phase <= 24,
    ensures
        r as int == blend(mg_score as int, eg_score as int, phase as int),
{
    let w: i64 = (24 - phase) as i64;
    let p: i64 = phase as i64;
    let m: i64 = mg_score as i64;
    let e: i64 = eg_score as i64;
    assert(-0x8000_0000 * p <= m * p <= 0x7FFF_FFFF * p) by (nonlinear_arith)
        requires
            0 <= p <= 24,
            -0x8000_0000 <= m <= 0x7FFF_FFFF,
    ;
    assert(-0x8000_0000 * w <= e * w <= 0x7FFF_FFFF * w) by (nonlinear_arith)
        requires
            0 <= w <= 24,
            -0x8000_0000 <= e <= 0x7FFF_FFFF,
    ;
    let a: i64 = m * p;
    let b: i64 = e * w;
    let n: i64 = a + b;
    assert(-0x8000_0000 * 24 <= n <= 0x7FFF_FFFF * 24);
    let q: i64 = if n >= 0 { n / 24 } else { -((-n) / 24) };
    assert(-0x8000_0000 <= q <= 0x7FFF_FFFF);
    q as i32
}

} // verus!
