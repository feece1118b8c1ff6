use vstd::prelude::*;

use crate::geometry::{on_board, knight_dr, knight_df, dir_dr, dir_df, knight_offset, dir_offset, square_at};
use crate::types::Square;

verus! {

/// The eight compass directions, in the order of the ray table.
#[derive(Debug, Clone, Copy, PartialEq, Eq, Structural)]
pub enum Direction {
    North,
    South,
    East,
    West,
    NorthEast,
    NorthWest,
    SouthEast,
    SouthWest,
}

pub open spec fn dir_index(d: Direction) -> int {
    match d {
        Direction::North => 0,
        Direction::South => 1,
        Direction::East => 2,
        Direction::West => 3,
        Direction::NorthEast => 4,
        Direction::NorthWest => 5,
        Direction::SouthEast => 6,
        Direction::SouthWest => 7,
    }
}

impl Direction {
    pub fn index(&self) -> (r: usize)
        ensures
            r == dir_index(*self),
    {
        match self {
            Direction::North => 0,
            Direction::South => 1,
            Direction::East => 2,
            Direction::West => 3,
            Direction::NorthEast => 4,
            Direction::NorthWest => 5,
            Direction::SouthEast => 6,
            Direction::SouthWest => 7,
        }
    }

    /// (rank step, file step) of the direction.
    pub fn offset(&self) -> (r: (i32, i32))
        ensures
            r.0 == dir_dr(dir_index(*self)),
            r.1 == dir_df(dir_index(*self)),
    {
        dir_offset(self.index())
    }

    pub fn all() -> (r: [Direction; 8])
        ensures
            forall|i: int| 0 <= i < 8 ==> dir_index(#[trigger] r@[i]) == i,
    {
        [
            Direction::North,
            Direction::South,
            Direction::East,
            Direction::West,
            Direction::NorthEast,
            Direction::NorthWest,
            Direction::SouthEast,
            Direction::SouthWest,
        ]
    }
}

/// Squares reached from `sq` by the first `k` knight (or king) offsets, in offset order.
pub open spec fn leap_targets(sq: int, knight: bool, k: int) -> Seq<Square>
    decreases k,
{
    if k <= 0 {
        Seq::empty()
    } else {
        let r = sq / 8 + if knight { knight_dr(k - 1) } else { dir_dr(k - 1) };
        let f = sq % 8 + if knight { knight_df(k - 1) } else { dir_df(k - 1) };
        leap_targets(sq, knight, k - 1) + if on_board(r, f) {
            seq![(r * 8 + f) as Square]
        } else {
            Seq::empty()
        }
    }
}

/// On-board squares from `(r, f)` onwards in steps `(dr, df)`, to the edge.
pub open spec fn ray_targets(r: int, f: int, dr: int, df: int, fuel: nat) -> Seq<Square>
    decreases fuel,
{
    if fuel == 0 || !on_board(r, f) {
        Seq::empty()
    } else {
        seq![(r * 8 + f) as Square] + ray_targets(r + dr, f + df, dr, df, (fuel - 1) as nat)
    }
}

pub open spec fn abs_diff(a: int, b: int) -> int {
    if a >= b { a - b } else { b - a }
}

pub open spec fn chebyshev_spec(s1: int, s2: int) -> int {
    let dr = abs_diff(s1 / 8, s2 / 8);
    let dc = abs_diff(s1 % 8, s2 % 8);
    if dr >= dc { dr } else { dc }
}

pub open spec fn manhattan_spec(s1: int, s2: int) -> int {
    abs_diff(s1 / 8, s2 / 8) + abs_diff(s1 % 8, s2 % 8)
}

fn generate_leaps(square: Square, knight: bool) -> (r: Vec<Square>)
    requires
        square < 64,
    ensures
        r@ == leap_targets(square as int, knight, 8),
{
    let row = (square / 8) as i32;
    let col = (square % 8) as i32;
    let mut attacks: Vec<Square> = Vec::new();
    let mut k: usize = 0;
    while k < 8
        invariant
            k <= 8,
            square < 64,
            row == square / 8,
            col == square % 8,
            attacks@ == leap_targets(square as int, knight, k as int),
        decreases 8 - k,
    {
        let (dr, dc) = if knight { knight_offset(k) } else { dir_offset(k) };
        match square_at(row + dr, col + dc) {
            Some(t) => attacks.push(t),
            None => {},
        }
        assert(attacks@ =~= leap_targets(square as int, knight, k as int + 1));
        k = k + 1;
    }
    attacks
}

/// Knight targets of a square, in offset order.
fn generate_knight_attacks(square: Square) -> (r: Vec<Square>)
    requires
        square < 64,
    ensures
        r@ == leap_targets(square as int, true, 8),
{
    generate_leaps(square, true)
}

/// King targets of a square, in direction order.
fn generate_king_attacks(square: Square) -> (r: Vec<Square>)
    requires
        square < 64,
    ensures
        r@ == leap_targets(square as int, false, 8),
{
    generate_leaps(square, false)
}

/// The squares from `square` to the edge in one direction.
fn generate_ray(square: Square, d: usize) -> (r: Vec<Square>)
    requires
        square < 64,
        d < 8,
    ensures
        r@ == ray_targets(square / 8 + dir_dr(d as int), square % 8 + dir_df(d as int), dir_dr(d as int), dir_df(d as int), 8),
{
    let (dr, dc) = dir_offset(d);
    let mut r = (square / 8) as i32 + dr;
    let mut c = (square % 8) as i32 + dc;
    let ghost target = ray_targets(square / 8 + dir_dr(d as int), square % 8 + dir_df(d as int), dir_dr(d as int), dir_df(d as int), 8);
    let mut ray: Vec<Square> = Vec::new();
    let mut fuel: u32 = 8;
    let mut stop = false;
    while fuel > 0 && !stop
        invariant
            -1 <= dr <= 1,
            -1 <= dc <= 1,
            -9 <= r <= 17,
            -9 <= c <= 17,
            fuel <= 8,
            fuel < 8 ==> on_board(r - dr, c - dc),
            stop ==> ray@ == target,
            !stop ==> ray@ + ray_targets(r as int, c as int, dr as int, dc as int, fuel as nat) == target,
        decreases fuel + if stop { 0int } else { 1int },
    {
        match square_at(r, c) {
            Some(t) => {
                let ghost before = ray@;
                ray.push(t);
                assert(before + ray_targets(r as int, c as int, dr as int, dc as int, fuel as nat) =~= ray@
                    + ray_targets(r + dr, c + dc, dr as int, dc as int, (fuel - 1) as nat));
                r = r + dr;
                c = c + dc;
                fuel = fuel - 1;
            },
            None => {
                assert(ray_targets(r as int, c as int, dr as int, dc as int, fuel as nat) =~= Seq::<Square>::empty());
                assert(ray@ =~= target);
                stop = true;
            },
        }
    }
    if !stop {
        assert(ray@ =~= target);
    }
    ray
}

fn abs_i32(x: i32) -> (r: i32)
    requires
        x > i32::MIN,
    ensures
        r == if x >= 0 { x as int } else { -x },
{
    if x >= 0 { x } else { -x }
}

/// King distance between two squares.
fn chebyshev_distance(sq1: Square, sq2: Square) -> (r: u8)
    requires
        sq1 < 64,
        sq2 < 64,
    ensures
        r == chebyshev_spec(sq1 as int, sq2 as int),
{
    let dr = abs_i32((sq1 / 8) as i32 - (sq2 / 8) as i32);
    let dc = abs_i32((sq1 % 8) as i32 - (sq2 % 8) as i32);
    if dr >= dc { dr as u8 } else { dc as u8 }
}

/// Rank distance plus file distance.
fn manhattan_distance(sq1: Square, sq2: Square) -> (r: u8)
    requires
        sq1 < 64,
        sq2 < 64,
    ensures
        r == manhattan_spec(sq1 as int, sq2 as int),
{
    let dr = abs_i32((sq1 / 8) as i32 - (sq2 / 8) as i32);
    let dc = abs_i32((sq1 % 8) as i32 - (sq2 % 8) as i32);
    (dr + dc) as u8
}

/// Knight targets of every square.
pub struct KnightAttacks {
    attacks: Vec<Vec<Square>>,
}

impl KnightAttacks {
    pub closed spec fn wf(&self) -> bool {
        &&& self.attacks@.len() == 64
        &&& forall|s: int| 0 <= s < 64 ==> #[trigger] self.attacks@[s]@ == leap_targets(s, true, 8)
    }

    pub fn new() -> (r: KnightAttacks)
        ensures
            r.wf(),
    {
        let mut attacks: Vec<Vec<Square>> = Vec::new();
        let mut s: usize = 0;
        while s < 64
            invariant
                s <= 64,
                attacks@.len() == s,
                forall|j: int| 0 <= j < s ==> #[trigger] attacks@[j]@ == leap_targets(j, true, 8),
            decreases 64 - s,
        {
            attacks.push(generate_knight_attacks(s));
            s = s + 1;
        }
        KnightAttacks { attacks }
    }

    /// The squares a knight on `square` attacks.
    pub fn get(&self, square: Square) -> (r: &Vec<Square>)
        requires
            self.wf(),
            square < 64,
        ensures
            r@ == leap_targets(square as int, true, 8),
    {
        &self.attacks[square]
    }
}

/// King targets of every square.
pub struct KingAttacks {
    attacks: Vec<Vec<Square>>,
}

impl KingAttacks {
    pub closed spec fn wf(&self) -> bool {
        &&& self.attacks@.len() == 64
        &&& forall|s: int| 0 <= s < 64 ==> #[trigger] self.attacks@[s]@ == leap_targets(s, false, 8)
    }

    pub fn new() -> (r: KingAttacks)
        ensures
            r.wf(),
    {
        let mut attacks: Vec<Vec<Square>> = Vec::new();
        let mut s: usize = 0;
        while s < 64
            invariant
                s <= 64,
                attacks@.len() == s,
                forall|j: int| 0 <= j < s ==> #[trigger] attacks@[j]@ == leap_targets(j, false, 8),
            decreases 64 - s,
        {
            attacks.push(generate_king_attacks(s));
            s = s + 1;
        }
        KingAttacks { attacks }
    }

    /// The squares a king on `square` attacks.
    pub fn get(&self, square: Square) -> (r: &Vec<Square>)
        requires
            self.wf(),
            square < 64,
        ensures
            r@ == leap_targets(square as int, false, 8),
    {
        &self.attacks[square]
    }
}

pub open spec fn ray_of(s: int, d: int) -> Seq<Square> {
    ray_targets(s / 8 + dir_dr(d), s % 8 + dir_df(d), dir_dr(d), dir_df(d), 8)
}

/// For each square and direction, the squares to the edge of the board.
pub struct RayTable {
    rays: Vec<Vec<Vec<Square>>>,
}

impl RayTable {
    pub closed spec fn wf(&self) -> bool {
        &&& self.rays@.len() == 64
        &&& forall|s: int| 0 <= s < 64 ==> (#[trigger] self.rays@[s])@.len() == 8
        &&& forall|s: int, d: int| 0 <= s < 64 && 0 <= d < 8 ==> #[trigger] self.rays@[s]@[d]@ == ray_of(s, d)
    }

    pub fn new() -> (r: RayTable)
        ensures
            r.wf(),
    {
        let mut rays: Vec<Vec<Vec<Square>>> = Vec::new();
        let mut s: usize = 0;
        while s < 64
            invariant
                s <= 64,
                rays@.len() == s,
                forall|j: int| 0 <= j < s ==> (#[trigger] rays@[j])@.len() == 8,
                forall|j: int, d: int| 0 <= j < s && 0 <= d < 8 ==> #[trigger] rays@[j]@[d]@ == ray_of(j, d),
            decreases 64 - s,
        {
            let mut per: Vec<Vec<Square>> = Vec::new();
            let mut d: usize = 0;
            while d < 8
                invariant
                    d <= 8,
                    s < 64,
                    per@.len() == d,
                    forall|e: int| 0 <= e < d ==> #[trigger] per@[e]@ == ray_of(s as int, e),
                decreases 8 - d,
            {
                per.push(generate_ray(s, d));
                d = d + 1;
            }
            rays.push(per);
            s = s + 1;
        }
        RayTable { rays }
    }

    /// The squares from `square` to the edge towards `direction`.
    pub fn get(&self, square: Square, direction: Direction) -> (r: &Vec<Square>)
        requires
            self.wf(),
            square < 64,
        ensures
            r@ == ray_of(square as int, dir_index(direction)),
    {
        let d = direction.index();
        &self.rays[square][d]
    }
}

/// King and Manhattan distances between every pair of squares.
pub struct DistanceTables {
    chebyshev: Vec<Vec<u8>>,
    manhattan: Vec<Vec<u8>>,
}

impl DistanceTables {
    pub closed spec fn wf(&self) -> bool {
        &&& self.chebyshev@.len() == 64
        &&& self.manhattan@.len() == 64
        &&& forall|a: int| 0 <= a < 64 ==> (#[trigger] self.chebyshev@[a])@.len() == 64
        &&& forall|a: int| 0 <= a < 64 ==> (#[trigger] self.manhattan@[a])@.len() == 64
        &&& forall|a: int, b: int| 0 <= a < 64 && 0 <= b < 64 ==> #[trigger] self.chebyshev@[a]@[b] == chebyshev_spec(a, b)
        &&& forall|a: int, b: int| 0 <= a < 64 && 0 <= b < 64 ==> #[trigger] self.manhattan@[a]@[b] == manhattan_spec(a, b)
    }

    pub fn new() -> (r: DistanceTables)
        ensures
            r.wf(),
    {
        let mut chebyshev: Vec<Vec<u8>> = Vec::new();
        let mut manhattan: Vec<Vec<u8>> = Vec::new();
        let mut a: usize = 0;
        while a < 64
            invariant
                a <= 64,
                chebyshev@.len() == a,
                manhattan@.len() == a,
                forall|i: int| 0 <= i < a ==> (#[trigger] chebyshev@[i])@.len() == 64,
                forall|i: int| 0 <= i < a ==> (#[trigger] manhattan@[i])@.len() == 64,
                forall|i: int, j: int| 0 <= i < a && 0 <= j < 64 ==> #[trigger] chebyshev@[i]@[j] == chebyshev_spec(i, j),
                forall|i: int, j: int| 0 <= i < a && 0 <= j < 64 ==> #[trigger] manhattan@[i]@[j] == manhattan_spec(i, j),
            decreases 64 - a,
        {
            let mut crow: Vec<u8> = Vec::new();
            let mut mrow: Vec<u8> = Vec::new();
            let mut b: usize = 0;
            while b < 64
                invariant
                    b <= 64,
                    a < 64,
                    crow@.len() == b,
                    mrow@.len() == b,
                    forall|j: int| 0 <= j < b ==> #[trigger] crow@[j] == chebyshev_spec(a as int, j),
                    forall|j: int| 0 <= j < b ==> #[trigger] mrow@[j] == manhattan_spec(a as int, j),
                decreases 64 - b,
            {
                crow.push(chebyshev_distance(a, b));
                mrow.push(manhattan_distance(a, b));
                b = b + 1;
            }
            chebyshev.push(crow);
            manhattan.push(mrow);
            a = a + 1;
        }
        DistanceTables { chebyshev, manhattan }
    }

    pub fn chebyshev(&self, sq1: Square, sq2: Square) -> (r: u8)
        requires
            self.wf(),
            sq1 < 64,
            sq2 < 64,
        ensures
            r == chebyshev_spec(sq1 as int, sq2 as int),
    {
        self.chebyshev[sq1][sq2]
    }

    pub fn manhattan(&self, sq1: Square, sq2: Square) -> (r: u8)
        requires
            self.wf(),
            sq1 < 64,
            sq2 < 64,
        ensures
            r == manhattan_spec(sq1 as int, sq2 as int),
    {
        self.manhattan[sq1][sq2]
    }
}

/// All precomputed tables.
pub struct AttackTables {
    pub knight: KnightAttacks,
    pub king: KingAttacks,
    pub rays: RayTable,
    pub distance: DistanceTables,
}

impl AttackTables {
    pub open spec fn wf(&self) -> bool {
        self.knight.wf() && self.king.wf() && self.rays.wf() && self.distance.wf()
    }

    /// Builds every table; the contents depend on nothing but the geometry of the board.
    pub fn new() -> (r: AttackTables)
        ensures
            r.wf(),
    {
        AttackTables {
            knight: KnightAttacks::new(),
            king: KingAttacks::new(),
            rays: RayTable::new(),
            distance: DistanceTables::new(),
        }
    }
}

/// The attack tables (built afresh; every build holds the same contents).
pub fn get_attack_tables() -> (r: AttackTables)
    ensures
        r.wf(),
{
    AttackTables::new()
}

} // verus!
