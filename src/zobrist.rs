use vstd::prelude::*;

use crate::types::{CastlingRights, Color, GameState, Piece, PieceType, Square};

verus! {

/// A 64-bit position fingerprint.
pub type ZobristKey = u64;

pub const ZOBRIST_SEED: u64 = 0x0123456789ABCDEF;

pub const LCG_MULTIPLIER: u64 = 6364136223846793005;

pub const LCG_INCREMENT: u64 = 1442695040888963407;

/// Keys for the 12 kinds of piece on 64 squares, then 4 castling flags, then
/// 8 en-passant files, then the side to move.
pub const NUM_KEYS: usize = 781;

pub const CASTLING_BASE: usize = 768;

pub const EP_BASE: usize = 772;

pub const SIDE_KEY: usize = 780;

pub open spec fn lcg_next(x: u64) -> u64 {
    x.wrapping_mul(LCG_MULTIPLIER).wrapping_add(LCG_INCREMENT)
}

/// State of the generator after `n` steps from the seed.
pub open spec fn lcg_nth(n: nat) -> u64
    decreases n,
{
    if n == 0 {
        ZOBRIST_SEED
    } else {
        lcg_next(lcg_nth((n - 1) as nat))
    }
}

/// The key at index `i` of the table: the generator's output number `i + 1`.
pub open spec fn zkey(i: int) -> u64 {
    lcg_nth((i + 1) as nat)
}

pub open spec fn type_index(t: PieceType) -> int {
    match t {
        PieceType::Pawn => 0,
        PieceType::Knight => 1,
        PieceType::Bishop => 2,
        PieceType::Rook => 3,
        PieceType::Queen => 4,
        PieceType::King => 5,
    }
}

pub open spec fn color_index(c: Color) -> int {
    match c {
        Color::White => 0,
        Color::Black => 1,
    }
}

pub open spec fn piece_key_index(p: Piece, sq: int) -> int {
    type_index(p.piece_type) * 128 + color_index(p.color) * 64 + sq
}

/// Key contributed by what stands on square `sq` (0 for an empty square).
pub open spec fn sq_key(p: Option<Piece>, sq: int) -> u64 {
    match p {
        Some(pc) => zkey(piece_key_index(pc, sq)),
        None => 0,
    }
}

/// XOR of the keys of the squares below `n`.
pub open spec fn pieces_hash(board: Seq<Option<Piece>>, n: int) -> u64
    decreases n,
{
    if n <= 0 {
        0
    } else {
        pieces_hash(board, n - 1) ^ sq_key(board[n - 1], n - 1)
    }
}

pub open spec fn flag_key(on: bool, i: int) -> u64 {
    if on {
        zkey(CASTLING_BASE + i)
    } else {
        0
    }
}

/// XOR of the keys of the castling flags that are set.
pub open spec fn castling_hash(cr: CastlingRights) -> u64 {
    flag_key(cr.white_kingside, 0) ^ flag_key(cr.white_queenside, 1) ^ flag_key(
        cr.black_kingside,
        2,
    ) ^ flag_key(cr.black_queenside, 3)
}

pub open spec fn ep_hash(ep: Option<Square>) -> u64 {
    match ep {
        Some(s) => zkey(EP_BASE + (s % 8) as int),
        None => 0,
    }
}

pub open spec fn side_hash(turn: Color) -> u64 {
    if turn == Color::Black {
        zkey(SIDE_KEY as int)
    } else {
        0
    }
}

/// The fingerprint of a position, computed from scratch.
pub open spec fn hash_of(
    board: Seq<Option<Piece>>,
    turn: Color,
    cr: CastlingRights,
    ep: Option<Square>,
) -> u64 {
    pieces_hash(board, 64) ^ castling_hash(cr) ^ ep_hash(ep) ^ side_hash(turn)
}

pub proof fn lemma_xor_swap(h: u64, a: u64, b: u64, k: u64)
    ensures
        (h ^ a ^ b) ^ k == (h ^ k) ^ a ^ b,
        (h ^ a) ^ a ^ b == h ^ b,
        h ^ 0 == h,
        h ^ a ^ a == h,
        0u64 ^ h == h,
{
    assert((h ^ a ^ b) ^ k == (h ^ k) ^ a ^ b) by (bit_vector);
    assert((h ^ a) ^ a ^ b == h ^ b) by (bit_vector);
    assert(h ^ 0 == h) by (bit_vector);
    assert(h ^ a ^ a == h) by (bit_vector);
    assert(0u64 ^ h == h) by (bit_vector);
}

/// Squares at or above `n` do not contribute to `pieces_hash(_, n)`.
pub proof fn lemma_pieces_hash_above(board: Seq<Option<Piece>>, s: int, q: Option<Piece>, n: int)
    requires
        0 <= s < board.len(),
        n <= s,
    ensures
        pieces_hash(board.update(s, q), n) == pieces_hash(board, n),
    decreases n,
{
    if n > 0 {
        lemma_pieces_hash_above(board, s, q, n - 1);
    }
}

/// Changing one square changes the fingerprint by the keys of the old and new contents.
pub proof fn lemma_pieces_hash_update(board: Seq<Option<Piece>>, s: int, q: Option<Piece>, n: int)
    requires
        0 <= s < n <= board.len(),
    ensures
        pieces_hash(board.update(s, q), n) == pieces_hash(board, n) ^ sq_key(board[s], s) ^ sq_key(
            q,
            s,
        ),
    decreases n,
{
    let b2 = board.update(s, q);
    if s == n - 1 {
        lemma_pieces_hash_above(board, s, q, n - 1);
        lemma_xor_swap(pieces_hash(board, n - 1), sq_key(board[s], s), sq_key(q, s), 0);
    } else {
        lemma_pieces_hash_update(board, s, q, n - 1);
        lemma_xor_swap(
            pieces_hash(board, n - 1),
            sq_key(board[s], s),
            sq_key(q, s),
            sq_key(board[n - 1], n - 1),
        );
    }
}

/// The fixed table of pseudorandom keys.
pub struct ZobristTable {
    keys: Vec<u64>,
}

impl ZobristTable {
    /// Every key is the generator output that its index names.
    pub closed spec fn wf(&self) -> bool {
        &&& self.keys@.len() == NUM_KEYS
        &&& forall|i: int| 0 <= i < NUM_KEYS ==> #[trigger] self.keys@[i] == zkey(i)
    }

    /// Builds the table from the fixed seed; two tables always hold the same keys.
    pub fn new() -> (r: ZobristTable)
        ensures
            r.wf(),
    {
        let mut keys: Vec<u64> = Vec::new();
        let mut rng = SimplePRNG::new(ZOBRIST_SEED);
        let mut i: usize = 0;
        while i < NUM_KEYS
            invariant
                i <= NUM_KEYS,
                keys@.len() == i,
                rng.state == lcg_nth(i as nat),
                forall|j: int| 0 <= j < i ==> #[trigger] keys@[j] == zkey(j),
            decreases NUM_KEYS - i,
        {
            let k = rng.next();
            keys.push(k);
            i = i + 1;
        }
        ZobristTable { keys }
    }

    /// Key of a piece on a square.
    pub fn piece_key(&self, piece: Piece, square: Square) -> (r: u64)
        requires
            self.wf(),
            square < 64,
        ensures
            r == sq_key(Some(piece), square as int),
    {
        let t: usize = match piece.piece_type {
            PieceType::Pawn => 0,
            PieceType::Knight => 1,
            PieceType::Bishop => 2,
            PieceType::Rook => 3,
            PieceType::Queen => 4,
            PieceType::King => 5,
        };
        let c: usize = match piece.color {
            Color::White => 0,
            Color::Black => 1,
        };
        self.keys[t * 128 + c * 64 + square]
    }

    /// Key of what stands on a square, 0 when it is empty.
    pub fn square_key(&self, p: Option<Piece>, square: Square) -> (r: u64)
        requires
            self.wf(),
            square < 64,
        ensures
            r == sq_key(p, square as int),
    {
        match p {
            Some(pc) => self.piece_key(pc, square),
            None => 0,
        }
    }

    /// XOR of the keys of the castling flags that are set.
    pub fn castling_key(&self, rights: CastlingRights) -> (r: u64)
        requires
            self.wf(),
        ensures
            r == castling_hash(rights),
    {
        let a = if rights.white_kingside { self.keys[CASTLING_BASE] } else { 0 };
        let b = if rights.white_queenside { self.keys[CASTLING_BASE + 1] } else { 0 };
        let c = if rights.black_kingside { self.keys[CASTLING_BASE + 2] } else { 0 };
        let d = if rights.black_queenside { self.keys[CASTLING_BASE + 3] } else { 0 };
        a ^ b ^ c ^ d
    }

    /// Key of an en-passant file (0-7).
    pub fn en_passant_key(&self, file: usize) -> (r: u64)
        requires
            self.wf(),
            file < 8,
        ensures
            r == zkey(EP_BASE + file),
    {
        self.keys[EP_BASE + file]
    }

    /// Key of an optional en-passant target.
    pub fn ep_target_key(&self, ep: Option<Square>) -> (r: u64)
        requires
            self.wf(),
        ensures
            r == ep_hash(ep),
    {
        match ep {
            Some(s) => self.en_passant_key(s % 8),
            None => 0,
        }
    }

    /// Key XORed in when Black is to move.
    pub fn black_to_move_key(&self) -> (r: u64)
        requires
            self.wf(),
        ensures
            r == zkey(SIDE_KEY as int),
    {
        self.keys[SIDE_KEY]
    }

    pub fn side_key(&self, turn: Color) -> (r: u64)
        requires
            self.wf(),
        ensures
            r == side_hash(turn),
    {
        match turn {
            Color::Black => self.keys[SIDE_KEY],
            Color::White => 0,
        }
    }
}

impl Default for ZobristTable {
    fn default() -> (r: ZobristTable)
        ensures
            r.wf(),
    {
        ZobristTable::new()
    }
}

/// Linear congruential generator that fills the key table.
struct SimplePRNG {
    state: u64,
}

impl SimplePRNG {
    fn new(seed: u64) -> (r: SimplePRNG)
        ensures
            r.state == seed,
    {
        SimplePRNG { state: seed }
    }

    fn next(&mut self) -> (r: u64)
        ensures
            final(self).state == lcg_next(old(self).state),
            r == final(self).state,
    {
        self.state = self.state.wrapping_mul(LCG_MULTIPLIER).wrapping_add(LCG_INCREMENT);
        self.state
    }
}

/// XOR of the keys of the pieces on the board.
pub fn board_hash(board: &[Option<Piece>; 64], zobrist: &ZobristTable) -> (r: u64)
    requires
        zobrist.wf(),
    ensures
        r == pieces_hash(board@, 64),
{
    let mut h: u64 = 0;
    let mut sq: usize = 0;
    while sq < 64
        invariant
            zobrist.wf(),
            sq <= 64,
            h == pieces_hash(board@, sq as int),
        decreases 64 - sq,
    {
        h = h ^ zobrist.square_key(board[sq], sq);
        sq = sq + 1;
    }
    h
}

/// The Zobrist hash of a position, computed from every field.
pub fn compute_hash(state: &GameState, zobrist: &ZobristTable) -> (r: ZobristKey)
    requires
        zobrist.wf(),
    ensures
        r == hash_of(state.board@, state.turn, state.castling_rights, state.en_passant_target),
{
    let p = board_hash(&state.board, zobrist);
    p ^ zobrist.castling_key(state.castling_rights) ^ zobrist.ep_target_key(
        state.en_passant_target,
    ) ^ zobrist.side_key(state.turn)
}

/// A hash updated for a plain move from `from` to `to` that may capture on `to`.
pub fn update_hash_after_move(
    hash: ZobristKey,
    from: Square,
    to: Square,
    moved_piece: Piece,
    captured_piece: Option<Piece>,
    old_ep: Option<Square>,
    new_ep: Option<Square>,
    old_castling: CastlingRights,
    new_castling: CastlingRights,
    zobrist: &ZobristTable,
) -> (r: ZobristKey)
    requires
        zobrist.wf(),
        from < 64,
        to < 64,
    ensures
        r == hash ^ sq_key(Some(moved_piece), from as int) ^ sq_key(Some(moved_piece), to as int)
            ^ sq_key(captured_piece, to as int) ^ ep_hash(old_ep) ^ ep_hash(new_ep) ^ (if old_castling
            == new_castling {
            0u64
        } else {
            castling_hash(old_castling) ^ castling_hash(new_castling)
        }) ^ zkey(SIDE_KEY as int),
{
    let mut h = hash;
    h = h ^ zobrist.piece_key(moved_piece, from);
    h = h ^ zobrist.piece_key(moved_piece, to);
    h = h ^ zobrist.square_key(captured_piece, to);
    h = h ^ zobrist.ep_target_key(old_ep);
    h = h ^ zobrist.ep_target_key(new_ep);
    let c = if old_castling == new_castling {
        0
    } else {
        zobrist.castling_key(old_castling) ^ zobrist.castling_key(new_castling)
    };
    h = h ^ c;
    h = h ^ zobrist.black_to_move_key();
    h
}

} // verus!
