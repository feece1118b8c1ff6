use vstd::prelude::*;

use crate::types::Square;
use crate::zobrist::ZobristKey;

verus! {

/// How a stored score relates to the true value.
#[derive(Debug, Clone, Copy, PartialEq, Eq, Structural)]
pub enum BoundType {
    /// The score is exact.
    Exact,
    /// The true score is at least the stored one (fail high).
    LowerBound,
    /// The true score is at most the stored one (fail low).
    UpperBound,
}

/// One slot of the table; a zero key marks an empty slot.
#[derive(Debug, Clone, Copy, PartialEq, Eq, Structural)]
pub struct TTEntry {
    pub key: ZobristKey,
    pub depth: u8,
    pub score: i32,
    pub bound: BoundType,
    /// Best move found here, encoded as `from | to << 6`.
    pub best_move: Option<u16>,
    /// Search generation that wrote the entry.
    pub age: u8,
}

pub open spec fn empty_entry() -> TTEntry {
    TTEntry { key: 0, depth: 0, score: 0, bound: BoundType::Exact, best_move: None, age: 0 }
}

impl TTEntry {
    pub fn empty() -> (r: TTEntry)
        ensures
            r == empty_entry(),
    {
        TTEntry { key: 0, depth: 0, score: 0, bound: BoundType::Exact, best_move: None, age: 0 }
    }

    pub fn is_valid(&self) -> (r: bool)
        ensures
            r == (self.key != 0),
    {
        self.key != 0
    }
}

/// Bytes budgeted per entry when a size in megabytes is turned into a slot count.
pub const ENTRY_BYTES: usize = 16;

/// Slot count for a budget of `mb` megabytes: the next power of two.
pub open spec fn is_pow2(n: nat) -> bool
    decreases n,
{
    if n == 1 {
        true
    } else if n < 1 || n % 2 == 1 {
        false
    } else {
        is_pow2(n / 2)
    }
}

/// The slot of a key: its low bits.
pub open spec fn slot_of(key: u64, size: usize) -> int {
    (key & ((size - 1) as u64)) as int
}

/// Model of the table.
pub struct TTView {
    pub entries: Seq<TTEntry>,
    pub age: u8,
    pub size: usize,
}

/// What `probe(key)` returns.
pub open spec fn probe_spec(t: TTView, key: u64) -> Option<TTEntry> {
    let e = t.entries[slot_of(key, t.size)];
    if e.key != 0 && e.key == key {
        Some(e)
    } else {
        None
    }
}

/// The replacement rule: an empty slot, an entry of another search, or a new
/// depth at least the stored one.
pub open spec fn replaces(old: TTEntry, age: u8, depth: u8) -> bool {
    old.key == 0 || old.age != age || depth >= old.depth
}

/// The table after `store`.
pub open spec fn store_spec(
    t: TTView,
    key: u64,
    depth: u8,
    score: i32,
    bound: BoundType,
    best_move: Option<u16>,
) -> TTView {
    let i = slot_of(key, t.size);
    if replaces(t.entries[i], t.age, depth) {
        TTView {
            entries: t.entries.update(
                i,
                TTEntry { key, depth, score, bound, best_move, age: t.age },
            ),
            ..t
        }
    } else {
        t
    }
}

/// Fixed-capacity table indexed by the low bits of the key.
pub struct TranspositionTable {
    entries: Vec<TTEntry>,
    age: u8,
    size: usize,
}

impl View for TranspositionTable {
    type V = TTView;

    closed spec fn view(&self) -> TTView {
        TTView { entries: self.entries@, age: self.age, size: self.size }
    }
}

proof fn lemma_mask_below(key: u64, m: u64)
    ensures
        key & m <= m,
{
    assert(key & m <= m) by (bit_vector);
}

impl TranspositionTable {
    /// The slot count is a power of two and every slot exists.
    pub open spec fn wf(&self) -> bool {
        &&& self@.size > 0
        &&& is_pow2(self@.size as nat)
        &&& self@.entries.len() == self@.size
    }

    /// A table of at least `size_mb` megabytes worth of slots, rounded up to a
    /// power of two, all empty, at age 0.
    pub fn new(size_mb: usize) -> (r: TranspositionTable)
        requires
            size_mb as int * 131072 <= usize::MAX,
        ensures
            r.wf(),
            r@.age == 0,
            r@.size as int >= size_mb as int * 1024 * 1024 / (ENTRY_BYTES as int),
            r@.size < 2 * (size_mb as int * 1024 * 1024 / (ENTRY_BYTES as int)) || r@.size == 1,
            r@.size >= 1,
            forall|i: int| 0 <= i < r@.size ==> #[trigger] r@.entries[i] == empty_entry(),
    {
        let wanted = size_mb * (1024 * 1024 / ENTRY_BYTES);
        assert(size_mb as int * 1024 * 1024 / 16 == size_mb as int * 65536) by (nonlinear_arith);
        let mut n: usize = 1;
        while n < wanted
            invariant
                1 <= n,
                n < 2 * wanted || n == 1,
                wanted as int * 2 <= usize::MAX,
                is_pow2(n as nat),
            decreases 2 * wanted + 1 - n,
        {
            assert(is_pow2((2 * n) as nat)) by {
                assert((2 * n) as nat / 2 == n as nat);
            }
            n = n * 2;
        }
        let mut entries: Vec<TTEntry> = Vec::new();
        let mut i: usize = 0;
        while i < n
            invariant
                i <= n,
                entries@.len() == i,
                forall|j: int| 0 <= j < i ==> #[trigger] entries@[j] == empty_entry(),
            decreases n - i,
        {
            entries.push(TTEntry::empty());
            i = i + 1;
        }
        TranspositionTable { entries, age: 0, size: n }
    }

    /// The slot of a key.
    pub fn index(&self, key: ZobristKey) -> (r: usize)
        requires
            self.wf(),
        ensures
            r == slot_of(key, self@.size),
            r < self@.size,
    {
        proof {
            lemma_mask_below(key, (self.size - 1) as u64);
        }
        (key & ((self.size - 1) as u64)) as usize
    }

    /// The entry stored for `key`, if its slot holds it.
    pub fn probe(&self, key: ZobristKey) -> (r: Option<TTEntry>)
        requires
            self.wf(),
        ensures
            r == probe_spec(self@, key),
    {
        let idx = self.index(key);
        let entry = self.entries[idx];
        if entry.is_valid() && entry.key == key {
            Some(entry)
        } else {
            None
        }
    }

    /// Stores an entry when the replacement rule allows it.
    pub fn store(
        &mut self,
        key: ZobristKey,
        depth: u8,
        score: i32,
        bound: BoundType,
        best_move: Option<u16>,
    )
        requires
            old(self).wf(),
        ensures
            final(self).wf(),
            final(self)@ == store_spec(old(self)@, key, depth, score, bound, best_move),
    {
        let idx = self.index(key);
        let old_entry = self.entries[idx];
        let should_replace = !old_entry.is_valid() || old_entry.age != self.age || depth
            >= old_entry.depth;
        if should_replace {
            let e = TTEntry { key, depth, score, bound, best_move, age: self.age };
            self.entries.set(idx, e);
        }
    }

    /// Empties every slot.
    pub fn clear(&mut self)
        requires
            old(self).wf(),
        ensures
            final(self).wf(),
            final(self)@.size == old(self)@.size,
            final(self)@.age == old(self)@.age,
            forall|i: int| 0 <= i < final(self)@.size ==> #[trigger] final(self)@.entries[i] == empty_entry(),
    {
        let mut i: usize = 0;
        while i < self.size
            invariant
                self.wf(),
                self@.size == old(self)@.size,
                self@.age == old(self)@.age,
                i <= self@.size,
                forall|j: int| 0 <= j < i ==> #[trigger] self@.entries[j] == empty_entry(),
            decreases self@.size - i,
        {
            self.entries.set(i, TTEntry::empty());
            i = i + 1;
        }
    }

    /// Starts a new search generation (the age wraps around).
    pub fn new_search(&mut self)
        requires
            old(self).wf(),
        ensures
            final(self).wf(),
            final(self)@ == (TTView { age: old(self)@.age.wrapping_add(1), ..old(self)@ }),
    {
        self.age = self.age.wrapping_add(1);
    }

    pub fn size(&self) -> (r: usize)
        ensures
            r == self@.size,
    {
        self.size
    }

    pub fn age(&self) -> (r: u8)
        ensures
            r == self@.age,
    {
        self.age
    }
}

impl Default for TranspositionTable {
    fn default() -> (r: TranspositionTable)
        ensures
            r.wf(),
    {
        TranspositionTable::new(16)
    }
}

/// Storing an entry that the replacement rule admits and probing its key
/// returns the entry with every field as stored.
pub proof fn lemma_store_then_probe(
    t: TTView,
    key: u64,
    depth: u8,
    score: i32,
    bound: BoundType,
    best_move: Option<u16>,
)
    requires
        t.size > 0,
        t.entries.len() == t.size,
        key != 0,
        replaces(t.entries[slot_of(key, t.size)], t.age, depth),
    ensures
        probe_spec(store_spec(t, key, depth, score, bound, best_move), key) == Some(
            TTEntry { key, depth, score, bound, best_move, age: t.age },
        ),
{
    lemma_mask_below(key, (t.size - 1) as u64);
}

/// Packs a move as `from | to << 6`.
pub fn encode_move(from: Square, to: Square) -> (r: u16)
    requires
        from < 64,
        to < 64,
    ensures
        r == from + 64 * to,
{
    let f = from as u16;
    let t = to as u16;
    assert(f | (t << 6) == f + 64 * t) by (bit_vector)
        requires
            f < 64,
            t < 64,
    ;
    f | (t << 6)
}

/// Unpacks `from | to << 6`.
pub fn decode_move(encoded: u16) -> (r: (Square, Square))
    ensures
        r.0 == encoded % 64,
        r.1 == (encoded / 64) % 64,
{
    assert(encoded & 0x3F == encoded % 64) by (bit_vector);
    assert((encoded >> 6) & 0x3F == (encoded / 64) % 64) by (bit_vector);
    let from = (encoded & 0x3F) as Square;
    let to = ((encoded >> 6) & 0x3F) as Square;
    (from, to)
}

} // verus!
