//! Transposition table: a fixed-capacity, always-replace cache of search
//! results keyed by the position's 64-bit Zobrist hash.

use vstd::prelude::*;
use crate::eval::INFINITY;

verus! {

/// How a stored score relates to the true value of the searched window:
/// `Exact` is the minimax value, `Lower` failed high (true value at least
/// the score), `Upper` failed low (true value at most the score).
#[derive(Clone, Copy, Debug, PartialEq, Eq, Structural)]
pub enum TtBound {
    Upper,
    Exact,
    Lower,
}

/// One cached search result: the best move packed into 16 bits
/// (`helpers::NO_MOVE_CODE` when none), the draft it was searched to, its score and
/// the bound kind. Together with the 64-bit key a full slot fits 16 bytes.
#[derive(Clone, Copy, Debug, PartialEq, Eq, Structural)]
pub struct TtEntry {
    pub best_move: u16,
    pub depth: u8,
    pub score: i16,
    pub bound: TtBound,
}

impl TtEntry {
    /// Scores in the table always lie strictly inside the window bounds:
    /// a search stores only scores that some move actually achieved.
    pub open spec fn wf(self) -> bool {
        -INFINITY < self.score < INFINITY
    }
}

/// Bytes per table slot: an occupied flag amortised into the entry, the
/// 64-bit key, and the entry itself.
pub const SLOT_BYTES: usize = 16;

/// The slot for hash `h` in a table of `n` slots: `(h * n) / 2^64`, a
/// multiply-then-take-high-bits map of the full 64-bit key space onto
/// `0..n` that avoids a modulus.
pub open spec fn spec_tt_index(h: u64, n: nat) -> int {
    (h as int * n as int) / 0x1_0000_0000_0000_0000
}

/// The fastrange map lands inside the table.
pub proof fn lemma_tt_index_in_range(h: u64, n: nat)
    requires
        n >= 1,
    ensures
        0 <= spec_tt_index(h, n) < n as int,
{
    let p: int = 0x1_0000_0000_0000_0000;
    vstd::arithmetic::div_mod::lemma_div_nonincreasing(h as int * n as int, p);
    vstd::arithmetic::div_mod::lemma_div_pos_is_pos(h as int * n as int, p);
    assert(h as int * n as int <= (p - 1) * n as int) by (nonlinear_arith)
        requires
            h as int <= p - 1,
            n as int >= 1,
    ;
    assert(((p - 1) * n as int) / p < n as int) by (nonlinear_arith)
        requires
            p == 0x1_0000_0000_0000_0000,
            n as int >= 1,
    ;
    vstd::arithmetic::div_mod::lemma_div_is_ordered(h as int * n as int, (p - 1) * n as int, p);
}

/// What `load` yields from a table's contents: the entry stored in the
/// slot the key maps to, if the slot is occupied under exactly that key.
pub open spec fn spec_tt_load(table: Seq<Option<(u64, TtEntry)>>, hash: u64) -> Option<TtEntry> {
    let slot = table[spec_tt_index(hash, table.len())];
    if slot is Some && (slot->0).0 == hash {
        Some((slot->0).1)
    } else {
        None
    }
}

/// A fixed-capacity hash-indexed cache of (key, entry) pairs with an
/// always-replace policy: a store overwrites whatever occupies the slot
/// its key maps to.
pub struct TranspositionTable {
    table: Vec<Option<(u64, TtEntry)>>,
}

impl TranspositionTable {
    /// The table's slots, each either free or holding a keyed entry.
    pub closed spec fn view(self) -> Seq<Option<(u64, TtEntry)>> {
        self.table@
    }

    /// A usable table has at least one slot, and every stored entry is
    /// well formed.
    pub open spec fn wf(self) -> bool {
        self@.len() >= 1 && forall|i: int|
            0 <= i < self@.len() && self@[i] is Some ==> ((#[trigger] self@[i])->0).1.wf()
    }

    /// Allocate `tt_bytes / SLOT_BYTES` slots, all free.
    pub fn new(tt_bytes: usize) -> (r: Self)
        ensures
            r@.len() == tt_bytes / SLOT_BYTES,
            forall|i: int| 0 <= i < r@.len() ==> r@[i] is None,
            tt_bytes >= SLOT_BYTES ==> r.wf(),
    {
        TranspositionTable { table: vec![None; tt_bytes / SLOT_BYTES] }
    }

    /// The number of slots.
    pub fn len(&self) -> (r: usize)
        ensures
            r == self@.len(),
    {
        self.table.len()
    }

    /// The slot index for a key.
    fn index(&self, hash: u64) -> (r: usize)
        requires
            self.wf(),
        ensures
            r == spec_tt_index(hash, self@.len()),
    {
        proof {
            lemma_tt_index_in_range(hash, self@.len() as nat);
        }
        ((hash as u128 * self.table.len() as u128) / 0x1_0000_0000_0000_0000u128) as usize
    }

    /// Look up a key. Returns the stored entry exactly when the slot the
    /// key maps to is occupied under the same full key — never an entry
    /// stored under a different key.
    pub fn load(&self, hash: u64) -> (r: Option<TtEntry>)
        requires
            self.wf(),
        ensures
            r == spec_tt_load(self@, hash),
            r is Some ==> r->0.wf(),
    {
        proof {
            lemma_tt_index_in_range(hash, self@.len() as nat);
        }
        let i = self.index(hash);
        match self.table[i] {
            Some((stored_hash, entry)) => {
                if stored_hash == hash {
                    Some(entry)
                } else {
                    None
                }
            },
            None => None,
        }
    }

    /// Store an entry under a key, overwriting whatever occupies the slot
    /// the key maps to (always-replace policy).
    pub fn store(&mut self, hash: u64, entry: TtEntry)
        requires
            old(self).wf(),
            entry.wf(),
        ensures
            final(self).wf(),
            final(self)@ == old(self)@.update(
                spec_tt_index(hash, old(self)@.len()),
                Some((hash, entry)),
            ),
    {
        proof {
            lemma_tt_index_in_range(hash, self@.len() as nat);
        }
        let i = self.index(hash);
        self.table.set(i, Some((hash, entry)));
    }

    /// Free every slot; the capacity is kept.
    pub fn clear(&mut self)
        ensures
            final(self)@.len() == old(self)@.len(),
            forall|i: int| 0 <= i < final(self)@.len() ==> final(self)@[i] is None,
            old(self).wf() ==> final(self).wf(),
    {
        let n = self.table.len();
        self.table = vec![None; n];
    }
}

/// A store followed by a load of the same key yields the stored entry, and
/// a load of another key yields what it yielded before unless the two keys
/// collide on the same slot — in which case the newcomer has overwritten
/// the older entry.
pub proof fn lemma_tt_round_trip(
    t0: Seq<Option<(u64, TtEntry)>>,
    hash: u64,
    entry: TtEntry,
    other: u64,
)
    requires
        t0.len() >= 1,
    ensures
        spec_tt_load(t0.update(spec_tt_index(hash, t0.len()), Some((hash, entry))), hash) == Some(
            entry,
        ),
        spec_tt_index(other, t0.len()) != spec_tt_index(hash, t0.len()) ==> spec_tt_load(
            t0.update(spec_tt_index(hash, t0.len()), Some((hash, entry))),
            other,
        ) == spec_tt_load(t0, other),
{
    lemma_tt_index_in_range(hash, t0.len());
    lemma_tt_index_in_range(other, t0.len());
}

} // verus!
