//! The engine: a transposition table and history tables that persist
//! across searches, and one `think` entry point per go command.

use vstd::prelude::*;
use crate::board_stack::{count_hash, spec_replay, spec_replay_hashes};
use crate::eval::INFINITY;
use crate::history_tables::HistoryTables;
use crate::search::{spec_board_status, spec_legal_repr, Search, SearchInfo, SearchLimits};
use crate::tt::{TranspositionTable, SLOT_BYTES};

verus! {

/// The engine's persistent state: the transposition table and the history
/// tables, kept across searches and cleared only on reset.
pub struct Engine {
    tt: TranspositionTable,
    history: HistoryTables,
}

impl Engine {
    /// Usable state: the table has at least one slot and both caches are
    /// well formed.
    pub open spec fn wf(self) -> bool {
        self.tt_spec().wf() && self.history_spec().wf()
    }

    /// The transposition table.
    pub closed spec fn tt_spec(self) -> TranspositionTable {
        self.tt
    }

    /// The history tables.
    pub closed spec fn history_spec(self) -> HistoryTables {
        self.history
    }

    /// Build an engine with a transposition table of the given byte
    /// budget — `tt_bytes / 16` slots, all free — and history tables at
    /// zero. At least one slot's worth is required, since every search
    /// probes the table.
    pub fn new(tt_bytes: usize) -> (r: Engine)
        requires
            tt_bytes >= SLOT_BYTES,
        ensures
            r.wf(),
            r.tt_spec()@.len() == tt_bytes / SLOT_BYTES,
            forall|i: int| 0 <= i < r.tt_spec()@.len() ==> r.tt_spec()@[i] is None,
            forall|i: int| 0 <= i < r.history_spec()@.len() ==> r.history_spec()@[i] == 0,
    {
        Engine { tt: TranspositionTable::new(tt_bytes), history: HistoryTables::new() }
    }

    /// Replace the transposition table by a fresh empty one of the given
    /// byte budget, discarding every stored entry; the history tables are
    /// untouched.
    pub fn resize_tt(&mut self, tt_bytes: usize)
        requires
            old(self).wf(),
            tt_bytes >= SLOT_BYTES,
        ensures
            final(self).wf(),
            final(self).tt_spec()@.len() == tt_bytes / SLOT_BYTES,
            forall|i: int| 0 <= i < final(self).tt_spec()@.len() ==> final(self).tt_spec()@[i] is None,
            final(self).history_spec() == old(self).history_spec(),
    {
        self.tt = TranspositionTable::new(tt_bytes);
    }

    /// Forget everything learned: free every transposition-table slot at
    /// unchanged capacity, and zero the history tables.
    pub fn reset(&mut self)
        requires
            old(self).wf(),
        ensures
            final(self).wf(),
            final(self).tt_spec()@.len() == old(self).tt_spec()@.len(),
            forall|i: int| 0 <= i < final(self).tt_spec()@.len() ==> final(self).tt_spec()@[i] is None,
            forall|i: int|
                0 <= i < final(self).history_spec()@.len() ==> final(self).history_spec()@[i] == 0,
    {
        self.tt.clear();
        self.history = HistoryTables::new();
    }

    /// Run one search from the position reached by playing `moves_played`
    /// from `init_pos`, under the given limits. Reports one record per
    /// completed iteration, depths counting up from 1, each with a
    /// best move that is legal in the reached position and a score inside
    /// the window bounds, with node counts never decreasing; the last
    /// record's move is the move to play. Whenever the prefix replays
    /// legally, the reached position is ongoing and not already
    /// thrice-repeated, and the depth limit is at least 1, the report is
    /// non-empty.
    pub fn think(
        &mut self,
        init_pos: &cozy_chess::Board,
        moves_played: &Vec<cozy_chess::Move>,
        limits: SearchLimits,
    ) -> (r: Vec<SearchInfo>)
        requires
            old(self).wf(),
        ensures
            final(self).wf(),
            forall|t: int|
                0 <= t < r@.len() ==> -INFINITY <= (#[trigger] r@[t]).eval <= INFINITY
                    && r@[t].best_move.wf() && r@[t].depth as int == t + 1,
            ({
                let rep = spec_replay(*init_pos, moves_played@);
                let rh = spec_replay_hashes(*init_pos, moves_played@);
                rep is Some && spec_board_status(rep->0) is Ongoing && count_hash(rh, rh.last())
                    < 3 && (limits matches SearchLimits::PerMove { depth } ==> depth >= 1)
            }) ==> r@.len() >= 1,
            spec_replay(*init_pos, moves_played@) is Some ==> forall|t: int|
                0 <= t < r@.len() ==> spec_legal_repr(
                    spec_replay(*init_pos, moves_played@)->0,
                    (#[trigger] r@[t]).best_move,
                ),
            forall|t1: int, t2: int|
                0 <= t1 < t2 < r@.len() ==> (#[trigger] r@[t1]).nodes <= (#[trigger] r@[t2]).nodes,
            limits matches SearchLimits::PerMove { depth } ==> r@.len() <= depth,
    {
        let mut search = Search::new(limits);
        search.start(&mut self.tt, &mut self.history, init_pos, moves_played)
    }
}

} // verus!
