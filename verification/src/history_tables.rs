//! History tables: per (side, piece kind, destination square) reputation
//! scores for quiet moves, updated with a gravity term that keeps every
//! cell inside `[-MAX_HISTORY, MAX_HISTORY]`.

use vstd::prelude::*;

verus! {

/// Magnitude bound on every history cell.
pub const MAX_HISTORY: i32 = 512;

/// Cells needed for 2 sides * 6 piece kinds * 64 squares.
pub const HISTORY_CELLS: usize = 768;

/// The flat index of a cell: side, then piece kind, then square.
pub open spec fn spec_history_index(stm_black: bool, piece: int, to: int) -> int {
    (if stm_black {
        384int
    } else {
        0int
    }) + piece * 64 + to
}

/// The gravity-damped update: add the change, pull back towards zero in
/// proportion to both the change's magnitude and the current score, then
/// clamp. Same-sign updates saturate smoothly; opposite-sign updates pull
/// the score towards zero.
pub open spec fn spec_history_update(score: int, change: int) -> int {
    let moved = score + change - trunc_div(abs_int(change) * score, MAX_HISTORY as int);
    if moved > MAX_HISTORY as int {
        MAX_HISTORY as int
    } else if moved < -MAX_HISTORY as int {
        -MAX_HISTORY as int
    } else {
        moved
    }
}

/// Division rounding towards zero, as the machine division does.
pub open spec fn trunc_div(a: int, b: int) -> int {
    if a >= 0 {
        a / b
    } else {
        -((-a) / b)
    }
}

/// Magnitude of an integer.
pub open spec fn abs_int(x: int) -> int {
    if x >= 0 {
        x
    } else {
        -x
    }
}

/// Quiet-move reputation scores for both sides, all piece kinds and all
/// destination squares.
pub struct HistoryTables {
    piece_to: Vec<i32>,
}

impl HistoryTables {
    /// One score per (side, piece kind, destination square).
    pub closed spec fn view(self) -> Seq<i32> {
        self.piece_to@
    }

    /// Every cell exists and lies inside `[-MAX_HISTORY, MAX_HISTORY]`.
    pub open spec fn wf(self) -> bool {
        self@.len() == HISTORY_CELLS && forall|i: int|
            0 <= i < self@.len() ==> -MAX_HISTORY <= #[trigger] self@[i] <= MAX_HISTORY
    }

    /// All cells start at zero.
    pub fn new() -> (r: Self)
        ensures
            r.wf(),
            forall|i: int| 0 <= i < r@.len() ==> r@[i] == 0,
    {
        HistoryTables { piece_to: vec![0i32; HISTORY_CELLS] }
    }

    /// Read the score for a quiet move: the mover's side, the moving
    /// piece's kind, and the destination square.
    pub fn get_quiet_score(&self, stm_black: bool, piece: u8, to: u8) -> (r: i32)
        requires
            self.wf(),
            piece < 6,
            to < 64,
        ensures
            r == self@[spec_history_index(stm_black, piece as int, to as int)],
            -MAX_HISTORY <= r <= MAX_HISTORY,
    {
        let base: usize = if stm_black {
            384
        } else {
            0
        };
        self.piece_to[base + piece as usize * 64 + to as usize]
    }

    /// Apply the gravity-damped update to one cell, clamped to
    /// `[-MAX_HISTORY, MAX_HISTORY]`; all other cells keep their scores.
    pub fn update_move(&mut self, stm_black: bool, piece: u8, to: u8, change: i32)
        requires
            old(self).wf(),
            piece < 6,
            to < 64,
            -1000000 <= change <= 1000000,
        ensures
            final(self).wf(),
            final(self)@ == old(self)@.update(
                spec_history_index(stm_black, piece as int, to as int),
                spec_history_update(
                    old(self)@[spec_history_index(stm_black, piece as int, to as int)] as int,
                    change as int,
                ) as i32,
            ),
    {
        let base: usize = if stm_black {
            384
        } else {
            0
        };
        let idx: usize = base + piece as usize * 64 + to as usize;
        let score: i32 = self.piece_to[idx];
        assert(-MAX_HISTORY <= score <= MAX_HISTORY);
        let change_abs: i32 = if change >= 0 {
            change
        } else {
            -change
        };
        assert((-1000000) * 512 <= change_abs as int * score as int <= 1000000 * 512)
            by (nonlinear_arith)
            requires
                0 <= change_abs <= 1000000,
                -512 <= score <= 512,
        ;
        let moved: i64 = score as i64 + change as i64 - (change_abs as i64 * score as i64) / (
        MAX_HISTORY as i64);
        let clamped: i32 = if moved > MAX_HISTORY as i64 {
            MAX_HISTORY
        } else if moved < -MAX_HISTORY as i64 {
            -MAX_HISTORY
        } else {
            moved as i32
        };
        self.piece_to.set(idx, clamped);
    }
}

} // verus!
