//! Iterative-deepening negamax search with principal-variation windows,
//! transposition-table cutoffs, null-move pruning, reverse futility
//! pruning, late-move reductions and pruning, check extensions and a
//! quiescence leaf search.

use vstd::prelude::*;
use crate::board_stack::{count_hash, spec_replay, spec_replay_hashes, BoardStack};
use crate::eval::{evaluate, spec_eval, CHECKMATE, EVAL_LIMIT, INFINITY};
use crate::helpers::{move_code, spec_move_code, spec_repr_of, MoveRepr, NO_MOVE_CODE, PIECE_NONE};
use crate::history_tables::{trunc_div, HistoryTables, MAX_HISTORY};
use crate::movelist::{annotate_moves, order_moves, tt_move_code, SearchMove};
use crate::trusted::{checkers_bb, colors_bb, elapsed_ms, halfmove_clock, now_instant, pieces_bb,
    side_to_move_black, spec_checkers, spec_halfmove, spec_legal_moves, spec_move_legal};
use crate::tt::{lemma_tt_round_trip, spec_tt_load, TranspositionTable, TtBound, TtEntry};
use vstd::pervasive::unreached;

verus! {

/// Hard cap on the distance from the search root. It lies far beyond any
/// depth the search can reach in practice (the driver's target depth never
/// exceeds 255) and makes the recursion provably finite.
pub const MAX_PLY: u16 = 1000;

/// The game's state for the side to move, derived from plain facts the
/// rules library reports.
#[derive(Clone, Copy, Debug, PartialEq, Eq, Structural)]
pub enum GameStatus {
    Ongoing,
    Won,
    Drawn,
}

/// The rules library's classifier over plain facts: with a legal move the
/// game goes on unless the halfmove clock has reached 100; without one it
/// is checkmate when in check, stalemate otherwise. `Won` means the side
/// to move has lost.
pub open spec fn spec_status(has_moves: bool, halfmove: u8, in_check: bool) -> GameStatus {
    if has_moves {
        if halfmove < 100 {
            GameStatus::Ongoing
        } else {
            GameStatus::Drawn
        }
    } else if !in_check {
        GameStatus::Drawn
    } else {
        GameStatus::Won
    }
}

/// The game's state of a position: the plain-fact classifier applied to
/// the position's named legal-move count, halfmove clock and checkers.
pub open spec fn spec_board_status(b: cozy_chess::Board) -> GameStatus {
    spec_status(spec_legal_moves(b).len() > 0, spec_halfmove(b), spec_checkers(b) != 0)
}

/// A plain move that stands for one of the position's legal moves.
pub open spec fn spec_legal_repr(b: cozy_chess::Board, m: MoveRepr) -> bool {
    exists|lm: cozy_chess::Move| spec_legal_moves(b).contains(lm) && m == spec_repr_of(lm)
}

/// The hash-move code a table remembers for a key, or the no-move
/// sentinel.
pub open spec fn spec_probed_code(table: Seq<Option<(u64, TtEntry)>>, hash: u64) -> u16 {
    match spec_tt_load(table, hash) {
        Some(entry) => entry.best_move,
        None => NO_MOVE_CODE,
    }
}

/// What a node's own table store leaves under its key `h`, given the
/// table before the call, the node's position, window and depth, and the
/// returned score `s`: the score itself; the check-extended depth clamped
/// to a byte; the bound kind of the score against the window; and a best
/// move that is the probed entry's on fail-low, else the code of a move
/// legal in the position.
pub open spec fn spec_node_store(
    t0: Seq<Option<(u64, TtEntry)>>,
    t1: Seq<Option<(u64, TtEntry)>>,
    b: cozy_chess::Board,
    h: u64,
    alpha: int,
    beta: int,
    depth: int,
    s: i16,
) -> bool {
    spec_tt_load(t1, h) matches Some(entry) && entry.score == s && entry.depth as int == ({
        let d2 = if spec_checkers(b) != 0 {
            if depth < 0 {
                1int
            } else {
                depth + 1
            }
        } else {
            depth
        };
        if d2 > 255 {
            255int
        } else {
            d2
        }
    }) && (entry.bound is Lower <==> s as int >= beta) && (entry.bound is Upper <==> s as int
        <= alpha) && (entry.bound is Exact <==> (alpha < s as int && (s as int) < beta)) && (
    s as int <= alpha ==> entry.best_move == spec_probed_code(t0, h)) && (s as int > alpha
        ==> entry.best_move != NO_MOVE_CODE && (exists|lm: cozy_chess::Move|
        spec_legal_moves(b).contains(lm) && entry.best_move == spec_move_code(spec_repr_of(lm))))
}

/// Classify the game's state from plain facts.
pub fn classify_status(has_moves: bool, halfmove: u8, in_check: bool) -> (r: GameStatus)
    ensures
        r == spec_status(has_moves, halfmove, in_check),
{
    if has_moves {
        if halfmove < 100 {
            GameStatus::Ongoing
        } else {
            GameStatus::Drawn
        }
    } else if !in_check {
        GameStatus::Drawn
    } else {
        GameStatus::Won
    }
}

/// The score a terminal position returns at a given distance from the
/// root: exactly `-CHECKMATE + ply` when lost, exactly 0 when drawn, and
/// nothing when the game goes on.
pub fn terminal_score(status: GameStatus, ply: u16) -> (r: Option<i16>)
    requires
        ply <= MAX_PLY,
    ensures
        status is Won ==> r is Some && r->0 as int == ply as int - CHECKMATE as int,
        status is Drawn ==> r == Some(0i16),
        status is Ongoing ==> r is None,
{
    match status {
        GameStatus::Won => Some(-CHECKMATE + ply as i16),
        GameStatus::Drawn => Some(0),
        GameStatus::Ongoing => None,
    }
}

/// When a remembered entry may answer for a node: never at a
/// principal-variation node; otherwise its draft must cover the requested
/// depth, and its bound must be conclusive for the window — an exact score
/// always, a lower bound at or above beta, an upper bound at or below
/// alpha.
pub open spec fn spec_tt_cutoff(
    entry: TtEntry,
    depth: int,
    is_pv: bool,
    alpha: int,
    beta: int,
) -> Option<i16> {
    if !is_pv && entry.depth as int >= depth && (entry.bound is Exact || (entry.bound is Lower
        && entry.score as int >= beta) || (entry.bound is Upper && entry.score as int <= alpha)) {
        Some(entry.score)
    } else {
        None
    }
}

/// Decide a transposition-table cutoff. Principal-variation nodes never
/// cut, so the table never changes a full-window answer directly.
pub fn tt_cutoff(entry: TtEntry, depth: i32, is_pv: bool, alpha: i16, beta: i16) -> (r: Option<
    i16,
>)
    ensures
        r == spec_tt_cutoff(entry, depth as int, is_pv, alpha as int, beta as int),
        is_pv ==> r is None,
{
    if is_pv {
        return None;
    }
    let conclusive = match entry.bound {
        TtBound::Exact => true,
        TtBound::Lower => entry.score >= beta,
        TtBound::Upper => entry.score <= alpha,
    };
    if entry.depth as i32 >= depth && conclusive {
        Some(entry.score)
    } else {
        None
    }
}

/// Reverse futility pruning: outside the principal variation, at depth at
/// most 4, a static evaluation still at or above beta after a margin of
/// 80 centipawns per ply of depth is returned at once.
pub fn rfp_score(is_pv: bool, depth: i32, static_eval: i16, beta: i16) -> (r: Option<i16>)
    requires
        1 <= depth,
        -EVAL_LIMIT <= static_eval <= EVAL_LIMIT,
        -INFINITY <= beta <= INFINITY,
    ensures
        r == (if !is_pv && depth <= 4 && static_eval - 80 * depth >= beta {
            Some((static_eval - 80 * depth) as i16)
        } else {
            Option::<i16>::None
        }),
        r is Some ==> beta <= r->0 <= EVAL_LIMIT,
{
    if !is_pv && depth <= 4 {
        let margin: i16 = (depth as i16) * 80;
        if static_eval - margin >= beta {
            return Some(static_eval - margin);
        }
    }
    None
}

/// Null-move pruning is tried only outside the principal variation, never
/// when the side to move has only pawns and kings (the zugzwang guard),
/// only with at least two plies of depth left, and only when the static
/// evaluation already reaches beta.
pub fn null_move_allowed(is_pv: bool, only_pawns: bool, depth: i32, static_eval: i16, beta: i16)
    -> (r: bool)
    ensures
        r == (!is_pv && !only_pawns && depth >= 2 && static_eval >= beta),
        only_pawns ==> !r,
        is_pv ==> !r,
{
    !is_pv && !only_pawns && depth >= 2 && static_eval >= beta
}

/// The late-move-pruning budget: how many quiet moves after the first may
/// be tried. Unlimited in the principal variation and at depth above 4.
pub open spec fn spec_lmp_budget(is_pv: bool, depth: int) -> int {
    if is_pv {
        i32::MAX as int
    } else if depth == 1 {
        10
    } else if depth == 2 {
        13
    } else if depth == 3 {
        16
    } else if depth == 4 {
        19
    } else {
        i32::MAX as int
    }
}

/// Decide the late-move-pruning budget.
pub fn lmp_budget(is_pv: bool, depth: i32) -> (r: i32)
    ensures
        r == spec_lmp_budget(is_pv, depth as int),
        r >= 0,
{
    if is_pv {
        return i32::MAX;
    }
    match depth {
        1 => 10,
        2 => 13,
        3 => 16,
        4 => 19,
        _ => i32::MAX,
    }
}

/// The late-move reduction for the move at index `i`: one ply per ten
/// indices plus 0.15 plies per ply of depth, minus a history bonus, zeroed
/// for captures and when negative. A reduction beyond the remaining depth
/// behaves exactly like one equal to it — either way the child starts at
/// or below depth zero — so it is capped there, which keeps the child's
/// depth argument bounded.
pub open spec fn spec_lmr(i: int, depth: int, hist: int, is_capture: bool) -> int {
    let ii = if i > 4000 {
        4000
    } else {
        i
    };
    let raw = (ii * 10 + depth * 15) / 100 - trunc_div(hist, 200);
    let r0 = if raw < 0 || is_capture {
        0
    } else {
        raw
    };
    if r0 > depth {
        depth
    } else {
        r0
    }
}

/// Compute the late-move reduction.
pub fn lmr_reduction(i: usize, depth: i32, hist: i32, is_capture: bool) -> (r: i32)
    requires
        1 <= depth <= 257,
        -MAX_HISTORY <= hist <= MAX_HISTORY,
    ensures
        r == spec_lmr(i as int, depth as int, hist as int, is_capture),
        0 <= r <= depth,
{
    let ii: i32 = if i > 4000 {
        4000
    } else {
        i as i32
    };
    let raw: i32 = (ii * 10 + depth * 15) / 100 - hist / 200;
    let r0: i32 = if raw < 0 || is_capture {
        0
    } else {
        raw
    };
    if r0 > depth {
        depth
    } else {
        r0
    }
}

/// What bounds one `think` call: either the side's remaining clock and
/// increment in milliseconds, or a fixed maximum depth.
#[derive(Clone, Copy, Debug)]
pub enum SearchLimits {
    PerGame { clock: u64, increment: u64 },
    PerMove { depth: u8 },
}

/// One completed iteration's report: target depth, cumulative nodes, the
/// root score in centipawns, elapsed milliseconds, and the best move.
#[derive(Clone, Copy, Debug)]
pub struct SearchInfo {
    pub depth: u8,
    pub nodes: u64,
    pub eval: i16,
    pub time: u64,
    pub best_move: MoveRepr,
}

/// One search's state: when it started, its soft and hard time limits in
/// milliseconds, its depth limit, the best root move found by a completed
/// iteration, and the node counter.
pub struct Search {
    pub start_time: std::time::Instant,
    pub soft_limit: u64,
    pub hard_limit: u64,
    pub max_depth: u8,
    pub best_move: Option<MoveRepr>,
    pub nodes: u64,
}

impl Search {
    /// Set up a search: a per-game clock allows a fortieth of the
    /// remaining time as the soft limit and a quarter as the hard limit
    /// (the increment is accepted but unused); a per-move limit bounds
    /// only the depth.
    pub fn new(limits: SearchLimits) -> (r: Search)
        ensures
            r.best_move is None,
            r.nodes == 0,
            limits matches SearchLimits::PerGame { clock, increment } ==> r.soft_limit == clock
                / 40 && r.hard_limit == clock / 4 && r.max_depth == 255,
            limits matches SearchLimits::PerMove { depth } ==> r.soft_limit == u64::MAX
                && r.hard_limit == u64::MAX && r.max_depth == depth,
    {
        let mut soft_limit: u64 = u64::MAX;
        let mut hard_limit: u64 = u64::MAX;
        let mut max_depth: u8 = 255;
        match limits {
            SearchLimits::PerGame { clock, increment: _ } => {
                soft_limit = clock / 40;
                hard_limit = clock / 4;
            },
            SearchLimits::PerMove { depth } => {
                max_depth = depth;
            },
        }
        Search {
            start_time: now_instant(),
            soft_limit,
            hard_limit,
            max_depth,
            best_move: None,
            nodes: 0,
        }
    }

    /// Run the iterative-deepening loop: search each target depth from 1
    /// up with a full window, report each completed iteration, and stop on
    /// the depth limit, the soft limit, or a hard-limit abort. Every
    /// reported score lies inside the window bounds; reported depths count
    /// up from 1; every reported move is well formed.
    pub fn start(
        &mut self,
        tt: &mut TranspositionTable,
        history: &mut HistoryTables,
        init_pos: &cozy_chess::Board,
        moves_played: &Vec<cozy_chess::Move>,
    ) -> (r: Vec<SearchInfo>)
        requires
            old(self).best_move is None,
            old(tt).wf(),
            old(history).wf(),
        ensures
            final(tt).wf(),
            final(history).wf(),
            forall|t: int|
                0 <= t < r@.len() ==> -INFINITY <= (#[trigger] r@[t]).eval <= INFINITY
                    && r@[t].best_move.wf() && r@[t].depth as int == t + 1,
            ({
                let rep = spec_replay(*init_pos, moves_played@);
                let rh = spec_replay_hashes(*init_pos, moves_played@);
                rep is Some && spec_board_status(rep->0) is Ongoing && count_hash(rh, rh.last())
                    < 3 && old(self).max_depth >= 1
            }) ==> r@.len() >= 1,
            spec_replay(*init_pos, moves_played@) is Some ==> forall|t: int|
                0 <= t < r@.len() ==> spec_legal_repr(
                    spec_replay(*init_pos, moves_played@)->0,
                    (#[trigger] r@[t]).best_move,
                ),
            forall|t1: int, t2: int|
                0 <= t1 < t2 < r@.len() ==> (#[trigger] r@[t1]).nodes <= (#[trigger] r@[t2]).nodes,
            r@.len() >= 1 ==> final(self).best_move is Some && r@[r@.len() - 1].best_move
                == final(self).best_move->0,
            r@.len() <= old(self).max_depth,
    {
        let ghost rep = spec_replay(*init_pos, moves_played@);
        let ghost rh = spec_replay_hashes(*init_pos, moves_played@);
        let ghost good = rep is Some && spec_board_status(rep->0) is Ongoing && count_hash(
            rh,
            rh.last(),
        ) < 3 && old(self).max_depth >= 1;
        let mut infos: Vec<SearchInfo> = Vec::new();
        let board_opt = BoardStack::new(init_pos, moves_played);
        let mut board = match board_opt {
            Some(b) => b,
            None => {
                return infos;
            },
        };
        let max_depth: u16 = self.max_depth as u16;
        let mut d: u16 = 1;
        let mut stop = false;
        while d <= max_depth && !stop
            invariant
                1 <= d <= max_depth + 1,
                board.wf(),
                tt.wf(),
                history.wf(),
                max_depth <= 255,
                max_depth == old(self).max_depth,
                self.max_depth == old(self).max_depth,
                self.best_move is Some ==> self.best_move->0.wf(),
                d == 1 && !stop ==> self.best_move is None,
                good == (rep is Some && spec_board_status(rep->0) is Ongoing && count_hash(
                    rh,
                    rh.last(),
                ) < 3 && old(self).max_depth >= 1),
                rep == spec_replay(*init_pos, moves_played@),
                rh == spec_replay_hashes(*init_pos, moves_played@),
                rep is Some && !stop ==> board.boards().last() == rep->0,
                good && !stop ==> board.hashes() == rh,
                good ==> ((d >= 2 || stop) ==> infos@.len() >= 1),
                rep is Some && self.best_move is Some ==> spec_legal_repr(
                    rep->0,
                    self.best_move->0,
                ),
                rep is Some ==> forall|t: int|
                    0 <= t < infos@.len() ==> spec_legal_repr(
                        rep->0,
                        (#[trigger] infos@[t]).best_move,
                    ),
                forall|t1: int, t2: int|
                    0 <= t1 < t2 < infos@.len() ==> (#[trigger] infos@[t1]).nodes <= (
                    #[trigger] infos@[t2]).nodes,
                forall|t: int| 0 <= t < infos@.len() ==> (#[trigger] infos@[t]).nodes <= self.nodes,
                infos@.len() >= 1 ==> self.best_move is Some && infos@[infos@.len() - 1].best_move
                    == self.best_move->0,
                forall|t: int|
                    0 <= t < infos@.len() ==> -INFINITY <= (#[trigger] infos@[t]).eval <= INFINITY
                        && infos@[t].best_move.wf() && infos@[t].depth as int == t + 1,
                infos@.len() + 1 == d || stop,
                infos@.len() < d,
            decreases max_depth - d + 2, (if stop { 0int } else { 1int }),
        {
            let res = self.negamax(tt, history, &mut board, -INFINITY, INFINITY, d as i32, 0);
            match res {
                None => {
                    stop = true;
                },
                Some(eval) => {
                    match self.best_move {
                        None => {
                            stop = true;
                        },
                        Some(bm) => {
                            infos.push(
                                SearchInfo {
                                    depth: d as u8,
                                    nodes: self.nodes,
                                    eval,
                                    time: elapsed_ms(&self.start_time),
                                    best_move: bm,
                                },
                            );
                            if elapsed_ms(&self.start_time) >= self.soft_limit {
                                stop = true;
                            }
                            d = d + 1;
                        },
                    }
                },
            }
        }
        infos
    }

    /// The negamax principal-variation search. Returns `None` exactly on a
    /// hard-limit abort, which can happen only once a completed iteration
    /// has already established a root best move; a returned score always
    /// lies strictly inside the window bounds. Terminal positions score
    /// exactly: checkmate is `ply - CHECKMATE`, a drawn position 0, and a
    /// thrice-repeated ongoing position 0. Only the root call may change
    /// the recorded best move — and at a full-window root call over an
    /// ongoing, unrepeated position a completed search always records
    /// one. A search that completes leaves the board stack exactly as it
    /// found it. The node's table slot is left untouched or holding the
    /// node's own entry — returned score, clamped extended draft, bound
    /// kind, probed hash move inherited on fail-low, else a legal move's
    /// code; only a fail-high score may leave the slot to the subtree (a
    /// null-move cutoff returns before the node stores), and at a
    /// principal-variation node not even that.
    pub fn negamax(
        &mut self,
        tt: &mut TranspositionTable,
        history: &mut HistoryTables,
        board: &mut BoardStack,
        alpha: i16,
        beta: i16,
        depth: i32,
        ply: u16,
    ) -> (r: Option<i16>)
        requires
            old(board).wf(),
            old(tt).wf(),
            old(history).wf(),
            -INFINITY <= alpha < beta <= INFINITY,
            -300 <= depth <= 256,
            ply <= MAX_PLY,
            old(self).best_move is Some ==> old(self).best_move->0.wf(),
        ensures
            final(tt).wf(),
            final(tt)@.len() == old(tt)@.len(),
            final(history).wf(),
            final(board).wf(),
            final(self).soft_limit == old(self).soft_limit,
            final(self).hard_limit == old(self).hard_limit,
            final(self).max_depth == old(self).max_depth,
            final(self).start_time == old(self).start_time,
            final(self).best_move is Some ==> final(self).best_move->0.wf(),
            final(self).nodes >= old(self).nodes,
            old(self).hard_limit == u64::MAX ==> r is Some,
            ply == 0 && r is Some ==> final(self).best_move == old(self).best_move || (
            final(self).best_move is Some && spec_legal_repr(
                old(board).boards().last(),
                final(self).best_move->0,
            )),
            r is Some ==> -INFINITY < r->0 < INFINITY,
            r is Some ==> final(board).boards() == old(board).boards() && final(board).hashes()
                == old(board).hashes(),
            old(self).best_move is None ==> r is Some,
            r is None ==> final(self).best_move == old(self).best_move && old(
                self,
            ).best_move is Some,
            ply >= 1 ==> final(self).best_move == old(self).best_move,
            ply < MAX_PLY && spec_board_status(old(board).boards().last()) is Won && r is Some
                ==> r->0 as int == ply as int - CHECKMATE as int,
            ply < MAX_PLY && spec_board_status(old(board).boards().last()) is Drawn && r is Some
                ==> r->0 == 0,
            spec_board_status(old(board).boards().last()) is Ongoing && count_hash(
                old(board).hashes(),
                old(board).hashes().last(),
            ) >= 3 && r is Some ==> r->0 == 0,
            count_hash(old(board).hashes(), old(board).hashes().last()) >= 3 && r is Some ==> r->0
                == 0 || r->0 as int == ply as int - CHECKMATE as int,
            ply == 0 && depth >= 1 && alpha as int + 1 != beta as int && spec_board_status(
                old(board).boards().last(),
            ) is Ongoing && count_hash(old(board).hashes(), old(board).hashes().last()) < 3
                && r is Some ==> final(self).best_move is Some,
            r is Some && alpha as int + 1 != beta as int ==> spec_tt_load(
                final(tt)@,
                old(board).hashes().last(),
            ) == spec_tt_load(old(tt)@, old(board).hashes().last()) || spec_node_store(
                old(tt)@,
                final(tt)@,
                old(board).boards().last(),
                old(board).hashes().last(),
                alpha as int,
                beta as int,
                depth as int,
                r->0,
            ),
            r is Some ==> r->0 as int >= beta as int || spec_tt_load(
                final(tt)@,
                old(board).hashes().last(),
            ) == spec_tt_load(old(tt)@, old(board).hashes().last()) || spec_node_store(
                old(tt)@,
                final(tt)@,
                old(board).boards().last(),
                old(board).hashes().last(),
                alpha as int,
                beta as int,
                depth as int,
                r->0,
            ),
        decreases MAX_PLY - ply,
    {
        let in_check = checkers_bb(board.get()) != 0;
        let mut depth = depth;
        if in_check {
            depth = (if depth < 0 {
                0
            } else {
                depth
            }) + 1;
        }

        if depth <= 0 {
            if board.repetitions() >= 3 {
                return Some(0);
            }
            return Some(self.qsearch(tt, history, board, alpha, beta, ply));
        }

        if ply >= MAX_PLY {
            // Unreachable in practice; bounds the recursion.
            if board.repetitions() >= 3 {
                return Some(0);
            }
            return Some(evaluate(board.get()));
        }

        if self.nodes < u64::MAX {
            self.nodes = self.nodes + 1;
        }

        if self.nodes % 1024 == 0 && self.hard_limit != u64::MAX && self.best_move.is_some()
            && elapsed_ms(&self.start_time) >= self.hard_limit {
            return None;
        }

        let annotated = annotate_moves(board.get());
        let status = classify_status(annotated.len() > 0, halfmove_clock(board.get()), in_check);
        proof {
            assert(status == spec_board_status(old(board).boards().last()));
        }
        match terminal_score(status, ply) {
            Some(s) => {
                return Some(s);
            },
            None => {},
        }

        let reps = board.repetitions();
        if reps >= 3 {
            return Some(0);
        }

        let is_pv = alpha + 1 != beta;
        let init_alpha = alpha;
        let mut alpha = alpha;
        let hash = board.top_hash();
        let tt_entry = tt.load(hash);
        if let Some(entry) = tt_entry {
            match tt_cutoff(entry, depth, is_pv, alpha, beta) {
                Some(s) => {
                    return Some(s);
                },
                None => {},
            }
        }

        let static_eval = evaluate(board.get());

        match rfp_score(is_pv, depth, static_eval, beta) {
            Some(s) => {
                return Some(s);
            },
            None => {},
        }

        let stm_black = side_to_move_black(board.get());
        let kings = pieces_bb(board.get(), 5);
        let pawns = pieces_bb(board.get(), 0);
        let stm_pieces = colors_bb(board.get(), stm_black);
        let only_pawns = stm_pieces & !(kings | pawns) == 0;
        if null_move_allowed(is_pv, only_pawns, depth, static_eval, beta) {
            if board.null_move() {
                let reduction: i32 = 2 + (static_eval as i32 - beta as i32) / 200;
                let child = self.negamax(
                    tt,
                    history,
                    board,
                    -beta,
                    -beta + 1,
                    depth - 1 - reduction,
                    ply + 1,
                );
                let score: i16 = match child {
                    Some(s) => -s,
                    None => {
                        return None;
                    },
                };
                board.undo();
                proof {
                    assert(board.boards() =~= old(board).boards());
                    assert(board.hashes() =~= old(board).hashes());
                }
                if score >= beta {
                    return Some(score);
                }
            }
        }

        let mut quiets_to_check: i32 = lmp_budget(is_pv, depth);

        let ghost ann = annotated@;
        let ghost top = old(board).boards().last();
        let movelist = order_moves(annotated, tt_move_code(tt_entry), history, stm_black, false);
        proof {
            assert forall|t: int| 0 <= t < movelist@.len() implies spec_move_legal(
                top,
                (#[trigger] movelist@[t]).mv,
            ) && spec_legal_moves(top).contains(movelist@[t].mv) by {
                assert(exists|u: int| 0 <= u < ann.len() && (#[trigger] movelist@[t]).mv
                    == ann[u].mv);
                let ghost u = choose|u: int| 0 <= u < ann.len() && movelist@[t].mv == ann[u].mv;
                assert(spec_move_legal(top, ann[u].mv));
                assert(spec_legal_moves(top)[u] == movelist@[t].mv);
            }
            assert(movelist@.len() == spec_legal_moves(top).len());
        }

        let mut best_found: Option<SearchMove> = None;
        let mut best_score: i16 = -INFINITY;
        let n = movelist.len();
        let mut i: usize = 0;
        let mut cut = false;
        while i < n && !cut
            invariant
                i <= n,
                n == movelist@.len(),
                forall|t: int| 0 <= t < n ==> (#[trigger] movelist@[t]).wf(),
                forall|t: int|
                    0 <= t < n ==> spec_move_legal(top, (#[trigger] movelist@[t]).mv)
                        && spec_legal_moves(top).contains(movelist@[t].mv),
                top == old(board).boards().last(),
                tt.wf(),
                tt@.len() == old(tt)@.len(),
                history.wf(),
                board.wf(),
                board.boards() == old(board).boards(),
                board.hashes() == old(board).hashes(),
                self.best_move == old(self).best_move,
                self.best_move is Some ==> self.best_move->0.wf(),
                self.nodes >= old(self).nodes,
                self.soft_limit == old(self).soft_limit,
                self.hard_limit == old(self).hard_limit,
                self.max_depth == old(self).max_depth,
                self.start_time == old(self).start_time,
                -INFINITY <= best_score <= INFINITY,
                best_found is Some ==> -INFINITY < best_score < INFINITY,
                best_found is None ==> best_score == -INFINITY,
                i > 0 ==> best_found is Some,
                cut ==> best_found is Some,
                init_alpha <= alpha <= INFINITY,
                alpha as int == (if best_score as int > init_alpha as int {
                    best_score as int
                } else {
                    init_alpha as int
                }),
                !cut ==> alpha < beta,
                alpha > init_alpha ==> best_found is Some,
                best_found is Some ==> best_found->0.wf(),
                best_found is Some ==> spec_legal_moves(top).contains(best_found->0.mv)
                    && best_found->0.repr() == spec_repr_of(best_found->0.mv),
                forall|t: int|
                    0 <= t < n ==> (#[trigger] movelist@[t]).repr() == spec_repr_of(
                        movelist@[t].mv,
                    ),
                quiets_to_check >= 0,
                -INFINITY <= init_alpha < beta <= INFINITY,
                1 <= depth <= 257,
                ply < MAX_PLY,
            decreases n - i, (if cut {
                0int
            } else {
                1int
            }),
        {
            let m = movelist[i];
            let is_capture = m.victim != PIECE_NONE;
            let hist_score = history.get_quiet_score(stm_black, m.piece, m.to);
            let reduction = lmr_reduction(i, depth, hist_score, is_capture);

            let mut skip = false;
            if i != 0 && !is_capture {
                if quiets_to_check == 0 {
                    cut = true;
                    skip = true;
                } else {
                    quiets_to_check = quiets_to_check - 1;
                }
            }

            if !skip {
                let pushed = board.play_unchecked(m.mv);
                assert(pushed);
                {
                    let mut score: i16 = -INFINITY;
                    if i != 0 {
                        match self.negamax(
                            tt,
                            history,
                            board,
                            -alpha - 1,
                            -alpha,
                            depth - 1 - reduction,
                            ply + 1,
                        ) {
                            Some(s) => {
                                score = -s;
                            },
                            None => {
                                return None;
                            },
                        }
                    }
                    if i != 0 && reduction != 0 && score > alpha {
                        match self.negamax(
                            tt,
                            history,
                            board,
                            -alpha - 1,
                            -alpha,
                            depth - 1,
                            ply + 1,
                        ) {
                            Some(s) => {
                                score = -s;
                            },
                            None => {
                                return None;
                            },
                        }
                    }
                    if i == 0 || score > alpha {
                        match self.negamax(
                            tt,
                            history,
                            board,
                            -beta,
                            -alpha,
                            depth - 1,
                            ply + 1,
                        ) {
                            Some(s) => {
                                score = -s;
                            },
                            None => {
                                return None;
                            },
                        }
                    }
                    board.undo();
                    proof {
                        assert(board.boards() =~= old(board).boards());
                        assert(board.hashes() =~= old(board).hashes());
                    }

                    if score > best_score {
                        best_found = Some(m);
                        best_score = score;
                        if score > alpha {
                            alpha = score;
                        }
                    }

                    if score >= beta {
                        if !is_capture {
                            assert(1 <= depth * depth <= 66049) by (nonlinear_arith)
                                requires
                                    1 <= depth <= 257,
                            ;
                            let change: i32 = depth * depth;
                            let mut t: usize = 0;
                            while t < i
                                invariant
                                    t <= i,
                                    i < n,
                                    n == movelist@.len(),
                                    forall|w: int| 0 <= w < n ==> (#[trigger] movelist@[w]).wf(),
                                    history.wf(),
                                    0 <= change <= 66049,
                                decreases i - t,
                            {
                                let em = movelist[t];
                                if em.victim == PIECE_NONE {
                                    history.update_move(stm_black, em.piece, em.to, -change);
                                }
                                t = t + 1;
                            }
                            history.update_move(stm_black, m.piece, m.to, change);
                        }
                        cut = true;
                    }
                }
            }
            if !cut {
                i = i + 1;
            }
        }

        // The game is ongoing here, so the move list is nonempty and the
        // loop has searched at least one legal move.
        let bm = match best_found {
            Some(b) => b,
            None => unreached(),
        };

        if ply == 0 {
            proof {
                assert(spec_legal_moves(top).contains(bm.mv) && MoveRepr {
                    from: bm.from,
                    to: bm.to,
                    promo: bm.promo,
                } == spec_repr_of(bm.mv));
                assert(spec_legal_repr(top, MoveRepr { from: bm.from, to: bm.to, promo: bm.promo }));
            }
            self.best_move = Some(MoveRepr { from: bm.from, to: bm.to, promo: bm.promo });
        }

        let stored_best: u16 = if alpha > init_alpha {
            move_code(MoveRepr { from: bm.from, to: bm.to, promo: bm.promo })
        } else {
            tt_move_code(tt_entry)
        };
        let bound = if alpha >= beta {
            TtBound::Lower
        } else if alpha > init_alpha {
            TtBound::Exact
        } else {
            TtBound::Upper
        };
        let depth_u8: u8 = if depth > 255 {
            255
        } else {
            depth as u8
        };
        proof {
            if alpha > init_alpha {
                assert(MoveRepr { from: bm.from, to: bm.to, promo: bm.promo } == bm.repr());
                assert(spec_legal_moves(top).contains(bm.mv) && stored_best == spec_move_code(
                    spec_repr_of(bm.mv),
                ));
            }
        }
        let ghost t_pre = tt@;
        let entry = TtEntry { best_move: stored_best, depth: depth_u8, score: best_score, bound };
        tt.store(hash, entry);
        proof {
            crate::tt::lemma_tt_index_in_range(hash, t_pre.len() as nat);
            lemma_tt_round_trip(t_pre, hash, entry, hash);
            assert(tt@ == t_pre.update(
                crate::tt::spec_tt_index(hash, t_pre.len() as nat),
                Some((hash, entry)),
            ));
            assert(spec_tt_load(tt@, hash) == Some(entry));
            assert(tt@.len() == t_pre.len());
        }
        Some(best_score)
    }

    /// The quiescence search: stand pat on the static evaluation, then try
    /// only captures, so tactical sequences are resolved before a leaf is
    /// scored. It never aborts on time, returns a score between
    /// `-CHECKMATE` and `CHECKMATE`, and leaves the board stack exactly as
    /// it found it.
    pub fn qsearch(
        &mut self,
        tt: &TranspositionTable,
        history: &HistoryTables,
        board: &mut BoardStack,
        alpha: i16,
        beta: i16,
        ply: u16,
    ) -> (r: i16)
        requires
            old(board).wf(),
            tt.wf(),
            history.wf(),
            -INFINITY <= alpha < beta <= INFINITY,
            ply <= MAX_PLY,
        ensures
            final(board).wf(),
            final(board).boards() == old(board).boards(),
            final(board).hashes() == old(board).hashes(),
            -CHECKMATE <= r <= CHECKMATE,
            final(self).best_move == old(self).best_move,
            final(self).nodes >= old(self).nodes,
            final(self).soft_limit == old(self).soft_limit,
            final(self).hard_limit == old(self).hard_limit,
            final(self).max_depth == old(self).max_depth,
            final(self).start_time == old(self).start_time,
            spec_board_status(old(board).boards().last()) is Won ==> r as int == ply as int
                - CHECKMATE as int,
            spec_board_status(old(board).boards().last()) is Drawn ==> r == 0,
            spec_board_status(old(board).boards().last()) is Ongoing ==> r as int >= spec_eval(
                old(board).boards().last(),
            ),
        decreases MAX_PLY - ply,
    {
        if self.nodes < u64::MAX {
            self.nodes = self.nodes + 1;
        }

        let in_check = checkers_bb(board.get()) != 0;
        let annotated = annotate_moves(board.get());
        let status = classify_status(annotated.len() > 0, halfmove_clock(board.get()), in_check);
        proof {
            assert(status == spec_board_status(old(board).boards().last()));
        }
        match terminal_score(status, ply) {
            Some(s) => {
                return s;
            },
            None => {},
        }

        let tt_entry = tt.load(board.top_hash());

        let mut best_score: i16 = evaluate(board.get());
        let mut alpha = alpha;
        if best_score > alpha {
            alpha = best_score;
        }
        if best_score >= beta {
            return best_score;
        }
        if ply >= MAX_PLY {
            // Unreachable in practice; bounds the recursion.
            return best_score;
        }

        let stm_black = side_to_move_black(board.get());
        let captures = order_moves(annotated, tt_move_code(tt_entry), history, stm_black, true);

        let n = captures.len();
        let mut i: usize = 0;
        let mut cut = false;
        while i < n && !cut
            invariant
                i <= n,
                n == captures@.len(),
                forall|t: int| 0 <= t < n ==> (#[trigger] captures@[t]).wf(),
                tt.wf(),
                history.wf(),
                board.wf(),
                board.boards() == old(board).boards(),
                board.hashes() == old(board).hashes(),
                self.best_move == old(self).best_move,
                self.nodes >= old(self).nodes,
                self.soft_limit == old(self).soft_limit,
                self.hard_limit == old(self).hard_limit,
                self.max_depth == old(self).max_depth,
                self.start_time == old(self).start_time,
                -CHECKMATE <= best_score <= CHECKMATE,
                best_score as int >= spec_eval(old(board).boards().last()),
                !cut ==> alpha < beta,
                -INFINITY <= alpha <= INFINITY,
                -INFINITY < beta <= INFINITY,
                ply < MAX_PLY,
            decreases n - i, (if cut {
                0int
            } else {
                1int
            }),
        {
            let m = captures[i];
            let pushed = board.play_unchecked(m.mv);
            if pushed {
                let child = self.qsearch(tt, history, board, -beta, -alpha, ply + 1);
                let score: i16 = -child;
                board.undo();
                proof {
                    assert(board.boards() =~= old(board).boards());
                    assert(board.hashes() =~= old(board).hashes());
                }
                if score > best_score {
                    best_score = score;
                }
                if score >= beta {
                    cut = true;
                } else if score > alpha {
                    alpha = score;
                }
            }
            if !cut {
                i = i + 1;
            }
        }

        best_score
    }
}

} // verus!
