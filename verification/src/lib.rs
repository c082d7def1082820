//! A verified chess engine core: iterative-deepening negamax search with
//! alpha-beta pruning, a transposition table, history-based move ordering,
//! and a quiescence search. Board representation, move generation and game
//! rules come from the `cozy_chess` crate through a small trusted boundary.

pub mod helpers;
pub mod trusted;
pub mod eval;
pub mod tt;
pub mod history_tables;
pub mod board_stack;
pub mod movelist;
pub mod search;
pub mod interface;
pub mod uci;
