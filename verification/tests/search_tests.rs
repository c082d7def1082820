use cozy_chess::{Board, Move};
use minuette::board_stack::BoardStack;
use minuette::eval::{CHECKMATE, INFINITY};
use minuette::helpers::PIECE_NONE;
use minuette::history_tables::HistoryTables;
use minuette::interface::Engine;
use minuette::search::{classify_status, lmp_budget, null_move_allowed, rfp_score, terminal_score,
    tt_cutoff, GameStatus, Search, SearchInfo, SearchLimits};
use minuette::tt::{TranspositionTable, TtBound, TtEntry};

fn think(fen: &str, depth: u8) -> Vec<SearchInfo> {
    let board: Board = fen.parse().unwrap();
    let mut engine = Engine::new(1 << 20);
    engine.think(&board, &Vec::new(), SearchLimits::PerMove { depth })
}

#[test]
fn mate_in_one_is_found_at_the_root() {
    let infos = think("6k1/5ppp/8/8/8/8/5PPP/R5K1 w - - 0 1", 4);
    let last = infos.last().unwrap();
    // Ra8 mate: a1 (0) to a8 (56).
    assert_eq!(last.best_move.from, 0);
    assert_eq!(last.best_move.to, 56);
    assert_eq!(last.best_move.promo, PIECE_NONE);
    assert_eq!(last.eval, CHECKMATE - 1);
}

#[test]
fn stalemating_the_bare_king_is_avoided() {
    // Qc7 (h7 = 55 to c7 = 50) would stalemate the bare king at once;
    // the search must keep a winning move instead.
    let infos = think("k7/7Q/8/2K5/8/8/8/8 w - - 0 1", 5);
    for info in infos.iter().filter(|i| i.depth >= 2) {
        assert!(!(info.best_move.from == 55 && info.best_move.to == 50));
    }
    // The winning line is still seen as winning.
    assert!(infos.last().unwrap().eval > 500);
}

#[test]
fn threefold_repetition_returns_the_draw_score() {
    let shuffle: Vec<Move> = ["g1f3", "g8f6", "f3g1", "f6g8", "g1f3", "g8f6", "f3g1", "f6g8"]
        .iter()
        .map(|m| m.parse().unwrap())
        .collect();
    let mut board = BoardStack::new(&Board::startpos(), &shuffle).unwrap();
    let mut tt = TranspositionTable::new(1 << 16);
    let mut history = HistoryTables::new();
    let mut search = Search::new(SearchLimits::PerMove { depth: 8 });
    for depth in 1..=6 {
        let r = search.negamax(&mut tt, &mut history, &mut board, -INFINITY, INFINITY, depth, 1);
        assert_eq!(r, Some(0));
    }
}

#[test]
fn repeated_searches_report_identical_results() {
    let board = Board::startpos();
    let mut engine = Engine::new(1 << 20);
    let first = engine.think(&board, &Vec::new(), SearchLimits::PerMove { depth: 4 });
    let second = engine.think(&board, &Vec::new(), SearchLimits::PerMove { depth: 4 });
    assert_eq!(first.len(), second.len());
    for (a, b) in first.iter().zip(second.iter()) {
        assert_eq!(a.depth, b.depth);
        assert_eq!(a.eval, b.eval);
        assert_eq!(a.best_move, b.best_move);
    }
}

#[test]
fn quiescence_stands_pat_when_up_a_queen() {
    let board: Board = "k7/8/8/8/8/8/8/1QK5 w - - 0 1".parse().unwrap();
    let mut board = BoardStack::new(&board, &Vec::new()).unwrap();
    let tt = TranspositionTable::new(1 << 16);
    let history = HistoryTables::new();
    let mut search = Search::new(SearchLimits::PerMove { depth: 1 });
    let score = search.qsearch(&tt, &history, &mut board, -INFINITY, INFINITY, 0);
    assert!(score >= 800);
}

#[test]
fn null_move_is_never_tried_with_only_pawns_and_kings() {
    for depth in 1..10 {
        for eval in [-100i16, 0, 100, 500] {
            assert!(!null_move_allowed(false, true, depth, eval, 0));
        }
    }
    // And never inside the principal variation.
    assert!(!null_move_allowed(true, false, 10, 500, 0));
    // Outside it, with pieces, depth and eval, it runs.
    assert!(null_move_allowed(false, false, 2, 10, 0));
}

#[test]
fn pawn_endgame_zugzwang_is_searched_soundly() {
    // King on the sixth in front of its pawn: winning only through
    // zugzwang; the null-move guard must not hide it.
    let infos = think("6k1/8/6K1/6P1/8/8/8/8 w - - 0 1", 12);
    assert!(infos.last().unwrap().eval > 500);
}

#[test]
fn forced_mate_score_holds_once_found() {
    // White mates in two: Kc6 (any pawn move) Qb7. Null-move pruning can
    // delay the mate score by a couple of iterations, but once deep
    // enough the reported score must be a mate-in-three-plies score and
    // must not degrade at higher depths.
    let infos = think("k7/2Q4p/8/2K5/8/8/8/8 w - - 0 1", 10);
    let mate_depth = infos.iter().find(|i| i.eval >= CHECKMATE - 4).map(|i| i.depth);
    let mate_depth = mate_depth.unwrap_or_else(|| panic!("mate never scored: {:?}", infos.iter().map(|i| (i.depth, i.eval, i.best_move.from, i.best_move.to)).collect::<Vec<_>>()));
    for info in infos.iter().filter(|i| i.depth >= mate_depth) {
        assert!(info.eval >= CHECKMATE - 4, "depth {} eval {}", info.depth, info.eval);
    }
    assert!(infos.last().unwrap().eval >= CHECKMATE - 4);
}

#[test]
fn iterative_deepening_reports_every_depth_with_a_legal_move() {
    let root = Board::startpos();
    let infos = think("rnbqkbnr/pppppppp/8/8/8/8/PPPPPPPP/RNBQKBNR w KQkq - 0 1", 5);
    assert_eq!(infos.len(), 5);
    for (t, info) in infos.iter().enumerate() {
        assert_eq!(info.depth as usize, t + 1);
        assert!(-INFINITY <= info.eval && info.eval <= INFINITY);
        // The reported move is legal in the root position.
        let mut found = false;
        root.generate_moves(|packed| {
            for mv in packed {
                if mv.from as u8 == info.best_move.from && mv.to as u8 == info.best_move.to {
                    let promo = match mv.promotion {
                        Some(p) => p as u8,
                        None => PIECE_NONE,
                    };
                    if promo == info.best_move.promo {
                        found = true;
                    }
                }
            }
            false
        });
        assert!(found);
    }
}

#[test]
fn terminal_positions_score_exactly() {
    assert_eq!(terminal_score(GameStatus::Won, 0), Some(-CHECKMATE));
    assert_eq!(terminal_score(GameStatus::Won, 5), Some(-CHECKMATE + 5));
    assert_eq!(terminal_score(GameStatus::Drawn, 9), Some(0));
    assert_eq!(terminal_score(GameStatus::Ongoing, 3), None);
}

#[test]
fn status_classifier_matches_the_rules() {
    assert_eq!(classify_status(true, 0, false), GameStatus::Ongoing);
    assert_eq!(classify_status(true, 0, true), GameStatus::Ongoing);
    assert_eq!(classify_status(true, 100, false), GameStatus::Drawn);
    assert_eq!(classify_status(false, 0, true), GameStatus::Won);
    assert_eq!(classify_status(false, 0, false), GameStatus::Drawn);
}

#[test]
fn pv_nodes_never_cut_on_the_table() {
    let entry = TtEntry { best_move: 0, depth: 30, score: 500, bound: TtBound::Exact };
    assert_eq!(tt_cutoff(entry, 1, true, -INFINITY, INFINITY), None);
    assert_eq!(tt_cutoff(entry, 1, false, 0, 1), Some(500));
    // Insufficient draft never cuts.
    let shallow = TtEntry { best_move: 0, depth: 2, score: 500, bound: TtBound::Exact };
    assert_eq!(tt_cutoff(shallow, 3, false, 0, 1), None);
    // Bounds cut only on the right side of the window.
    let lower = TtEntry { best_move: 0, depth: 9, score: 80, bound: TtBound::Lower };
    assert_eq!(tt_cutoff(lower, 1, false, 0, 50), Some(80));
    assert_eq!(tt_cutoff(lower, 1, false, 90, 100), None);
    let upper = TtEntry { best_move: 0, depth: 9, score: -80, bound: TtBound::Upper };
    assert_eq!(tt_cutoff(upper, 1, false, -50, 50), Some(-80));
    assert_eq!(tt_cutoff(upper, 1, false, -100, -90), None);
}

#[test]
fn pruning_decisions_match_their_tables() {
    assert_eq!(lmp_budget(true, 1), i32::MAX);
    assert_eq!(lmp_budget(false, 1), 10);
    assert_eq!(lmp_budget(false, 2), 13);
    assert_eq!(lmp_budget(false, 3), 16);
    assert_eq!(lmp_budget(false, 4), 19);
    assert_eq!(lmp_budget(false, 5), i32::MAX);
    // Reverse futility: margin of 80 per ply of depth.
    assert_eq!(rfp_score(false, 2, 400, 200), Some(240));
    assert_eq!(rfp_score(false, 2, 300, 200), None);
    assert_eq!(rfp_score(true, 2, 400, 200), None);
    assert_eq!(rfp_score(false, 5, 1000, 200), None);
}

#[test]
fn search_scores_stay_inside_the_window_bounds() {
    let mut board = BoardStack::new(&Board::startpos(), &Vec::new()).unwrap();
    let mut tt = TranspositionTable::new(1 << 16);
    let mut history = HistoryTables::new();
    let mut search = Search::new(SearchLimits::PerMove { depth: 8 });
    let r = search.negamax(&mut tt, &mut history, &mut board, -INFINITY, INFINITY, 3, 0);
    let score = r.unwrap();
    assert!(-INFINITY <= score && score <= INFINITY);
}
