use cozy_chess::Board;
use minuette::eval::evaluate;
use minuette::helpers::{captured_piece, move_code, move_is_capture, MoveRepr, NO_MOVE_CODE,
    PIECE_NONE};
use minuette::history_tables::HistoryTables;
use minuette::movelist::{get_ordered_moves, MoveScore};
use minuette::tt::{TtBound, TtEntry};

#[test]
fn ordering_puts_tt_move_first() {
    let board = Board::startpos();
    let history = HistoryTables::new();
    // Remember g1f3 (g1 = 6, f3 = 21) as the hash move.
    let code = move_code(MoveRepr { from: 6, to: 21, promo: PIECE_NONE });
    let entry = TtEntry { best_move: code, depth: 1, score: 0, bound: TtBound::Exact };
    let moves = get_ordered_moves(&board, Some(entry), &history, false);
    assert_eq!(moves.len(), 20);
    assert_eq!(moves[0].from, 6);
    assert_eq!(moves[0].to, 21);
    assert_eq!(moves[0].key, MoveScore::PvMove);
}

#[test]
fn ordering_ranks_captures_by_victim_then_attacker() {
    // The c4 pawn and the c3 knight can each take the d5 queen or the
    // b5 rook: most valuable victim first, least valuable attacker
    // breaking the tie.
    let board: Board = "4k3/8/8/1r1q4/2P5/2N5/8/4K3 w - - 0 1".parse().unwrap();
    let history = HistoryTables::new();
    let moves = get_ordered_moves(&board, None, &history, false);
    let caps: Vec<_> = moves.iter().filter(|m| m.victim != PIECE_NONE).collect();
    assert_eq!(caps.len(), 4);
    // Pawn takes queen first (victim 4 * 8 - attacker 0 = 32).
    assert_eq!((caps[0].piece, caps[0].victim), (0, 4));
    // Then knight takes queen (32 - 1 = 31).
    assert_eq!((caps[1].piece, caps[1].victim), (1, 4));
    // Then pawn takes rook (3 * 8 - 0 = 24).
    assert_eq!((caps[2].piece, caps[2].victim), (0, 3));
    // Then knight takes rook (24 - 1 = 23).
    assert_eq!((caps[3].piece, caps[3].victim), (1, 3));
    // Captures come before quiets.
    let first_quiet = moves.iter().position(|m| m.victim == PIECE_NONE).unwrap();
    let last_cap = moves.iter().rposition(|m| m.victim != PIECE_NONE).unwrap();
    assert!(last_cap < first_quiet);
}

#[test]
fn ordering_ranks_quiets_by_history() {
    let board = Board::startpos();
    let mut history = HistoryTables::new();
    // Favour a2a3 (a2 = 8, a3 = 16), a quiet pawn move.
    history.update_move(false, 0, 16, 400);
    let moves = get_ordered_moves(&board, None, &history, false);
    assert_eq!(moves[0].from, 8);
    assert_eq!(moves[0].to, 16);
}

#[test]
fn qsearch_ordering_keeps_only_captures() {
    let board: Board = "4k3/8/8/1r1q4/2P5/2N5/8/4K3 w - - 0 1".parse().unwrap();
    let history = HistoryTables::new();
    let moves = get_ordered_moves(&board, None, &history, true);
    assert!(!moves.is_empty());
    assert!(moves.iter().all(|m| m.victim != PIECE_NONE));
    let all = get_ordered_moves(&board, None, &history, false);
    assert!(moves.len() < all.len());
}

#[test]
fn captured_piece_sees_en_passant() {
    // After d7d5 from this setup, the e5 pawn may take d6 en passant.
    let board: Board = "4k3/8/8/3pP3/8/8/8/4K3 w - d6 0 1".parse().unwrap();
    let ep: cozy_chess::Move = "e5d6".parse().unwrap();
    assert_eq!(captured_piece(&board, ep), Some(0));
    assert!(move_is_capture(&board, ep));
    let quiet: cozy_chess::Move = "e5e6".parse().unwrap();
    assert_eq!(captured_piece(&board, quiet), None);
    assert!(!move_is_capture(&board, quiet));
}

#[test]
fn captured_piece_names_the_victim() {
    let board: Board = "4k3/8/8/1r1q4/2P5/2N5/8/4K3 w - - 0 1".parse().unwrap();
    let takes_queen: cozy_chess::Move = "c3d5".parse().unwrap();
    assert_eq!(captured_piece(&board, takes_queen), Some(4));
    let takes_rook: cozy_chess::Move = "c4b5".parse().unwrap();
    assert_eq!(captured_piece(&board, takes_rook), Some(3));
}

#[test]
fn castling_is_not_a_capture() {
    let board: Board = "r3k2r/8/8/8/8/8/8/R3K2R w KQkq - 0 1".parse().unwrap();
    // Castling is encoded as king takes own rook; it must rank as quiet.
    let castle: cozy_chess::Move = cozy_chess::Move {
        from: cozy_chess::Square::E1,
        to: cozy_chess::Square::H1,
        promotion: None,
    };
    assert_eq!(captured_piece(&board, castle), None);
}

#[test]
fn evaluate_counts_material_from_side_to_move() {
    assert_eq!(evaluate(&Board::startpos()), 0);
    let up_queen: Board = "k7/8/8/8/8/8/8/1QK5 w - - 0 1".parse().unwrap();
    assert_eq!(evaluate(&up_queen), 900);
    let down_queen: Board = "k7/8/8/8/8/8/8/1QK5 b - - 0 1".parse().unwrap();
    assert_eq!(evaluate(&down_queen), -900);
    let mixed: Board = "4k3/8/8/1r1q4/2P5/2N5/8/4K3 w - - 0 1".parse().unwrap();
    // White: knight + pawn = 400; black: rook + queen = 1400.
    assert_eq!(evaluate(&mixed), -1000);
}

#[test]
fn no_move_code_is_reserved() {
    // No legal move ever encodes to the sentinel.
    let board = Board::startpos();
    let history = HistoryTables::new();
    for m in get_ordered_moves(&board, None, &history, false) {
        let code = move_code(MoveRepr { from: m.from, to: m.to, promo: m.promo });
        assert_ne!(code, NO_MOVE_CODE);
    }
}
