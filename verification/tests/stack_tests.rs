use cozy_chess::{Board, Move};
use minuette::board_stack::BoardStack;

fn uci(m: &str) -> Move {
    m.parse().unwrap()
}

#[test]
fn stack_counts_repetitions_across_the_prefix() {
    let shuffle: Vec<Move> = ["g1f3", "g8f6", "f3g1", "f6g8", "g1f3", "g8f6", "f3g1", "f6g8"]
        .iter()
        .map(|m| uci(m))
        .collect();
    let stack = BoardStack::new(&Board::startpos(), &shuffle).unwrap();
    // The starting position has now been on the board three times.
    assert_eq!(stack.repetitions(), 3);
}

#[test]
fn fresh_position_counts_once() {
    let stack = BoardStack::new(&Board::startpos(), &Vec::new()).unwrap();
    assert_eq!(stack.repetitions(), 1);
}

#[test]
fn play_and_undo_restore_the_position() {
    let mut stack = BoardStack::new(&Board::startpos(), &Vec::new()).unwrap();
    let before = stack.top_hash();
    assert!(stack.play_unchecked(uci("e2e4")));
    assert_ne!(stack.top_hash(), before);
    stack.undo();
    assert_eq!(stack.top_hash(), before);
    assert_eq!(stack.get().hash(), before);
}

#[test]
fn illegal_prefix_move_is_rejected() {
    let moves = vec![uci("e2e5")];
    assert!(BoardStack::new(&Board::startpos(), &moves).is_none());
}

#[test]
fn illegal_search_move_leaves_stack_untouched() {
    let mut stack = BoardStack::new(&Board::startpos(), &Vec::new()).unwrap();
    let before = stack.top_hash();
    assert!(!stack.play_unchecked(uci("e2e5")));
    assert_eq!(stack.top_hash(), before);
}

#[test]
fn null_move_toggles_and_undoes() {
    let mut stack = BoardStack::new(&Board::startpos(), &Vec::new()).unwrap();
    let before = stack.top_hash();
    assert!(stack.null_move());
    assert_ne!(stack.top_hash(), before);
    stack.undo();
    assert_eq!(stack.top_hash(), before);
}

#[test]
fn null_move_refused_in_check() {
    let board: Board = "4k3/8/8/8/8/8/4r3/4K3 w - - 0 1".parse().unwrap();
    let mut stack = BoardStack::new(&board, &Vec::new()).unwrap();
    assert!(!stack.null_move());
}
