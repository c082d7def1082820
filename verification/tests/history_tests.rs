use minuette::history_tables::{HistoryTables, MAX_HISTORY};

#[test]
fn history_starts_at_zero() {
    let h = HistoryTables::new();
    for piece in 0..6u8 {
        for to in 0..64u8 {
            assert_eq!(h.get_quiet_score(false, piece, to), 0);
            assert_eq!(h.get_quiet_score(true, piece, to), 0);
        }
    }
}

#[test]
fn history_update_exact_values() {
    let mut h = HistoryTables::new();
    h.update_move(false, 1, 20, 100);
    // 0 + 100 - 100 * 0 / 512 = 100
    assert_eq!(h.get_quiet_score(false, 1, 20), 100);
    h.update_move(false, 1, 20, 100);
    // 100 + 100 - 100 * 100 / 512 = 200 - 19 = 181
    assert_eq!(h.get_quiet_score(false, 1, 20), 181);
    // The sides are independent.
    assert_eq!(h.get_quiet_score(true, 1, 20), 0);
}

#[test]
fn history_opposite_sign_pulls_towards_zero() {
    let mut h = HistoryTables::new();
    h.update_move(true, 0, 8, 400);
    let up = h.get_quiet_score(true, 0, 8);
    h.update_move(true, 0, 8, -400);
    let down = h.get_quiet_score(true, 0, 8);
    assert!(down < up);
}

#[test]
fn history_cells_stay_bounded() {
    let mut h = HistoryTables::new();
    for round in 0..200i32 {
        let change = if round % 3 == 0 { 65536 } else { -65536 };
        for piece in 0..6u8 {
            h.update_move(round % 2 == 0, piece, (round % 64) as u8, change);
        }
    }
    for piece in 0..6u8 {
        for to in 0..64u8 {
            for &side in &[false, true] {
                let v = h.get_quiet_score(side, piece, to);
                assert!(-MAX_HISTORY <= v && v <= MAX_HISTORY);
            }
        }
    }
}

#[test]
fn history_saturates_at_max() {
    let mut h = HistoryTables::new();
    for _ in 0..100 {
        h.update_move(false, 5, 63, 1000000);
    }
    assert_eq!(h.get_quiet_score(false, 5, 63), MAX_HISTORY);
}
