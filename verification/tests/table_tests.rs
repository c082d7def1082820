use minuette::helpers::{code_to_move, move_code, MoveRepr, NO_MOVE_CODE};
use minuette::tt::{TranspositionTable, TtBound, TtEntry};

fn entry(mv: u16, depth: u8, score: i16, bound: TtBound) -> TtEntry {
    TtEntry { best_move: mv, depth, score, bound }
}

#[test]
fn tt_store_then_load_round_trips() {
    let mut tt = TranspositionTable::new(1 << 16);
    let e = entry(NO_MOVE_CODE, 7, 123, TtBound::Exact);
    tt.store(0xDEADBEEF12345678, e);
    assert_eq!(tt.load(0xDEADBEEF12345678), Some(e));
}

#[test]
fn tt_load_never_false_positive() {
    let mut tt = TranspositionTable::new(1 << 16);
    assert_eq!(tt.load(42), None);
    tt.store(42, entry(NO_MOVE_CODE, 1, -5, TtBound::Upper));
    // A different key landing in the same slot must not be answered.
    let mut other = None;
    for k in 0u64..100000 {
        if k != 42 && tt.load(k).is_some() {
            other = Some(k);
            break;
        }
    }
    assert_eq!(other, None);
}

#[test]
fn tt_collision_always_replaces() {
    // One slot: every key collides.
    let mut tt = TranspositionTable::new(16);
    assert_eq!(tt.len(), 1);
    let e1 = entry(NO_MOVE_CODE, 3, 10, TtBound::Lower);
    let e2 = entry(NO_MOVE_CODE, 1, -10, TtBound::Upper);
    tt.store(1, e1);
    assert_eq!(tt.load(1), Some(e1));
    tt.store(2, e2);
    assert_eq!(tt.load(2), Some(e2));
    assert_eq!(tt.load(1), None);
}

#[test]
fn tt_clear_empties_every_slot() {
    let mut tt = TranspositionTable::new(1 << 12);
    for k in 0..64u64 {
        tt.store(k.wrapping_mul(0x9E3779B97F4A7C15), entry(0, 2, 7, TtBound::Exact));
    }
    tt.clear();
    for k in 0..64u64 {
        assert_eq!(tt.load(k.wrapping_mul(0x9E3779B97F4A7C15)), None);
    }
}

#[test]
fn tt_capacity_is_bytes_over_slot_size() {
    assert_eq!(TranspositionTable::new(0).len(), 0);
    assert_eq!(TranspositionTable::new(15).len(), 0);
    assert_eq!(TranspositionTable::new(16).len(), 1);
    assert_eq!(TranspositionTable::new(1 << 20).len(), (1 << 20) / 16);
}

#[test]
fn tt_slot_fits_sixteen_bytes() {
    assert_eq!(std::mem::size_of::<Option<(u64, TtEntry)>>(), 16);
}

#[test]
fn move_code_round_trips() {
    for &(from, to, promo) in &[(0u8, 56u8, 6u8), (12, 28, 6), (48, 56, 4), (55, 63, 1)] {
        let m = MoveRepr { from, to, promo };
        let c = move_code(m);
        assert_ne!(c, NO_MOVE_CODE);
        assert_eq!(code_to_move(c), m);
    }
}
