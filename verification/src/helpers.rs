//! Plain-value representation of chess moves and the capture classifier.
//!
//! The search never inspects `cozy_chess` values directly: every move is
//! annotated once, at generation time, with the plain fields the search
//! logic reads (squares, piece kinds, capture victim). All reasoning then
//! happens over these plain values.

use vstd::prelude::*;
use crate::trusted::{colors_bb, en_passant_file, move_parts, piece_on_ord, pieces_bb,
    side_to_move_black, spec_colors, spec_ep_file, spec_move_parts, spec_piece_on, spec_pieces,
    spec_stm_black};

verus! {

/// Piece-kind ordinals follow the rules library: pawn 0, knight 1, bishop 2,
/// rook 3, queen 4, king 5. `PIECE_NONE` marks the absence of a piece
/// (no promotion, no capture victim).
pub const PIECE_NONE: u8 = 6;

/// A chess move as plain values: origin square, destination square
/// (square index = rank * 8 + file, 0..64) and promotion piece kind
/// (`PIECE_NONE` when the move does not promote).
#[derive(Clone, Copy, Debug, PartialEq, Eq, Structural)]
pub struct MoveRepr {
    pub from: u8,
    pub to: u8,
    pub promo: u8,
}

impl MoveRepr {
    /// A well-formed move names two board squares and at most a piece kind.
    pub open spec fn wf(self) -> bool {
        self.from < 64 && self.to < 64 && self.promo <= PIECE_NONE
    }
}

/// Sentinel code meaning "no move"; no well-formed move encodes to it.
pub const NO_MOVE_CODE: u16 = 0xFFFF;

/// A move packed into 16 bits: 6 bits origin, 6 bits destination,
/// the rest the promotion piece kind.
pub open spec fn spec_move_code(m: MoveRepr) -> u16 {
    (m.from + m.to * 64 + m.promo * 4096) as u16
}

/// Pack a move into its 16-bit code.
pub fn move_code(m: MoveRepr) -> (r: u16)
    requires
        m.wf(),
    ensures
        r == spec_move_code(m),
        r != NO_MOVE_CODE,
{
    m.from as u16 + m.to as u16 * 64 + m.promo as u16 * 4096
}

/// Unpack a 16-bit move code.
pub fn code_to_move(c: u16) -> (r: MoveRepr)
    requires
        c != NO_MOVE_CODE,
    ensures
        r.from < 64 && r.to < 64,
        forall|m: MoveRepr| m.wf() && c == spec_move_code(m) ==> r == m,
{
    let r = MoveRepr { from: (c % 64) as u8, to: (c / 64 % 64) as u8, promo: (c / 4096) as u8 };
    proof {
        assert forall|m: MoveRepr| m.wf() && c == spec_move_code(m) implies r == m by {
            assert(c % 64 == m.from && c / 64 % 64 == m.to && c / 4096 == m.promo) by (nonlinear_arith)
                requires
                    m.from < 64 && m.to < 64 && m.promo <= 6,
                    c == m.from + m.to * 64 + m.promo * 4096,
            ;
        }
    }
    r
}

/// Packing a move and unpacking the code gives the move back.
pub proof fn lemma_move_code_round_trip(m: MoveRepr)
    requires
        m.wf(),
    ensures
        spec_move_code(m) != NO_MOVE_CODE,
        forall|n: MoveRepr| n.wf() && spec_move_code(n) == spec_move_code(m) ==> n == m,
{
    assert forall|n: MoveRepr| n.wf() && spec_move_code(n) == spec_move_code(m) implies n == m by {
        assert(n.from == m.from && n.to == m.to && n.promo == m.promo) by (nonlinear_arith)
            requires
                m.from < 64 && m.to < 64 && m.promo <= 6,
                n.from < 64 && n.to < 64 && n.promo <= 6,
                n.from + n.to * 64 + n.promo * 4096 == m.from + m.to * 64 + m.promo * 4096,
        ;
    }
}

/// The square a pawn lands on when capturing en passant: the sixth rank
/// from the mover's point of view, on the en-passant file.
pub open spec fn spec_ep_square(stm_black: bool, ep_file: u8) -> u8 {
    if stm_black {
        (2 * 8 + ep_file) as u8
    } else {
        (5 * 8 + ep_file) as u8
    }
}

/// The capture classifier over plain board facts. A move is a capture when
/// its destination holds an enemy piece, or when a pawn moves to the
/// en-passant square (the victim is then a pawn). The result is the victim's
/// piece kind, or `None` for a quiet move.
pub open spec fn spec_captured_piece(
    stm_black: bool,
    enemy_bb: u64,
    pawn_bb: u64,
    ep_file: Option<u8>,
    from: u8,
    to: u8,
    victim_on_to: Option<u8>,
) -> Option<u8> {
    if enemy_bb & (1u64 << to) != 0 {
        victim_on_to
    } else if pawn_bb & (1u64 << from) != 0 && ep_file is Some
        && to == spec_ep_square(stm_black, ep_file->0) {
        Some(0u8)
    } else {
        None
    }
}

/// Classify one move from plain board facts: the enemy occupancy bitboard,
/// the pawn bitboard, the en-passant file, the move's squares, and the piece
/// kind standing on the destination square.
pub fn classify_capture(
    stm_black: bool,
    enemy_bb: u64,
    pawn_bb: u64,
    ep_file: Option<u8>,
    from: u8,
    to: u8,
    victim_on_to: Option<u8>,
) -> (r: Option<u8>)
    requires
        from < 64,
        to < 64,
        ep_file is Some ==> ep_file->0 < 8,
    ensures
        r == spec_captured_piece(stm_black, enemy_bb, pawn_bb, ep_file, from, to, victim_on_to),
{
    if enemy_bb & (1u64 << to) != 0 {
        return victim_on_to;
    }
    let is_pawn_move = pawn_bb & (1u64 << from) != 0;
    if is_pawn_move {
        if let Some(file) = ep_file {
            let rank: u8 = if stm_black { 2 } else { 5 };
            if to == rank * 8 + file {
                return Some(0);
            }
        }
    }
    None
}

/// A rules-library move as plain values: its named origin, destination
/// and promotion, with `PIECE_NONE` for no promotion.
pub open spec fn spec_repr_of(mv: cozy_chess::Move) -> MoveRepr {
    MoveRepr {
        from: spec_move_parts(mv).0,
        to: spec_move_parts(mv).1,
        promo: match spec_move_parts(mv).2 {
            Some(p) => p,
            None => PIECE_NONE,
        },
    }
}

/// The capture classifier over a board's named facts: the move's victim,
/// or `None` for a quiet move.
pub open spec fn spec_board_captured(b: cozy_chess::Board, mv: cozy_chess::Move) -> Option<u8> {
    spec_captured_piece(
        spec_stm_black(b),
        spec_colors(b, !spec_stm_black(b)),
        spec_pieces(b, 0),
        spec_ep_file(b),
        spec_move_parts(mv).0,
        spec_move_parts(mv).1,
        spec_piece_on(b, spec_move_parts(mv).1),
    )
}

/// The piece kind a move would capture on the current board, or `None`
/// for a quiet move. Assembles the plain board facts from the rules
/// library and classifies with `classify_capture`.
pub fn captured_piece(board: &cozy_chess::Board, mv: cozy_chess::Move) -> (r: Option<u8>)
    ensures
        r == spec_board_captured(*board, mv),
        r is Some ==> r->0 < 6,
{
    let (from, to, _promo) = move_parts(mv);
    let stm_black = side_to_move_black(board);
    let enemy_bb = colors_bb(board, !stm_black);
    let pawn_bb = pieces_bb(board, 0);
    let ep_file = en_passant_file(board);
    classify_capture(stm_black, enemy_bb, pawn_bb, ep_file, from, to, piece_on_ord(board, to))
}

/// Does the move capture anything, en passant included?
pub fn move_is_capture(board: &cozy_chess::Board, mv: cozy_chess::Move) -> (r: bool)
    ensures
        r == (spec_board_captured(*board, mv) is Some),
{
    captured_piece(board, mv).is_some()
}

} // verus!
