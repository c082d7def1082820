//! Score constants and the static evaluation: material count from the
//! side-to-move's perspective.

use vstd::prelude::*;
use crate::trusted::{colors_bb, pieces_bb, side_to_move_black, spec_colors, spec_pieces,
    spec_stm_black};

verus! {

/// A valid window bound; never returned as a search score by a completed
/// move loop (only as the initial "no move searched yet" floor).
pub const INFINITY: i16 = 31000;

/// Magnitude of a mate-at-ply-zero score. A mate in `n` plies from the root
/// scores `CHECKMATE - n` for the winning side.
pub const CHECKMATE: i16 = 30000;

/// Static evaluations are clamped to this magnitude, keeping them well
/// below mate scores whatever the board holds.
pub const EVAL_LIMIT: i16 = 20000;

/// Number of one bits, defined by peeling the lowest bit.
pub open spec fn spec_popcount(x: nat) -> nat
    decreases x,
{
    if x == 0 {
        0
    } else {
        x % 2 + spec_popcount(x / 2)
    }
}

/// A number below `2^k` has at most `k` one bits.
pub proof fn lemma_popcount_bound(x: nat, k: nat)
    requires
        x < vstd::arithmetic::power2::pow2(k),
    ensures
        spec_popcount(x) <= k,
    decreases k,
{
    if k == 0 {
        vstd::arithmetic::power2::lemma2_to64();
    } else {
        vstd::arithmetic::power2::lemma_pow2_unfold(k);
        lemma_popcount_bound(x / 2, (k - 1) as nat);
    }
}

/// Count the one bits of a word.
pub fn popcount(x: u64) -> (r: u32)
    ensures
        r == spec_popcount(x as nat),
        r <= 64,
{
    let mut rest = x;
    let mut count: u32 = 0;
    proof {
        vstd::arithmetic::power2::lemma2_to64_rest();
        lemma_popcount_bound(x as nat, 64);
    }
    while rest != 0
        invariant
            count + spec_popcount(rest as nat) == spec_popcount(x as nat),
            spec_popcount(x as nat) <= 64,
        decreases rest,
    {
        count = count + (rest % 2) as u32;
        rest = rest / 2;
    }
    count
}

/// Centipawn value of a piece kind: pawn 100, knight 300, bishop 300,
/// rook 500, queen 900, king 0.
pub open spec fn spec_piece_value(piece: int) -> int {
    if piece == 0 {
        100
    } else if piece == 1 || piece == 2 {
        300
    } else if piece == 3 {
        500
    } else if piece == 4 {
        900
    } else {
        0
    }
}

/// Material balance for white minus black, given per-kind piece counts,
/// clamped to `EVAL_LIMIT`, then negated when black is to move.
pub open spec fn spec_material(
    wp: int, bp: int, wn: int, bn: int, wb: int, bb: int,
    wr: int, br: int, wq: int, bq: int, stm_black: bool,
) -> int {
    let raw = 100 * (wp - bp) + 300 * (wn - bn) + 300 * (wb - bb) + 500 * (wr - br) + 900 * (wq
        - bq);
    let clamped = if raw > EVAL_LIMIT as int {
        EVAL_LIMIT as int
    } else if raw < -EVAL_LIMIT as int {
        -EVAL_LIMIT as int
    } else {
        raw
    };
    if stm_black {
        -clamped
    } else {
        clamped
    }
}

/// Material balance from the side-to-move's perspective, computed from
/// per-kind piece counts.
pub fn material_score(
    wp: u32, bp: u32, wn: u32, bn: u32, wb: u32, bb: u32,
    wr: u32, br: u32, wq: u32, bq: u32, stm_black: bool,
) -> (r: i16)
    requires
        wp <= 64 && bp <= 64 && wn <= 64 && bn <= 64 && wb <= 64,
        bb <= 64 && wr <= 64 && br <= 64 && wq <= 64 && bq <= 64,
    ensures
        r == spec_material(
            wp as int, bp as int, wn as int, bn as int, wb as int, bb as int,
            wr as int, br as int, wq as int, bq as int, stm_black,
        ),
        -EVAL_LIMIT <= r <= EVAL_LIMIT,
{
    let raw: i32 = 100 * (wp as i32 - bp as i32) + 300 * (wn as i32 - bn as i32) + 300 * (
    wb as i32 - bb as i32) + 500 * (wr as i32 - br as i32) + 900 * (wq as i32 - bq as i32);
    let clamped: i32 = if raw > EVAL_LIMIT as i32 {
        EVAL_LIMIT as i32
    } else if raw < -(EVAL_LIMIT as i32) {
        -(EVAL_LIMIT as i32)
    } else {
        raw
    };
    let signed: i32 = if stm_black {
        -clamped
    } else {
        clamped
    };
    signed as i16
}

/// The material balance of a position, from the side-to-move's
/// perspective: the clamped piece-value sum over the position's piece and
/// color bitboards.
pub open spec fn spec_eval(b: cozy_chess::Board) -> int {
    spec_material(
        spec_popcount((spec_colors(b, false) & spec_pieces(b, 0)) as nat) as int,
        spec_popcount((spec_colors(b, true) & spec_pieces(b, 0)) as nat) as int,
        spec_popcount((spec_colors(b, false) & spec_pieces(b, 1)) as nat) as int,
        spec_popcount((spec_colors(b, true) & spec_pieces(b, 1)) as nat) as int,
        spec_popcount((spec_colors(b, false) & spec_pieces(b, 2)) as nat) as int,
        spec_popcount((spec_colors(b, true) & spec_pieces(b, 2)) as nat) as int,
        spec_popcount((spec_colors(b, false) & spec_pieces(b, 3)) as nat) as int,
        spec_popcount((spec_colors(b, true) & spec_pieces(b, 3)) as nat) as int,
        spec_popcount((spec_colors(b, false) & spec_pieces(b, 4)) as nat) as int,
        spec_popcount((spec_colors(b, true) & spec_pieces(b, 4)) as nat) as int,
        spec_stm_black(b),
    )
}

/// Material-only static evaluation of the position, in centipawns from the
/// side-to-move's perspective: exactly the clamped material balance over
/// the rules library's bitboards.
pub fn evaluate(board: &cozy_chess::Board) -> (r: i16)
    ensures
        r == spec_eval(*board),
        -EVAL_LIMIT <= r <= EVAL_LIMIT,
{
    let white = colors_bb(board, false);
    let black = colors_bb(board, true);
    let pawns = pieces_bb(board, 0);
    let knights = pieces_bb(board, 1);
    let bishops = pieces_bb(board, 2);
    let rooks = pieces_bb(board, 3);
    let queens = pieces_bb(board, 4);
    let stm_black = side_to_move_black(board);
    material_score(
        popcount(white & pawns),
        popcount(black & pawns),
        popcount(white & knights),
        popcount(black & knights),
        popcount(white & bishops),
        popcount(black & bishops),
        popcount(white & rooks),
        popcount(black & rooks),
        popcount(white & queens),
        popcount(black & queens),
        stm_black,
    )
}

} // verus!
