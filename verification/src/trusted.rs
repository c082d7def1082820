//! Trusted boundary to the chess rules library (`cozy_chess`) and the
//! monotonic clock. Each wrapper makes exactly one call into the outside
//! crate and converts the result to plain values; Verus believes the stated
//! contracts without reading the bodies.
//!
//! Square indices are `rank * 8 + file` (0..64), matching the rules
//! library's `Square` ordinals. Piece-kind ordinals are pawn 0, knight 1,
//! bishop 2, rook 3, queen 4, king 5, matching its `Piece` ordinals.

use vstd::prelude::*;

verus! {

/// Declares `cozy_chess::Board` for Verus; values of it are opaque.
#[verifier::external_type_specification]
#[verifier::external_body]
pub struct ExBoard(cozy_chess::Board);

/// Declares `cozy_chess::Move` for Verus; values of it are opaque.
#[verifier::external_type_specification]
#[verifier::external_body]
pub struct ExMove(cozy_chess::Move);

/// Declares `std::time::Instant` for Verus; values of it are opaque.
#[verifier::external_type_specification]
#[verifier::external_body]
pub struct ExInstant(std::time::Instant);

/// The position's Zobrist hash, a function of the board alone.
pub uninterp spec fn spec_hash(b: cozy_chess::Board) -> u64;

/// The bitboard of pieces giving check to the side to move.
pub uninterp spec fn spec_checkers(b: cozy_chess::Board) -> u64;

/// Whether black is to move.
pub uninterp spec fn spec_stm_black(b: cozy_chess::Board) -> bool;

/// Plies since the last capture or pawn move.
pub uninterp spec fn spec_halfmove(b: cozy_chess::Board) -> u8;

/// The bitboard of both sides' pieces of a kind (ordinal below 6).
pub uninterp spec fn spec_pieces(b: cozy_chess::Board, piece: u8) -> u64;

/// The bitboard of one side's pieces.
pub uninterp spec fn spec_colors(b: cozy_chess::Board, black: bool) -> u64;

/// The piece kind on a square, as an ordinal below 6.
pub uninterp spec fn spec_piece_on(b: cozy_chess::Board, sq: u8) -> Option<u8>;

/// The en-passant file, if one exists.
pub uninterp spec fn spec_ep_file(b: cozy_chess::Board) -> Option<u8>;

/// The position's legal moves, in the move generator's order.
pub uninterp spec fn spec_legal_moves(b: cozy_chess::Board) -> Seq<cozy_chess::Move>;

/// Whether a move is legal in a position.
pub uninterp spec fn spec_move_legal(b: cozy_chess::Board, mv: cozy_chess::Move) -> bool;

/// The position after playing a legal move.
pub uninterp spec fn spec_play(b: cozy_chess::Board, mv: cozy_chess::Move) -> cozy_chess::Board;

/// The position after forfeiting the turn.
pub uninterp spec fn spec_null_board(b: cozy_chess::Board) -> cozy_chess::Board;

/// A move's origin square, destination square and promotion piece kind.
pub uninterp spec fn spec_move_parts(mv: cozy_chess::Move) -> (u8, u8, Option<u8>);

/// Relies on `cozy_chess::Board::hash`: the position's 64-bit Zobrist hash.
#[verifier::external_body]
pub fn board_hash(b: &cozy_chess::Board) -> (r: u64)
    ensures
        r == spec_hash(*b),
{
    b.hash()
}

/// Relies on `cozy_chess::Board::checkers`: the bitboard of pieces giving
/// check to the side to move (empty if and only if not in check).
#[verifier::external_body]
pub fn checkers_bb(b: &cozy_chess::Board) -> (r: u64)
    ensures
        r == spec_checkers(*b),
{
    b.checkers().0
}

/// Relies on `cozy_chess::Board::side_to_move`: true when black is to move.
#[verifier::external_body]
pub fn side_to_move_black(b: &cozy_chess::Board) -> (r: bool)
    ensures
        r == spec_stm_black(*b),
{
    match b.side_to_move() {
        cozy_chess::Color::White => false,
        cozy_chess::Color::Black => true,
    }
}

/// Relies on `cozy_chess::Board::halfmove_clock`: plies since the last
/// capture or pawn move; the library caps it at 100.
#[verifier::external_body]
pub fn halfmove_clock(b: &cozy_chess::Board) -> (r: u8)
    ensures
        r == spec_halfmove(*b),
{
    b.halfmove_clock()
}

/// Relies on `cozy_chess::Board::pieces`: the bitboard of both sides'
/// pieces of the given kind.
#[verifier::external_body]
pub fn pieces_bb(b: &cozy_chess::Board, piece: u8) -> (r: u64)
    requires
        piece < 6,
    ensures
        r == spec_pieces(*b, piece),
{
    let p = match piece {
        0 => cozy_chess::Piece::Pawn,
        1 => cozy_chess::Piece::Knight,
        2 => cozy_chess::Piece::Bishop,
        3 => cozy_chess::Piece::Rook,
        4 => cozy_chess::Piece::Queen,
        _ => cozy_chess::Piece::King,
    };
    b.pieces(p).0
}

/// Relies on `cozy_chess::Board::colors`: the bitboard of one side's pieces.
#[verifier::external_body]
pub fn colors_bb(b: &cozy_chess::Board, black: bool) -> (r: u64)
    ensures
        r == spec_colors(*b, black),
{
    let c = if black { cozy_chess::Color::Black } else { cozy_chess::Color::White };
    b.colors(c).0
}

/// Relies on `cozy_chess::Board::piece_on`: the kind of the piece standing
/// on the given square, as an ordinal below 6, or `None` for an empty
/// square. The library's `Piece` has six variants.
#[verifier::external_body]
pub fn piece_on_ord(b: &cozy_chess::Board, sq: u8) -> (r: Option<u8>)
    requires
        sq < 64,
    ensures
        r == spec_piece_on(*b, sq),
        r is Some ==> r->0 < 6,
{
    match b.piece_on(cozy_chess::Square::index(sq as usize)) {
        Some(p) => Some(p as u8),
        None => None,
    }
}

/// Relies on `cozy_chess::Board::en_passant`: the en-passant file, if one
/// exists. The library's `File` has eight variants.
#[verifier::external_body]
pub fn en_passant_file(b: &cozy_chess::Board) -> (r: Option<u8>)
    ensures
        r == spec_ep_file(*b),
        r is Some ==> r->0 < 8,
{
    match b.en_passant() {
        Some(f) => Some(f as u8),
        None => None,
    }
}

/// Relies on the public fields of `cozy_chess::Move`: origin square,
/// destination square (`Square` has 64 variants) and promotion piece kind.
#[verifier::external_body]
pub fn move_parts(mv: cozy_chess::Move) -> (r: (u8, u8, Option<u8>))
    ensures
        r == spec_move_parts(mv),
        r.0 < 64,
        r.1 < 64,
        r.2 is Some ==> r.2->0 < 6,
{
    let promo = match mv.promotion {
        Some(p) => Some(p as u8),
        None => None,
    };
    (mv.from as u8, mv.to as u8, promo)
}

/// Relies on `cozy_chess::Board::generate_moves`: calls the visitor with
/// batches of the position's legal moves until it returns true, and here
/// collects every batch. The resulting list holds exactly the legal
/// moves, each of them a move `Board::try_play` accepts, and each listed
/// once: the generator visits every origin square once and each batch
/// expands distinct destination-promotion pairs.
#[verifier::external_body]
pub fn generate_moves_vec(b: &cozy_chess::Board) -> (r: Vec<cozy_chess::Move>)
    ensures
        r@ == spec_legal_moves(*b),
        forall|i: int|
            0 <= i < r@.len() ==> spec_move_legal(*b, #[trigger] spec_legal_moves(*b)[i]),
        forall|i: int, j: int| 0 <= i < j < r@.len() ==> #[trigger] r@[i] != #[trigger] r@[j],
{
    let mut v: Vec<cozy_chess::Move> = Vec::new();
    b.generate_moves(|packed_moves| {
        v.extend(packed_moves);
        false
    });
    v
}

/// Relies on `cozy_chess::Board`'s `Clone`: the copy is the same position.
#[verifier::external_body]
pub fn clone_board(b: &cozy_chess::Board) -> (r: cozy_chess::Board)
    ensures
        r == *b,
{
    b.clone()
}

/// Relies on `cozy_chess::Board::try_play`: plays the move on a copy of the
/// board and returns the resulting position, or `None` if the move is
/// illegal; it never panics.
#[verifier::external_body]
pub fn try_play_board(b: &cozy_chess::Board, mv: cozy_chess::Move) -> (r: Option<
    cozy_chess::Board,
>)
    ensures
        r is Some <==> spec_move_legal(*b, mv),
        r is Some ==> r->0 == spec_play(*b, mv),
{
    let mut next = b.clone();
    match next.try_play(mv) {
        Ok(()) => Some(next),
        Err(_) => None,
    }
}

/// Relies on `cozy_chess::Board::null_move`: the position with the side to
/// move toggled and the en-passant square cleared, or `None` when the side
/// to move is in check.
#[verifier::external_body]
pub fn null_move_board(b: &cozy_chess::Board) -> (r: Option<cozy_chess::Board>)
    ensures
        r is Some <==> spec_checkers(*b) == 0,
        r is Some ==> r->0 == spec_null_board(*b),
{
    b.null_move()
}

/// Relies on `std::time::Instant::now`: a point on the monotonic clock.
#[verifier::external_body]
pub fn now_instant() -> std::time::Instant {
    std::time::Instant::now()
}

/// Relies on `std::time::Instant::elapsed`: whole milliseconds since the
/// given point; nothing is assumed of the value, which depends on the clock.
#[verifier::external_body]
pub fn elapsed_ms(t: &std::time::Instant) -> u64 {
    t.elapsed().as_millis() as u64
}

} // verus!
