//! Move ordering: every legal move is annotated once with plain values,
//! given a rank — hash move first, then captures by most-valuable-victim /
//! least-valuable-attacker, then quiets by history score — and stably
//! sorted by descending rank.

use vstd::prelude::*;
use crate::helpers::{classify_capture, spec_board_captured, spec_move_code, spec_repr_of,
    MoveRepr, NO_MOVE_CODE, PIECE_NONE};
use crate::history_tables::{spec_history_index, HistoryTables};
use crate::trusted::{colors_bb, en_passant_file, generate_moves_vec, move_parts, piece_on_ord,
    pieces_bb, side_to_move_black, spec_legal_moves, spec_move_legal, spec_move_parts,
    spec_piece_on, spec_stm_black};
use crate::tt::TtEntry;

verus! {

broadcast use vstd::seq_lib::group_to_multiset_ensures, vstd::multiset::group_multiset_axioms;

/// A move's ordering rank: the hash move outranks every capture, captures
/// outrank every quiet move, and within a class the payload decides.
#[derive(Clone, Copy, Debug, PartialEq, Eq, Structural)]
pub enum MoveScore {
    Quiet(i32),
    Capture(i32),
    PvMove,
}

/// The class of a rank: quiets 0, captures 1, the hash move 2.
pub open spec fn key_class(k: MoveScore) -> int {
    match k {
        MoveScore::Quiet(_) => 0,
        MoveScore::Capture(_) => 1,
        MoveScore::PvMove => 2,
    }
}

/// The payload of a rank.
pub open spec fn key_val(k: MoveScore) -> int {
    match k {
        MoveScore::Quiet(v) => v as int,
        MoveScore::Capture(v) => v as int,
        MoveScore::PvMove => 0,
    }
}

/// The total order on ranks: by class, then by payload.
pub open spec fn key_le(a: MoveScore, b: MoveScore) -> bool {
    key_class(a) < key_class(b) || (key_class(a) == key_class(b) && key_val(a) <= key_val(b))
}

/// Does `a` rank at least as high as `b`?
pub fn key_ge(a: MoveScore, b: MoveScore) -> (r: bool)
    ensures
        r == key_le(b, a),
{
    let ca: i32 = match a {
        MoveScore::Quiet(_) => 0,
        MoveScore::Capture(_) => 1,
        MoveScore::PvMove => 2,
    };
    let cb: i32 = match b {
        MoveScore::Quiet(_) => 0,
        MoveScore::Capture(_) => 1,
        MoveScore::PvMove => 2,
    };
    if ca != cb {
        return ca > cb;
    }
    let va: i32 = match a {
        MoveScore::Quiet(v) => v,
        MoveScore::Capture(v) => v,
        MoveScore::PvMove => 0,
    };
    let vb: i32 = match b {
        MoveScore::Quiet(v) => v,
        MoveScore::Capture(v) => v,
        MoveScore::PvMove => 0,
    };
    va >= vb
}

/// A legal move annotated with the plain values the search reads: squares,
/// promotion, the moving piece's kind, the capture victim's kind
/// (`PIECE_NONE` for a quiet move) and its ordering rank.
#[derive(Clone, Copy, Debug)]
pub struct SearchMove {
    pub mv: cozy_chess::Move,
    pub from: u8,
    pub to: u8,
    pub promo: u8,
    pub piece: u8,
    pub victim: u8,
    pub key: MoveScore,
}

impl SearchMove {
    /// Annotations name real squares and piece kinds.
    pub open spec fn wf(self) -> bool {
        self.from < 64 && self.to < 64 && self.promo <= PIECE_NONE && self.piece < 6
            && self.victim <= PIECE_NONE
    }

    /// The move as plain values.
    pub open spec fn repr(self) -> MoveRepr {
        MoveRepr { from: self.from, to: self.to, promo: self.promo }
    }

    /// A capture's victim is a real piece; quiet moves have none.
    pub open spec fn is_capture(self) -> bool {
        self.victim != PIECE_NONE
    }
}

/// The rank of an annotated move: the hash move (the move whose 16-bit
/// code the transposition table remembered), else a capture ranked by
/// `victim * 8 - attacker`, else a quiet ranked by its history score.
pub open spec fn spec_move_key(
    m: SearchMove,
    tt_code: u16,
    hist: Seq<i32>,
    stm_black: bool,
) -> MoveScore {
    if tt_code != NO_MOVE_CODE && spec_move_code(m.repr()) == tt_code {
        MoveScore::PvMove
    } else if m.victim != PIECE_NONE {
        MoveScore::Capture((m.victim * 8 - m.piece) as i32)
    } else {
        MoveScore::Quiet(hist[spec_history_index(stm_black, m.piece as int, m.to as int)])
    }
}

/// Rank one annotated move against the remembered hash-move code and the
/// history tables.
pub fn score_move(m: &SearchMove, tt_code: u16, history: &HistoryTables, stm_black: bool) -> (k:
    MoveScore)
    requires
        m.wf(),
        history.wf(),
    ensures
        k == spec_move_key(*m, tt_code, history@, stm_black),
{
    if tt_code != NO_MOVE_CODE {
        let code = crate::helpers::move_code(
            MoveRepr { from: m.from, to: m.to, promo: m.promo },
        );
        if code == tt_code {
            return MoveScore::PvMove;
        }
    }
    if m.victim != PIECE_NONE {
        return MoveScore::Capture(m.victim as i32 * 8 - m.piece as i32);
    }
    MoveScore::Quiet(history.get_quiet_score(stm_black, m.piece, m.to))
}

/// Where a stable descending insertion puts a newcomer: after every
/// element ranking at least as high, before the first ranking strictly
/// lower — so equal-ranked elements keep their arrival order.
pub open spec fn insert_desc(s: Seq<SearchMove>, x: SearchMove) -> Seq<SearchMove>
    decreases s.len(),
{
    if s.len() == 0 {
        seq![x]
    } else if key_le(x.key, s.last().key) {
        s.push(x)
    } else {
        insert_desc(s.drop_last(), x).push(s.last())
    }
}

/// The stable descending sort: insert each element, in arrival order,
/// into the sorted list of its predecessors.
pub open spec fn spec_stable_sorted_desc(s: Seq<SearchMove>) -> Seq<SearchMove>
    decreases s.len(),
{
    if s.len() == 0 {
        Seq::empty()
    } else {
        insert_desc(spec_stable_sorted_desc(s.drop_last()), s.last())
    }
}

/// Inserting after the high-ranked prefix and before the strictly lower
/// suffix is exactly the stable insertion.
proof fn lemma_insert_at(sp: Seq<SearchMove>, x: SearchMove, k: int)
    requires
        0 <= k <= sp.len(),
        forall|t: int| k <= t < sp.len() ==> !key_le(x.key, (#[trigger] sp[t]).key),
        k > 0 ==> key_le(x.key, sp[k - 1].key),
    ensures
        insert_desc(sp, x) == sp.take(k) + seq![x] + sp.skip(k),
    decreases sp.len(),
{
    if sp.len() == 0 {
        assert(insert_desc(sp, x) =~= sp.take(k) + seq![x] + sp.skip(k));
    } else if k == sp.len() {
        assert(insert_desc(sp, x) =~= sp.take(k) + seq![x] + sp.skip(k));
    } else {
        assert(!key_le(x.key, sp.last().key));
        lemma_insert_at(sp.drop_last(), x, k);
        assert(sp.drop_last().take(k) =~= sp.take(k));
        assert(insert_desc(sp, x) =~= sp.take(k) + seq![x] + sp.skip(k));
    }
}

/// A list whose ranks never rise: every later move ranks at most as high
/// as every earlier one.
pub open spec fn sorted_desc(s: Seq<SearchMove>) -> bool {
    forall|i: int, j: int| 0 <= i < j < s.len() ==> key_le(#[trigger] s[j].key, #[trigger] s[i].key)
}

/// Stable descending sort by rank: adjacent elements are swapped only when
/// strictly out of order, so equal-ranked moves keep their relative order
/// — the result is exactly the stable insertion sort of the input.
#[verifier::rlimit(60)]
pub fn sort_moves(moves: Vec<SearchMove>) -> (r: Vec<SearchMove>)
    ensures
        sorted_desc(r@),
        r@ == spec_stable_sorted_desc(moves@),
        r@.to_multiset() == moves@.to_multiset(),
        r@.len() == moves@.len(),
        forall|i: int| 0 <= i < r@.len() ==> moves@.contains(#[trigger] r@[i]),
{
    let mut v = moves;
    let ghost m0 = v@.to_multiset();
    let ghost orig = v@;
    let n = v.len();
    let mut j: usize = 1;
    if n == 0 {
        proof {
            assert(v@ =~= spec_stable_sorted_desc(orig));
        }
        return v;
    }
    proof {
        assert(orig.take(1).len() == 1);
        assert(orig.take(1).drop_last() =~= Seq::<SearchMove>::empty());
        assert(orig.take(1).last() == orig[0]);
        assert(spec_stable_sorted_desc(Seq::<SearchMove>::empty())
            =~= Seq::<SearchMove>::empty());
        assert(spec_stable_sorted_desc(orig.take(1)) == insert_desc(
            spec_stable_sorted_desc(orig.take(1).drop_last()),
            orig.take(1).last(),
        ));
        assert(insert_desc(Seq::<SearchMove>::empty(), orig[0]) =~= seq![orig[0]]);
        assert(v@.subrange(0, 1) =~= spec_stable_sorted_desc(orig.take(1)));
        assert(v@.subrange(1, n as int) =~= orig.subrange(1, n as int));
    }
    while j < n
        invariant
            1 <= j <= n,
            n == v@.len(),
            n == orig.len(),
            v@.to_multiset() == m0,
            m0 == moves@.to_multiset(),
            orig == moves@,
            v@.subrange(0, j as int) == spec_stable_sorted_desc(orig.take(j as int)),
            v@.subrange(j as int, n as int) == orig.subrange(j as int, n as int),
            forall|i1: int, i2: int|
                0 <= i1 < i2 < j ==> key_le(#[trigger] v@[i2].key, #[trigger] v@[i1].key),
        decreases n - j,
    {
        let ghost sp = spec_stable_sorted_desc(orig.take(j as int));
        let ghost x = orig[j as int];
        proof {
            assert forall|t: int| j <= t < n implies v@[t] == orig[t] by {
                assert(v@.subrange(j as int, n as int)[t - j] == orig.subrange(
                    j as int,
                    n as int,
                )[t - j]);
            }
            assert(v@.subrange(0, j as int) =~= sp.take(j as int));
            assert(v@.subrange(j + 1, j + 1) =~= sp.skip(j as int));
            assert(v@.subrange(j + 1, n as int) =~= orig.subrange(j + 1, n as int));
        }
        let mut k: usize = j;
        while k > 0 && !key_ge(v[k - 1].key, v[k].key)
            invariant
                0 <= k <= j < n,
                n == v@.len(),
                v@.to_multiset() == m0,
                sp.len() == j,
                v@.subrange(0, k as int) == sp.take(k as int),
                v@[k as int] == x,
                v@.subrange(k + 1, j + 1) == sp.skip(k as int),
                v@.subrange(j + 1, n as int) == orig.subrange(j + 1, n as int),
                forall|t: int| k <= t < j ==> !key_le(x.key, (#[trigger] sp[t]).key),
                forall|i1: int, i2: int|
                    0 <= i1 < i2 <= j && i1 != k && i2 != k ==> key_le(
                        #[trigger] v@[i2].key,
                        #[trigger] v@[i1].key,
                    ),
                forall|i2: int| k < i2 <= j ==> key_le(#[trigger] v@[i2].key, v@[k as int].key),
            decreases k,
        {
            let ghost v0 = v@;
            let a = v[k - 1];
            let b = v[k];
            v.set(k - 1, b);
            v.set(k, a);
            proof {
                assert(v0.contains(a) && v0.contains(b));
                assert(v@ == v0.update(k - 1, b).update(k as int, a));
                assert(v@.to_multiset() =~= m0);
                assert(a == sp[k - 1]) by {
                    assert(v0.subrange(0, k as int)[k - 1] == sp.take(k as int)[k - 1]);
                }
                assert forall|t: int| 0 <= t < k - 1 implies v@[t] == sp[t] by {
                    assert(v0.subrange(0, k as int)[t] == sp.take(k as int)[t]);
                }
                assert(v@.subrange(0, k - 1) =~= sp.take(k - 1));
                assert forall|t: int| k + 1 <= t < j + 1 implies v@[t] == sp[t - 1] by {
                    assert(v0.subrange(k + 1, j + 1)[t - k - 1] == sp.skip(k as int)[t - k - 1]);
                }
                assert(v@.subrange(k as int, j + 1) =~= sp.skip(k - 1));
                assert(v@.subrange(j + 1, n as int) =~= v0.subrange(j + 1, n as int));
            }
            k = k - 1;
        }
        proof {
            if k > 0 {
                assert(v@[k - 1] == sp[k - 1]) by {
                    assert(v@.subrange(0, k as int)[k - 1] == sp.take(k as int)[k - 1]);
                }
            }
            lemma_insert_at(sp, x, k as int);
            assert forall|t: int| 0 <= t < k implies v@[t] == sp[t] by {
                assert(v@.subrange(0, k as int)[t] == sp.take(k as int)[t]);
            }
            assert forall|t: int| k + 1 <= t < j + 1 implies v@[t] == sp[t - 1] by {
                assert(v@.subrange(k + 1, j + 1)[t - k - 1] == sp.skip(k as int)[t - k - 1]);
            }
            assert(v@.subrange(0, j + 1) =~= sp.take(k as int) + seq![x] + sp.skip(k as int));
            assert(orig.take(j + 1).drop_last() =~= orig.take(j as int));
            assert(orig.take(j + 1).last() == x);
            assert(spec_stable_sorted_desc(orig.take(j + 1)) == insert_desc(sp, x));
            assert(v@.subrange(j + 1, n as int) =~= orig.subrange(j + 1, n as int));
        }
        j = j + 1;
    }
    proof {
        assert(orig.take(n as int) =~= orig);
        assert(v@ =~= v@.subrange(0, n as int));
        assert forall|i: int| 0 <= i < v@.len() implies moves@.contains(#[trigger] v@[i]) by {
            assert(v@.to_multiset().count(v@[i]) > 0);
        }
    }
    v
}

/// A legal move with the plain annotations the search reads, each a
/// function of the board's named facts: its squares and promotion, the
/// moving piece's kind, and the capture victim's kind. The rank is a
/// placeholder until `order_moves` fills it in.
pub open spec fn spec_annotation(b: cozy_chess::Board, mv: cozy_chess::Move) -> SearchMove {
    SearchMove {
        mv,
        from: spec_move_parts(mv).0,
        to: spec_move_parts(mv).1,
        promo: spec_repr_of(mv).promo,
        piece: match spec_piece_on(b, spec_move_parts(mv).0) {
            Some(p) => p,
            None => 0,
        },
        victim: match spec_board_captured(b, mv) {
            Some(v) => v,
            None => PIECE_NONE,
        },
        key: MoveScore::Quiet(0),
    }
}

/// The position's annotated legal-move list, in the generator's order.
pub open spec fn spec_annotated(b: cozy_chess::Board) -> Seq<SearchMove> {
    spec_legal_moves(b).map_values(|mv: cozy_chess::Move| spec_annotation(b, mv))
}

/// Generate the position's legal moves and annotate each with the plain
/// values the search reads; ranks are filled in later by `order_moves`.
/// The list is exactly the position's annotated legal-move list, so it is
/// empty exactly when the side to move has no legal move.
pub fn annotate_moves(board: &cozy_chess::Board) -> (r: Vec<SearchMove>)
    ensures
        r@ == spec_annotated(*board),
        r@.len() == spec_legal_moves(*board).len(),
        forall|i: int, j: int|
            0 <= i < j < spec_legal_moves(*board).len() ==> #[trigger] spec_legal_moves(*board)[i]
                != #[trigger] spec_legal_moves(*board)[j],
        forall|i: int| 0 <= i < r@.len() ==> (#[trigger] r@[i]).mv == spec_legal_moves(*board)[i],
        forall|i: int| 0 <= i < r@.len() ==> spec_move_legal(*board, (#[trigger] r@[i]).mv),
        forall|i: int| 0 <= i < r@.len() ==> (#[trigger] r@[i]).repr() == spec_repr_of(r@[i].mv),
        forall|i: int| 0 <= i < r@.len() ==> (#[trigger] r@[i]).wf(),
{
    let raw = generate_moves_vec(board);
    let stm_black = side_to_move_black(board);
    let enemy_bb = colors_bb(board, !stm_black);
    let pawn_bb = pieces_bb(board, 0);
    let ep_file = en_passant_file(board);

    let mut annotated: Vec<SearchMove> = Vec::new();
    let n = raw.len();
    let mut i: usize = 0;
    while i < n
        invariant
            i <= n,
            n == raw@.len(),
            raw@ == spec_legal_moves(*board),
            forall|t: int|
                0 <= t < raw@.len() ==> spec_move_legal(
                    *board,
                    #[trigger] spec_legal_moves(*board)[t],
                ),
            ep_file is Some ==> ep_file->0 < 8,
            stm_black == spec_stm_black(*board),
            enemy_bb == crate::trusted::spec_colors(*board, !spec_stm_black(*board)),
            pawn_bb == crate::trusted::spec_pieces(*board, 0),
            ep_file == crate::trusted::spec_ep_file(*board),
            annotated@.len() == i,
            annotated@ == spec_annotated(*board).take(i as int),
            forall|t: int|
                0 <= t < annotated@.len() ==> (#[trigger] annotated@[t]).mv == spec_legal_moves(
                    *board,
                )[t],
            forall|t: int|
                0 <= t < annotated@.len() ==> spec_move_legal(
                    *board,
                    (#[trigger] annotated@[t]).mv,
                ),
            forall|t: int|
                0 <= t < annotated@.len() ==> (#[trigger] annotated@[t]).repr() == spec_repr_of(
                    annotated@[t].mv,
                ),
            forall|t: int| 0 <= t < annotated@.len() ==> (#[trigger] annotated@[t]).wf(),
        decreases n - i,
    {
        let mv = raw[i];
        proof {
            assert(spec_move_legal(*board, spec_legal_moves(*board)[i as int]));
        }
        let (from, to, promo_opt) = move_parts(mv);
        let promo: u8 = match promo_opt {
            Some(p) => p,
            None => PIECE_NONE,
        };
        let piece: u8 = match piece_on_ord(board, from) {
            Some(p) => p,
            None => 0,
        };
        let victim: u8 = match classify_capture(
            stm_black,
            enemy_bb,
            pawn_bb,
            ep_file,
            from,
            to,
            piece_on_ord(board, to),
        ) {
            Some(p) => p,
            None => PIECE_NONE,
        };
        let m = SearchMove { mv, from, to, promo, piece, victim, key: MoveScore::Quiet(0) };
        proof {
            assert(m == spec_annotation(*board, mv));
            assert(spec_annotated(*board)[i as int] == spec_annotation(*board, mv));
        }
        annotated.push(m);
        proof {
            assert(annotated@ =~= spec_annotated(*board).take(i + 1));
        }
        i = i + 1;
    }
    proof {
        assert(annotated@ =~= spec_annotated(*board));
    }
    annotated
}

/// The annotated move with its rank filled in.
pub open spec fn spec_ranked(
    m: SearchMove,
    tt_code: u16,
    hist: Seq<i32>,
    stm_black: bool,
) -> SearchMove {
    SearchMove { key: spec_move_key(m, tt_code, hist, stm_black), ..m }
}

/// The moves a node searches: all of them, or only the captures in the
/// quiescence search.
pub open spec fn spec_searched(moves: Seq<SearchMove>, qsearch: bool) -> Seq<SearchMove> {
    if qsearch {
        moves.filter(|m: SearchMove| m.is_capture())
    } else {
        moves
    }
}

/// Keep only captures when `qsearch` asks for them, rank every move
/// against the remembered hash-move code and the history tables, and sort
/// stably by descending rank. The result is exactly the stable descending
/// sort of the searched moves with their ranks filled in, so equal-ranked
/// moves keep the input's order.
pub fn order_moves(
    moves: Vec<SearchMove>,
    tt_code: u16,
    history: &HistoryTables,
    stm_black: bool,
    qsearch: bool,
) -> (r: Vec<SearchMove>)
    requires
        history.wf(),
        forall|i: int| 0 <= i < moves@.len() ==> (#[trigger] moves@[i]).wf(),
        forall|i: int|
            0 <= i < moves@.len() ==> (#[trigger] moves@[i]).repr() == spec_repr_of(moves@[i].mv),
    ensures
        sorted_desc(r@),
        forall|i: int|
            0 <= i < r@.len() ==> (#[trigger] r@[i]).repr() == spec_repr_of(r@[i].mv),
        r@ == spec_stable_sorted_desc(
            spec_searched(moves@, qsearch).map_values(
                (|m: SearchMove| spec_ranked(m, tt_code, history@, stm_black)),
            ),
        ),
        r@.to_multiset() == spec_searched(moves@, qsearch).map_values(
            (|m: SearchMove| spec_ranked(m, tt_code, history@, stm_black)),
        ).to_multiset(),
        r@.len() == spec_searched(moves@, qsearch).len(),
        forall|i: int|
            0 <= i < r@.len() ==> exists|t: int|
                0 <= t < moves@.len() && (#[trigger] r@[i]).mv == moves@[t].mv,
        forall|i: int| 0 <= i < r@.len() ==> (#[trigger] r@[i]).wf(),
        forall|i: int|
            0 <= i < r@.len() ==> (#[trigger] r@[i]).key == spec_move_key(
                r@[i],
                tt_code,
                history@,
                stm_black,
            ),
        qsearch ==> forall|i: int| 0 <= i < r@.len() ==> (#[trigger] r@[i]).is_capture(),
    {
    let ghost rank_of = |m: SearchMove| spec_ranked(m, tt_code, history@, stm_black);
    let mut scored: Vec<SearchMove> = Vec::new();
    let n = moves.len();
    let mut i: usize = 0;
    while i < n
        invariant
            i <= n,
            n == moves@.len(),
            history.wf(),
            rank_of == (|m: SearchMove| spec_ranked(m, tt_code, history@, stm_black)),
            forall|t: int| 0 <= t < moves@.len() ==> (#[trigger] moves@[t]).wf(),
            scored@ == spec_searched(moves@.take(i as int), qsearch).map_values(rank_of),
            forall|t: int| 0 <= t < scored@.len() ==> (#[trigger] scored@[t]).wf(),
            forall|t: int|
                0 <= t < scored@.len() ==> (#[trigger] scored@[t]).key == spec_move_key(
                    scored@[t],
                    tt_code,
                    history@,
                    stm_black,
                ),
            qsearch ==> forall|t: int|
                0 <= t < scored@.len() ==> (#[trigger] scored@[t]).is_capture(),
        decreases n - i,
    {
        let ghost pre = moves@.take(i as int);
        let ghost post = moves@.take(i + 1);
        proof {
            assert(post.drop_last() =~= pre);
            assert(post.last() == moves@[i as int]);
            reveal_with_fuel(Seq::filter, 2);
        }
        let m = moves[i];
        if !qsearch || m.victim != PIECE_NONE {
            let mut ranked = m;
            ranked.key = score_move(&m, tt_code, history, stm_black);
            proof {
                assert(ranked == rank_of(m));
                assert(spec_move_key(ranked, tt_code, history@, stm_black) == spec_move_key(
                    m,
                    tt_code,
                    history@,
                    stm_black,
                ));
            }
            scored.push(ranked);
        }
        proof {
            assert(scored@ =~= spec_searched(post, qsearch).map_values(rank_of));
        }
        i = i + 1;
    }
    proof {
        assert(moves@.take(n as int) =~= moves@);
    }
    let r = sort_moves(scored);
    proof {
        assert forall|t: int| 0 <= t < r@.len() implies (#[trigger] r@[t]).wf() && r@[t].key
            == spec_move_key(r@[t], tt_code, history@, stm_black) && (qsearch
            ==> r@[t].is_capture()) by {
            let ghost s = scored@;
            assert(s.contains(r@[t]));
            let ghost w = choose|w: int| 0 <= w < s.len() && s[w] == r@[t];
        }
        assert forall|t: int| 0 <= t < r@.len() implies (#[trigger] r@[t]).repr() == spec_repr_of(
            r@[t].mv,
        ) by {
            let ghost s = scored@;
            assert(s.contains(r@[t]));
            let ghost w = choose|w: int| 0 <= w < s.len() && s[w] == r@[t];
            let ghost searched = spec_searched(moves@, qsearch);
            assert(s[w] == rank_of(searched[w]));
            if qsearch {
                let ghost pred = |m: SearchMove| m.is_capture();
                assert(moves@.filter(pred).contains(searched[w]));
                moves@.lemma_filter_contains_rev(pred, searched[w]);
                let ghost u = choose|u: int| 0 <= u < moves@.len() && moves@[u] == searched[w];
                assert(moves@[u].repr() == spec_repr_of(moves@[u].mv));
            } else {
                assert(moves@[w].repr() == spec_repr_of(moves@[w].mv));
            }
        }
        assert forall|t: int| 0 <= t < r@.len() implies exists|u: int|
            0 <= u < moves@.len() && (#[trigger] r@[t]).mv == moves@[u].mv by {
            let ghost s = scored@;
            assert(s.contains(r@[t]));
            let ghost w = choose|w: int| 0 <= w < s.len() && s[w] == r@[t];
            let ghost searched = spec_searched(moves@, qsearch);
            assert(s[w] == rank_of(searched[w]));
            assert(r@[t].mv == searched[w].mv);
            if qsearch {
                let ghost pred = |m: SearchMove| m.is_capture();
                assert(moves@.filter(pred).contains(searched[w]));
                moves@.lemma_filter_contains_rev(pred, searched[w]);
                let ghost u = choose|u: int| 0 <= u < moves@.len() && moves@[u] == searched[w];
                assert(r@[t].mv == moves@[u].mv);
            } else {
                assert(r@[t].mv == moves@[w].mv);
            }
        }
    }
    r
}

/// The hash-move code remembered by a transposition-table entry, or the
/// no-move sentinel when the probe missed.
pub fn tt_move_code(tt_entry: Option<TtEntry>) -> (r: u16)
    ensures
        tt_entry is Some ==> r == tt_entry->0.best_move,
        tt_entry is None ==> r == NO_MOVE_CODE,
{
    match tt_entry {
        Some(entry) => entry.best_move,
        None => NO_MOVE_CODE,
    }
}

/// Every listed move is one of the position's legal moves.
pub open spec fn spec_all_legal(r: Seq<SearchMove>, b: cozy_chess::Board) -> bool {
    forall|i: int| 0 <= i < r.len() ==> spec_legal_moves(b).contains((#[trigger] r[i]).mv)
}

/// Filtering keeps a duplicate-free list duplicate-free.
proof fn lemma_filter_no_duplicates(s: Seq<SearchMove>, pred: spec_fn(SearchMove) -> bool)
    requires
        s.no_duplicates(),
    ensures
        s.filter(pred).no_duplicates(),
    decreases s.len(),
{
    reveal_with_fuel(Seq::filter, 2);
    if s.len() > 0 {
        let dl = s.drop_last();
        assert(forall|i: int, j: int|
            0 <= i < j < dl.len() ==> #[trigger] dl[i] != #[trigger] dl[j]);
        lemma_filter_no_duplicates(dl, pred);
        if pred(s.last()) {
            assert(s.filter(pred) == dl.filter(pred).push(s.last()));
            assert forall|i: int, j: int|
                0 <= i < j < s.filter(pred).len() implies #[trigger] s.filter(pred)[i] != (
            #[trigger] s.filter(pred)[j]) by {
                if j == s.filter(pred).len() - 1 {
                    let ghost f = dl.filter(pred);
                    assert(f.contains(f[i]));
                    dl.lemma_filter_contains_rev(pred, f[i]);
                    let ghost u = choose|u: int| 0 <= u < dl.len() && dl[u] == f[i];
                    assert(s[u] == f[i] && s[u] != s.last());
                }
            }
        }
    }
}

/// The hash-move code a probe result remembers, as a spec value.
pub open spec fn spec_tt_code(tt_entry: Option<TtEntry>) -> u16 {
    match tt_entry {
        Some(entry) => entry.best_move,
        None => NO_MOVE_CODE,
    }
}

/// Generate, annotate, rank and sort the position's legal moves — the
/// composition of `annotate_moves` and `order_moves`. The result is
/// exactly the stable descending sort of the position's ranked annotated
/// legal moves (captures only in the quiescence search): every listed
/// move is legal, no legal move is listed twice, without the quiescence
/// filter every legal move is listed, and equal-ranked moves keep the
/// generator's order.
pub fn get_ordered_moves(
    board: &cozy_chess::Board,
    tt_entry: Option<TtEntry>,
    history: &HistoryTables,
    qsearch: bool,
) -> (r: Vec<SearchMove>)
    requires
        history.wf(),
    ensures
        sorted_desc(r@),
        r@ == spec_stable_sorted_desc(
            spec_searched(spec_annotated(*board), qsearch).map_values(
                (|m: SearchMove| spec_ranked(
                    m,
                    spec_tt_code(tt_entry),
                    history@,
                    spec_stm_black(*board),
                )),
            ),
        ),
        r@.to_multiset() == spec_searched(spec_annotated(*board), qsearch).map_values(
            (|m: SearchMove| spec_ranked(
                m,
                spec_tt_code(tt_entry),
                history@,
                spec_stm_black(*board),
            )),
        ).to_multiset(),
        !qsearch ==> r@.len() == spec_legal_moves(*board).len(),
        forall|t1: int, t2: int|
            0 <= t1 < t2 < r@.len() ==> (#[trigger] r@[t1]).mv != (#[trigger] r@[t2]).mv,
        spec_all_legal(r@, *board),
        forall|i: int|
            0 <= i < r@.len() ==> (#[trigger] r@[i]).key == spec_move_key(
                r@[i],
                spec_tt_code(tt_entry),
                history@,
                spec_stm_black(*board),
            ),
        forall|i: int| 0 <= i < r@.len() ==> (#[trigger] r@[i]).wf(),
        qsearch ==> forall|i: int| 0 <= i < r@.len() ==> (#[trigger] r@[i]).is_capture(),
{
    let annotated = annotate_moves(board);
    let ghost ann = annotated@;
    proof {
        assert(forall|u: int|
            0 <= u < ann.len() ==> (#[trigger] ann[u]).mv == spec_legal_moves(*board)[u]);
    }
    let stm_black = side_to_move_black(board);
    let tt_code = tt_move_code(tt_entry);
    let r = order_moves(annotated, tt_code, history, stm_black, qsearch);
    proof {
        let ghost inner = |m: SearchMove| spec_ranked(m, tt_code, history@, stm_black);
        let ghost outer = |m: SearchMove|
            spec_ranked(m, spec_tt_code(tt_entry), history@, spec_stm_black(*board));
        let ghost base = spec_searched(spec_annotated(*board), qsearch);
        assert(base.map_values(inner) =~= base.map_values(outer));
        let ghost scored = base.map_values(outer);

        assert forall|i: int| 0 <= i < r@.len() implies spec_legal_moves(*board).contains(
            (#[trigger] r@[i]).mv,
        ) by {
            assert(exists|u: int| 0 <= u < ann.len() && (#[trigger] r@[i]).mv == ann[u].mv);
            let ghost u = choose|u: int| 0 <= u < ann.len() && r@[i].mv == ann[u].mv;
            assert(spec_legal_moves(*board)[u] == r@[i].mv);
        }

        // The searched moves carry pairwise-distinct underlying moves.
        assert forall|u1: int, u2: int| 0 <= u1 < u2 < ann.len() implies (#[trigger] ann[u1]) != (
        #[trigger] ann[u2]) by {
            assert(ann[u1].mv == spec_legal_moves(*board)[u1]);
            assert(ann[u2].mv == spec_legal_moves(*board)[u2]);
        }
        assert(ann.no_duplicates());
        if qsearch {
            lemma_filter_no_duplicates(ann, |m: SearchMove| m.is_capture());
        }
        assert(base.no_duplicates());
        assert forall|i1: int, i2: int| 0 <= i1 < i2 < base.len() implies (#[trigger] base[i1]).mv
            != (#[trigger] base[i2]).mv by {
            if base[i1].mv == base[i2].mv {
                let ghost pred = |m: SearchMove| m.is_capture();
                if qsearch {
                    ann.lemma_filter_contains_rev(pred, base[i1]);
                    ann.lemma_filter_contains_rev(pred, base[i2]);
                } else {
                }
                let ghost u1 = choose|u: int| 0 <= u < ann.len() && ann[u] == base[i1];
                let ghost u2 = choose|u: int| 0 <= u < ann.len() && ann[u] == base[i2];
                assert(spec_legal_moves(*board)[u1] == base[i1].mv);
                assert(spec_legal_moves(*board)[u2] == base[i2].mv);
                assert(u1 == u2);
                assert(base[i1] == base[i2]);
                assert(false);
            }
        }

        // So do the ranked copies, and hence the sorted output.
        assert forall|i1: int, i2: int| 0 <= i1 < i2 < scored.len() implies (
        #[trigger] scored[i1]) != (#[trigger] scored[i2]) by {
            assert(scored[i1].mv == base[i1].mv && scored[i2].mv == base[i2].mv);
        }
        assert(scored.no_duplicates());
        scored.lemma_multiset_has_no_duplicates();
        r@.lemma_multiset_has_no_duplicates_conv();
        assert forall|t1: int, t2: int| 0 <= t1 < t2 < r@.len() implies (#[trigger] r@[t1]).mv != (
        #[trigger] r@[t2]).mv by {
            if r@[t1].mv == r@[t2].mv {
                assert(r@[t1] != r@[t2]);
                assert(r@.to_multiset().contains(r@[t1]) && r@.to_multiset().contains(r@[t2]));
                assert(scored.contains(r@[t1]) && scored.contains(r@[t2]));
                let ghost w1 = choose|w: int| 0 <= w < scored.len() && scored[w] == r@[t1];
                let ghost w2 = choose|w: int| 0 <= w < scored.len() && scored[w] == r@[t2];
                assert(w1 != w2);
                assert(scored[w1].mv == base[w1].mv && scored[w2].mv == base[w2].mv);
                assert(false);
            }
        }
    }
    r
}

} // verus!
