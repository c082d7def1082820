//! The search's position stack: the current board on top, and the Zobrist
//! hashes of every position visited since the start of the game, for
//! repetition detection that crosses the search root.

use vstd::prelude::*;
use crate::trusted::{board_hash, clone_board, null_move_board, try_play_board, spec_checkers,
    spec_hash, spec_move_legal, spec_null_board, spec_play};

verus! {

/// How many entries of `s` equal `h`.
pub open spec fn count_hash(s: Seq<u64>, h: u64) -> nat
    decreases s.len(),
{
    if s.len() == 0 {
        0
    } else {
        count_hash(s.drop_last(), h) + if s.last() == h {
            1nat
        } else {
            0nat
        }
    }
}

/// The last entry always counts itself.
pub proof fn lemma_count_hash_last(s: Seq<u64>)
    requires
        s.len() >= 1,
    ensures
        count_hash(s, s.last()) >= 1,
{
}

/// The position reached by replaying a move list, or `None` as soon as a
/// move is illegal.
pub open spec fn spec_replay(
    b: cozy_chess::Board,
    moves: Seq<cozy_chess::Move>,
) -> Option<cozy_chess::Board>
    decreases moves.len(),
{
    if moves.len() == 0 {
        Some(b)
    } else if spec_move_legal(b, moves[0]) {
        spec_replay(spec_play(b, moves[0]), moves.drop_first())
    } else {
        None
    }
}

/// The hashes recorded while replaying a legal move list: one per visited
/// position, the final position's last.
pub open spec fn spec_replay_hashes(
    b: cozy_chess::Board,
    moves: Seq<cozy_chess::Move>,
) -> Seq<u64>
    decreases moves.len(),
{
    if moves.len() == 0 {
        seq![spec_hash(b)]
    } else {
        seq![spec_hash(b)] + spec_replay_hashes(spec_play(b, moves[0]), moves.drop_first())
    }
}

/// A stack of boards (top = current search position) and the hashes of
/// every position ever visited, game prefix included.
pub struct BoardStack {
    stack: Vec<cozy_chess::Board>,
    history: Vec<u64>,
}

impl BoardStack {
    /// The boards on the stack, bottom first.
    pub closed spec fn boards(self) -> Seq<cozy_chess::Board> {
        self.stack@
    }

    /// The visited positions' hashes, oldest first; the last entry is the
    /// top board's hash.
    pub closed spec fn hashes(self) -> Seq<u64> {
        self.history@
    }

    /// There is always a current position, the hash trail covers at
    /// least the boards still on the stack, and each stacked board pairs
    /// with its own hash at the trail's tail — so the last hash is always
    /// the current board's.
    pub open spec fn wf(self) -> bool {
        self.boards().len() >= 1 && self.hashes().len() >= self.boards().len() && forall|j: int|
            0 <= j < self.boards().len() ==> self.hashes()[self.hashes().len() - self.boards().len()
                + j] == spec_hash(#[trigger] self.boards()[j])
    }

    /// Replay the game prefix from `init_pos`, recording each position's
    /// hash; the final position becomes the single stack entry. Yields
    /// `None` exactly when a prefix move is illegal; on success the top
    /// board is the replayed position and the hash trail is the replay's.
    pub fn new(init_pos: &cozy_chess::Board, moves_played: &Vec<cozy_chess::Move>) -> (r: Option<
        BoardStack,
    >)
        ensures
            r is Some <==> spec_replay(*init_pos, moves_played@) is Some,
            r is Some ==> (r->0).wf() && (r->0).boards().len() == 1 && (r->0).hashes().len()
                == moves_played@.len() + 1,
            r is Some ==> (r->0).boards().last() == spec_replay(*init_pos, moves_played@)->0
                && (r->0).hashes() == spec_replay_hashes(*init_pos, moves_played@),
    {
        let mut history: Vec<u64> = Vec::new();
        let mut board = clone_board(init_pos);
        let n = moves_played.len();
        let mut i: usize = 0;
        proof {
            assert(moves_played@.skip(0) =~= moves_played@);
            assert(history@ + spec_replay_hashes(board, moves_played@) =~= spec_replay_hashes(
                *init_pos,
                moves_played@,
            ));
        }
        while i < n
            invariant
                i <= n,
                n == moves_played@.len(),
                history@.len() == i,
                spec_replay(*init_pos, moves_played@) == spec_replay(
                    board,
                    moves_played@.skip(i as int),
                ),
                spec_replay_hashes(*init_pos, moves_played@) == history@ + spec_replay_hashes(
                    board,
                    moves_played@.skip(i as int),
                ),
            decreases n - i,
        {
            let ghost h0 = history@;
            let ghost b0 = board;
            let ghost rest = moves_played@.skip(i as int);
            proof {
                assert(rest[0] == moves_played@[i as int]);
                assert(rest.drop_first() =~= moves_played@.skip(i + 1));
            }
            history.push(board_hash(&board));
            match try_play_board(&board, moves_played[i]) {
                Some(next) => {
                    proof {
                        assert(spec_replay_hashes(b0, rest) == seq![spec_hash(b0)]
                            + spec_replay_hashes(next, moves_played@.skip(i + 1)));
                        assert(history@ + spec_replay_hashes(next, moves_played@.skip(i + 1)) =~= h0
                            + spec_replay_hashes(b0, rest));
                    }
                    board = next;
                },
                None => {
                    return None;
                },
            }
            i = i + 1;
        }
        proof {
            assert(moves_played@.skip(n as int) =~= Seq::<cozy_chess::Move>::empty());
        }
        history.push(board_hash(&board));
        let mut stack: Vec<cozy_chess::Board> = Vec::new();
        stack.push(board);
        proof {
            assert(history@ =~= spec_replay_hashes(*init_pos, moves_played@));
        }
        Some(BoardStack { stack, history })
    }

    /// Read the current position.
    pub fn get(&self) -> (r: &cozy_chess::Board)
        requires
            self.wf(),
        ensures
            *r == self.boards().last(),
    {
        &self.stack[self.stack.len() - 1]
    }

    /// The current position's hash, as recorded when it was pushed.
    pub fn top_hash(&self) -> (r: u64)
        requires
            self.wf(),
        ensures
            r == self.hashes().last(),
    {
        self.history[self.history.len() - 1]
    }

    /// Play a move on a copy of the current position and push the result
    /// and its hash. The move's legality is checked; it is played exactly
    /// when legal, and an illegal move leaves the stack untouched and
    /// yields false.
    pub fn play_unchecked(&mut self, mv: cozy_chess::Move) -> (r: bool)
        requires
            old(self).wf(),
        ensures
            final(self).wf(),
            r == spec_move_legal(old(self).boards().last(), mv),
            r ==> final(self).boards().len() == old(self).boards().len() + 1,
            r ==> final(self).boards().drop_last() == old(self).boards(),
            r ==> final(self).boards().last() == spec_play(old(self).boards().last(), mv),
            r ==> final(self).hashes().drop_last() == old(self).hashes(),
            r ==> final(self).hashes().last() == spec_hash(final(self).boards().last()),
            !r ==> *final(self) == *old(self),
    {
        match try_play_board(&self.stack[self.stack.len() - 1], mv) {
            Some(next) => {
                self.history.push(board_hash(&next));
                self.stack.push(next);
                proof {
                    assert(self.boards().drop_last() =~= old(self).boards());
                    assert(self.hashes().drop_last() =~= old(self).hashes());
                }
                true
            },
            None => false,
        }
    }

    /// Forfeit the turn: push the null-moved position and its hash. The
    /// turn is forfeited exactly when the mover is not in check; in check
    /// the stack is untouched and the result is false.
    pub fn null_move(&mut self) -> (r: bool)
        requires
            old(self).wf(),
        ensures
            final(self).wf(),
            r == (spec_checkers(old(self).boards().last()) == 0),
            r ==> final(self).boards().len() == old(self).boards().len() + 1,
            r ==> final(self).boards().drop_last() == old(self).boards(),
            r ==> final(self).boards().last() == spec_null_board(old(self).boards().last()),
            r ==> final(self).hashes().drop_last() == old(self).hashes(),
            r ==> final(self).hashes().last() == spec_hash(final(self).boards().last()),
            !r ==> *final(self) == *old(self),
    {
        match null_move_board(&self.stack[self.stack.len() - 1]) {
            Some(next) => {
                self.history.push(board_hash(&next));
                self.stack.push(next);
                proof {
                    assert(self.boards().drop_last() =~= old(self).boards());
                    assert(self.hashes().drop_last() =~= old(self).hashes());
                }
                true
            },
            None => false,
        }
    }

    /// Pop the top board and its hash; legal only while a previous
    /// position remains below.
    pub fn undo(&mut self)
        requires
            old(self).wf(),
            old(self).boards().len() >= 2,
        ensures
            final(self).wf(),
            final(self).boards() == old(self).boards().drop_last(),
            final(self).hashes() == old(self).hashes().drop_last(),
    {
        self.history.pop();
        self.stack.pop();
        proof {
            assert(self.boards() =~= old(self).boards().drop_last());
            assert(self.hashes() =~= old(self).hashes().drop_last());
        }
    }

    /// How often the current position has been visited, counted over the
    /// whole hash trail; a never-repeated position counts once.
    pub fn repetitions(&self) -> (r: usize)
        requires
            self.wf(),
        ensures
            r == count_hash(self.hashes(), self.hashes().last()),
            r >= 1,
    {
        let h = self.top_hash();
        let n = self.history.len();
        let mut count: usize = 0;
        let mut i: usize = 0;
        while i < n
            invariant
                i <= n,
                n == self.hashes().len(),
                count == count_hash(self.hashes().take(i as int), h),
                count <= i,
            decreases n - i,
        {
            proof {
                assert(self.hashes().take(i + 1).drop_last() =~= self.hashes().take(i as int));
                assert(self.hashes().take(i + 1).last() == self.hashes()[i as int]);
            }
            if self.history[i] == h {
                count = count + 1;
            }
            i = i + 1;
        }
        proof {
            assert(self.hashes().take(n as int) =~= self.hashes());
            lemma_count_hash_last(self.hashes());
        }
        count
    }
}
} // verus!
