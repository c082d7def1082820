//! Tokenized command helpers: locating a keyword among whitespace-split
//! tokens, extracting the FEN that follows `fen`, the move list that
//! follows `moves`, and a clock field's numeric value.

use vstd::prelude::*;
use vstd::string::{StringExecFns, StrSliceExecFns};

verus! {

/// A side's clock state as reported by the command layer, in
/// milliseconds: remaining time and increment for white and black.
#[derive(Clone, Copy, Debug)]
pub struct Clock {
    pub wtime: u32,
    pub btime: u32,
    pub winc: u32,
    pub binc: u32,
}

/// The first index whose token reads `key`, or -1 when none does.
pub open spec fn token_pos(ts: Seq<String>, key: Seq<char>) -> int
    decreases ts.len(),
{
    if ts.len() == 0 {
        -1
    } else if ts[0]@ == key {
        0
    } else {
        let sub = token_pos(ts.drop_first(), key);
        if sub < 0 {
            -1
        } else {
            sub + 1
        }
    }
}

/// Where a token equals the key first, `token_pos` says so.
proof fn lemma_token_pos_found(ts: Seq<String>, key: Seq<char>, i: int)
    requires
        0 <= i < ts.len(),
        ts[i]@ == key,
        forall|t: int| 0 <= t < i ==> (#[trigger] ts[t])@ != key,
    ensures
        token_pos(ts, key) == i,
    decreases i,
{
    if i > 0 {
        assert(ts[0]@ != key);
        lemma_token_pos_found(ts.drop_first(), key, i - 1);
    }
}

/// Where no token equals the key, `token_pos` is -1.
proof fn lemma_token_pos_not_found(ts: Seq<String>, key: Seq<char>)
    requires
        forall|t: int| 0 <= t < ts.len() ==> (#[trigger] ts[t])@ != key,
    ensures
        token_pos(ts, key) == -1,
    decreases ts.len(),
{
    if ts.len() > 0 {
        lemma_token_pos_not_found(ts.drop_first(), key);
    }
}

/// Find the first token equal to `key`.
pub fn find_token(tokens: &Vec<String>, key: &String) -> (r: Option<usize>)
    ensures
        r is Some ==> token_pos(tokens@, key@) == r->0 && r->0 < tokens@.len(),
        r is None ==> token_pos(tokens@, key@) == -1,
{
    let n = tokens.len();
    let mut i: usize = 0;
    while i < n
        invariant
            i <= n,
            n == tokens@.len(),
            forall|t: int| 0 <= t < i ==> (#[trigger] tokens@[t])@ != key@,
        decreases n - i,
    {
        if (&tokens[i]).eq(key) {
            proof {
                lemma_token_pos_found(tokens@, key@, i as int);
            }
            return Some(i);
        }
        i = i + 1;
    }
    proof {
        lemma_token_pos_not_found(tokens@, key@);
    }
    None
}

/// The tokens joined with single spaces.
pub open spec fn join_spaces(ts: Seq<String>) -> Seq<char>
    decreases ts.len(),
{
    if ts.len() == 0 {
        Seq::empty()
    } else if ts.len() == 1 {
        ts[0]@
    } else {
        join_spaces(ts.drop_last()) + seq![' '] + ts.last()@
    }
}

/// Is every character a decimal digit, with at least one?
pub open spec fn spec_is_digits(cs: Seq<char>) -> bool {
    cs.len() > 0 && forall|t: int| 0 <= t < cs.len() ==> 48 <= (#[trigger] cs[t]) as int <= 57
}

/// The number the digits spell out.
pub open spec fn spec_digits_value(cs: Seq<char>) -> int
    decreases cs.len(),
{
    if cs.len() == 0 {
        0
    } else {
        spec_digits_value(cs.drop_last()) * 10 + (cs.last() as int - 48)
    }
}

proof fn lemma_digits_value_nonneg(cs: Seq<char>)
    requires
        forall|t: int| 0 <= t < cs.len() ==> 48 <= (#[trigger] cs[t]) as int <= 57,
    ensures
        spec_digits_value(cs) >= 0,
    decreases cs.len(),
{
    if cs.len() > 0 {
        assert(cs.drop_last() =~= cs.take(cs.len() - 1));
        lemma_digits_value_nonneg(cs.drop_last());
    }
}

/// A digit string's value is at least the value of any prefix.
proof fn lemma_digits_value_monotone(cs: Seq<char>, k: int)
    requires
        forall|t: int| 0 <= t < cs.len() ==> 48 <= (#[trigger] cs[t]) as int <= 57,
        0 <= k <= cs.len(),
    ensures
        spec_digits_value(cs) >= spec_digits_value(cs.take(k)),
    decreases cs.len() - k,
{
    if k < cs.len() {
        assert(cs.take(k + 1).drop_last() =~= cs.take(k));
        assert(cs.take(k + 1).last() == cs[k]);
        lemma_digits_value_nonneg(cs.take(k));
        lemma_digits_value_monotone(cs, k + 1);
    } else {
        assert(cs.take(k) =~= cs);
    }
}

/// Read a token as an unsigned decimal number. Succeeds exactly on a
/// nonempty all-digit token whose value fits 32 bits, and then yields
/// exactly that value.
pub fn parse_u32(s: &String) -> (r: Option<u32>)
    ensures
        r is Some <==> spec_is_digits(s@) && spec_digits_value(s@) <= u32::MAX,
        r is Some ==> r->0 == spec_digits_value(s@),
{
    let cs = s.as_str();
    let n = cs.unicode_len();
    if n == 0 {
        return None;
    }
    let mut val: u64 = 0;
    let mut i: usize = 0;
    while i < n
        invariant
            i <= n,
            n == s@.len(),
            cs@ == s@,
            forall|t: int| 0 <= t < i ==> 48 <= (#[trigger] s@[t]) as int <= 57,
            val == spec_digits_value(s@.take(i as int)),
            val <= u32::MAX,
        decreases n - i,
    {
        let c = cs.get_char(i);
        let cv = c as u32;
        if cv < 48 || cv > 57 {
            return None;
        }
        proof {
            assert(s@.take(i + 1).drop_last() =~= s@.take(i as int));
            assert(s@.take(i + 1).last() == s@[i as int]);
        }
        val = val * 10 + (cv - 48) as u64;
        if val > u32::MAX as u64 {
            proof {
                if spec_is_digits(s@) {
                    lemma_digits_value_monotone(s@, i + 1);
                }
            }
            return None;
        }
        i = i + 1;
    }
    proof {
        assert(s@.take(n as int) =~= s@);
    }
    Some(val as u32)
}

/// The six space-joined tokens after the first `fen` token, or `None`
/// when there is no `fen` token. The caller guarantees six tokens follow
/// a present `fen` token.
pub fn get_fen(tokens: &Vec<String>) -> (r: Option<String>)
    requires
        token_pos(tokens@, "fen"@) >= 0 ==> token_pos(tokens@, "fen"@) + 7 <= tokens@.len(),
    ensures
        r is Some <==> token_pos(tokens@, "fen"@) >= 0,
        r is Some ==> r->0@ == join_spaces(
            tokens@.subrange(token_pos(tokens@, "fen"@) + 1, token_pos(tokens@, "fen"@) + 7),
        ),
{
    let key = String::from_str("fen");
    let p = match find_token(tokens, &key) {
        Some(p) => p,
        None => {
            return None;
        },
    };
    let ghost whole = tokens@.subrange(p + 1, p + 7);
    let n = tokens.len();
    let mut out = String::new();
    let mut k: usize = 0;
    while k < 6
        invariant
            k <= 6,
            n == tokens@.len(),
            p + 7 <= n,
            whole == tokens@.subrange(p + 1, p + 7),
            out@ == join_spaces(whole.take(k as int)),
        decreases 6 - k,
    {
        if k > 0 {
            proof {
                reveal_strlit(" ");
            }
            out.append(" ");
            proof {
                assert(out@ =~= join_spaces(whole.take(k as int)) + seq![' ']);
            }
        }
        out.append((&tokens[p + 1 + k]).as_str());
        proof {
            assert(whole.take(k + 1).drop_last() =~= whole.take(k as int));
            assert(whole.take(k + 1).last() == tokens@[p + 1 + k as int]);
            if k == 0 {
                assert(out@ =~= join_spaces(whole.take(k + 1)));
            } else {
                assert(out@ =~= join_spaces(whole.take(k + 1)));
            }
        }
        k = k + 1;
    }
    proof {
        assert(whole.take(6) =~= whole);
    }
    Some(out)
}

/// Copies of all tokens after the first `moves` token, or `None` when
/// there is no `moves` token.
pub fn get_moves(tokens: &Vec<String>) -> (r: Option<Vec<String>>)
    ensures
        r is Some <==> token_pos(tokens@, "moves"@) >= 0,
        r is Some ==> r->0@.len() == tokens@.len() - token_pos(tokens@, "moves"@) - 1,
        r is Some ==> forall|k: int|
            0 <= k < r->0@.len() ==> (#[trigger] r->0@[k])@ == tokens@[token_pos(
                tokens@,
                "moves"@,
            ) + 1 + k]@,
{
    let key = String::from_str("moves");
    let p = match find_token(tokens, &key) {
        Some(p) => p,
        None => {
            return None;
        },
    };
    let n = tokens.len();
    let mut out: Vec<String> = Vec::new();
    let mut j: usize = p + 1;
    while j < n
        invariant
            p + 1 <= j <= n,
            n == tokens@.len(),
            out@.len() == j - p - 1,
            forall|k: int| 0 <= k < out@.len() ==> (#[trigger] out@[k])@ == tokens@[p + 1 + k]@,
        decreases n - j,
    {
        out.push((&tokens[j]).clone());
        j = j + 1;
    }
    Some(out)
}

/// The numeric value following the first token equal to `field`, or
/// `None` when the field is absent. The caller guarantees that a present
/// field is followed by a token spelling an unsigned 32-bit number.
pub fn get_clock_field(tokens: &Vec<String>, field: &String) -> (r: Option<u32>)
    requires
        token_pos(tokens@, field@) >= 0 ==> token_pos(tokens@, field@) + 1 < tokens@.len()
            && spec_is_digits(tokens@[token_pos(tokens@, field@) + 1]@) && spec_digits_value(
            tokens@[token_pos(tokens@, field@) + 1]@,
        ) <= u32::MAX,
    ensures
        r is Some <==> token_pos(tokens@, field@) >= 0,
        r is Some ==> r->0 == spec_digits_value(tokens@[token_pos(tokens@, field@) + 1]@),
{
    let p = match find_token(tokens, field) {
        Some(p) => p,
        None => {
            return None;
        },
    };
    let n = tokens.len();
    assert(p + 1 < n);
    parse_u32(&tokens[p + 1])
}

} // verus!
