//! Parsing of the textual rhythm descriptions that select a rhythm at
//! startup: the colon-separated cross-rhythm descriptor and the rhythm-spec
//! mini-language.

use crate::beat_spec::{
    all_positive, checked_lcm, crossbeat_event, first_bad_char, lcm_seq, padded, rhythm_beat_len,
    rhythm_ok, rhythm_ticks, BeatSpec, Event,
};
use crate::Error;
use vstd::prelude::*;

verus! {

/// A decimal digit.
pub open spec fn is_digit_char(c: char) -> bool {
    '0' as u32 <= c as u32 && c as u32 <= '9' as u32
}

/// The number a sequence of decimal digits denotes.
pub open spec fn digits_val(t: Seq<char>) -> nat
    decreases t.len(),
{
    if t.len() == 0 {
        0
    } else {
        digits_val(t.drop_last()) * 10 + ((t.last() as u32 - '0' as u32) as nat)
    }
}

/// A non-empty, all-digit token.
pub open spec fn is_number_token(t: Seq<char>) -> bool {
    t.len() >= 1 && forall|i: int| 0 <= i < t.len() ==> is_digit_char(#[trigger] t[i])
}

/// A token that denotes a positive beat count a `u32` can hold.
pub open spec fn good_token(t: Seq<char>) -> bool {
    is_number_token(t) && 1 <= digits_val(t) <= u32::MAX
}

/// Index of the first `:` at or after `i`; -1 where there is none.
pub open spec fn find_colon(s: Seq<char>, i: nat) -> int
    decreases s.len() - i,
{
    if i >= s.len() {
        -1
    } else if s[i as int] == ':' {
        i as int
    } else {
        find_colon(s, i + 1)
    }
}

/// The colon-separated tokens of `s` from position `ts` on. Every string
/// has at least one token; a string without colons is one token.
pub open spec fn split_from(s: Seq<char>, ts: nat) -> Seq<Seq<char>>
    decreases s.len() - ts,
{
    let k = find_colon(s, ts);
    if k < 0 {
        seq![s.subrange(ts as int, s.len() as int)]
    } else if k < ts || k >= s.len() {
        // Cannot happen; keeps the recursion well-founded.
        seq![s.subrange(ts as int, s.len() as int)]
    } else {
        seq![s.subrange(ts as int, k)] + split_from(s, (k + 1) as nat)
    }
}

/// The colon-separated tokens of the whole string.
pub open spec fn split_colons(s: Seq<char>) -> Seq<Seq<char>> {
    split_from(s, 0)
}

/// The numbers the tokens denote.
pub open spec fn token_values(toks: Seq<Seq<char>>) -> Seq<u32> {
    toks.map_values(|t: Seq<char>| (digits_val(t) as u32))
}

/// Where `find_colon` points, the character is a colon, and no colon comes
/// before it.
proof fn lemma_find_colon_props(s: Seq<char>, i: nat)
    requires
        i <= s.len(),
    ensures
        find_colon(s, i) == -1 ==> forall|j: int| i <= j < s.len() ==> s[j] != ':',
        find_colon(s, i) != -1 ==> i <= find_colon(s, i) < s.len() && s[find_colon(s, i)] == ':'
            && forall|j: int| i <= j < find_colon(s, i) ==> s[j] != ':',
    decreases s.len() - i,
{
    if i < s.len() && s[i as int] != ':' {
        lemma_find_colon_props(s, i + 1);
    }
}

/// A scan that saw no colon in `[i, k)` and a colon at `k` pins
/// `find_colon` down to `k`.
proof fn lemma_find_colon_at(s: Seq<char>, i: nat, k: nat)
    requires
        i <= k < s.len(),
        forall|j: int| i <= j < k ==> s[j] != ':',
        s[k as int] == ':',
    ensures
        find_colon(s, i) == k,
    decreases k - i,
{
    if i < k {
        lemma_find_colon_at(s, i + 1, k);
    }
}

/// A scan that saw no colon from `i` to the end finds none.
proof fn lemma_find_colon_none(s: Seq<char>, i: nat)
    requires
        i <= s.len(),
        forall|j: int| i <= j < s.len() ==> s[j] != ':',
    ensures
        find_colon(s, i) == -1,
    decreases s.len() - i,
{
    if i < s.len() {
        lemma_find_colon_none(s, i + 1);
    }
}

/// A split yields at most one token per character, plus one.
proof fn lemma_split_len(s: Seq<char>, ts: nat)
    requires
        ts <= s.len(),
    ensures
        split_from(s, ts).len() <= s.len() - ts + 1,
    decreases s.len() - ts,
{
    lemma_find_colon_props(s, ts);
    let k = find_colon(s, ts);
    if k >= 0 {
        lemma_split_len(s, (k + 1) as nat);
    }
}

/// Reading more digits can only grow the number a token denotes.
proof fn lemma_digits_val_prefix(t: Seq<char>, i: int)
    requires
        0 <= i <= t.len(),
    ensures
        digits_val(t.take(i)) <= digits_val(t),
    decreases t.len(),
{
    if i < t.len() {
        assert(t.take(i) =~= t.drop_last().take(i));
        lemma_digits_val_prefix(t.drop_last(), i);
        assert(digits_val(t.drop_last()) * 10 >= digits_val(t.drop_last())) by (nonlinear_arith);
    } else {
        assert(t.take(i) =~= t);
    }
}

/// Where the token starting at `ts` ends: at the next colon, or at the end
/// of the string.
pub open spec fn token_end(s: Seq<char>, ts: nat) -> int {
    if find_colon(s, ts) < 0 {
        s.len() as int
    } else {
        find_colon(s, ts)
    }
}

/// Reads the token starting at `ts`: its value and the position of the
/// colon (or string end) that closes it. Refuses a token that is empty,
/// holds a non-digit, denotes zero, or does not fit in a `u32`.
fn scan_token(s: &str, ts: usize) -> (r: Result<(u32, usize), Error>)
    requires
        ts <= s@.len(),
    ensures
        match r {
            Ok((val, je)) => {
                &&& ts <= je <= s@.len()
                &&& token_end(s@, ts as nat) == je
                &&& (je < s@.len() ==> find_colon(s@, ts as nat) == je)
                &&& (je == s@.len() ==> find_colon(s@, ts as nat) == -1)
                &&& good_token(s@.subrange(ts as int, je as int))
                &&& val as nat == digits_val(s@.subrange(ts as int, je as int))
            },
            Err(e) => {
                &&& !good_token(s@.subrange(ts as int, token_end(s@, ts as nat)))
                &&& e matches Error::ParseError(c) && (c == ':' || c == '0' || exists|i: int|
                    0 <= i < s@.len() && s@[i] == c)
            },
        },
{
    let len = s.unicode_len();
    let mut j = ts;
    let mut cur: u32 = 0;
    while j < len
        invariant
            len == s@.len(),
            ts <= j <= len,
            forall|p: int| ts <= p < j ==> s@[p] != ':' && is_digit_char(#[trigger] s@[p]),
            cur as nat == digits_val(s@.subrange(ts as int, j as int)),
        decreases len - j,
    {
        let c = s.get_char(j);
        if c == ':' {
            proof {
                lemma_find_colon_at(s@, ts as nat, j as nat);
            }
            if j == ts {
                return Err(Error::ParseError(':'));
            }
            if cur == 0 {
                return Err(Error::ParseError('0'));
            }
            return Ok((cur, j));
        }
        let cv = c as u32;
        if !(cv >= '0' as u32 && cv <= '9' as u32) {
            proof {
                lemma_find_colon_props(s@, ts as nat);
                let te = token_end(s@, ts as nat);
                assert(j < te);
                assert(s@.subrange(ts as int, te)[j - ts] == s@[j as int]);
            }
            return Err(Error::ParseError(c));
        }
        let d = cv - '0' as u32;
        proof {
            assert(s@.subrange(ts as int, j as int + 1).drop_last() =~= s@.subrange(
                ts as int,
                j as int,
            ));
            assert(s@.subrange(ts as int, j as int + 1).last() == s@[j as int]);
        }
        let next = match cur.checked_mul(10) {
            Some(x) => x.checked_add(d),
            None => None,
        };
        cur = match next {
            Some(y) => y,
            None => {
                proof {
                    lemma_find_colon_props(s@, ts as nat);
                    let te = token_end(s@, ts as nat);
                    assert(j < te);
                    let tok = s@.subrange(ts as int, te);
                    assert(tok.take(j + 1 - ts) =~= s@.subrange(ts as int, j as int + 1));
                    lemma_digits_val_prefix(tok, j + 1 - ts);
                    assert(digits_val(s@.subrange(ts as int, j as int + 1)) > u32::MAX);
                }
                return Err(Error::ParseError(c));
            },
        };
        j = j + 1;
    }
    proof {
        lemma_find_colon_none(s@, ts as nat);
    }
    if j == ts {
        return Err(Error::ParseError(':'));
    }
    if cur == 0 {
        return Err(Error::ParseError('0'));
    }
    Ok((cur, j))
}

/// Splits the string at colons and parses every token as a positive beat
/// count.
fn parse_tokens(s: &str) -> (r: Result<Vec<u32>, Error>)
    requires
        s@.len() < usize::MAX,
    ensures
        match r {
            Ok(v) => {
                &&& forall|t: int|
                    0 <= t < split_colons(s@).len() ==> good_token(#[trigger] split_colons(s@)[t])
                &&& v@ == token_values(split_colons(s@))
                &&& v@.len() == split_colons(s@).len()
                &&& v@.len() >= 1
                &&& all_positive(v@)
            },
            Err(e) => {
                &&& exists|t: int|
                    0 <= t < split_colons(s@).len() && !good_token(#[trigger] split_colons(s@)[t])
                &&& e matches Error::ParseError(c) && (c == ':' || c == '0' || exists|i: int|
                    0 <= i < s@.len() && s@[i] == c)
            },
        },
{
    let len = s.unicode_len();
    let mut vals: Vec<u32> = Vec::new();
    let mut ts: usize = 0;
    let ghost toks = split_colons(s@);
    while ts <= len
        invariant
            len == s@.len(),
            len < usize::MAX,
            toks == split_colons(s@),
            ts <= len + 1,
            vals@.len() <= toks.len(),
            forall|t: int|
                0 <= t < vals@.len() ==> good_token(#[trigger] toks[t]) && vals@[t] as nat
                    == digits_val(toks[t]),
            ts <= len ==> toks.skip(vals@.len() as int) == split_from(s@, ts as nat),
            ts == len + 1 ==> vals@.len() == toks.len(),
        decreases len + 1 - ts,
    {
        let ghost k = vals@.len() as int;
        proof {
            // The token now being scanned is the next token of the split.
            lemma_find_colon_props(s@, ts as nat);
            assert(split_from(s@, ts as nat)[0] == s@.subrange(
                ts as int,
                token_end(s@, ts as nat),
            ));
        }
        match scan_token(s, ts) {
            Err(e) => {
                proof {
                    assert(toks[k] == s@.subrange(ts as int, token_end(s@, ts as nat)));
                    assert(!good_token(toks[k]));
                }
                return Err(e);
            },
            Ok((val, je)) => {
                vals.push(val);
                if je < len {
                    proof {
                        assert(toks.skip(k) == seq![s@.subrange(ts as int, je as int)]
                            + split_from(s@, je as nat + 1));
                        assert(toks.skip(k + 1) =~= toks.skip(k).skip(1));
                        assert(toks.skip(k).skip(1) =~= split_from(s@, je as nat + 1));
                        assert(toks[k] == s@.subrange(ts as int, je as int));
                    }
                    ts = je + 1;
                } else {
                    proof {
                        assert(toks.skip(k) =~= seq![s@.subrange(ts as int, len as int)]);
                        assert(toks[k] == s@.subrange(ts as int, len as int));
                        assert(toks.len() == k + 1);
                    }
                    ts = len + 1;
                }
            },
        }
    }
    proof {
        assert(vals@ =~= token_values(toks));
        assert(toks.len() >= 1) by {
            lemma_split_len(s@, 0);
            assert(split_from(s@, 0).len() >= 1);
        }
    }
    Ok(vals)
}

/// Parses a cross-rhythm descriptor: a colon-separated list of positive
/// beat counts, e.g. `3:5:17`, in order of decreasing emphasis. A token
/// that is not a positive integer a `u32` can hold is refused; a rhythm
/// whose tick resolution does not fit in a `u32` is an arithmetic
/// overflow.
pub fn parse_cross_rhythms(cross_str: &str) -> (r: Result<BeatSpec, Error>)
    requires
        cross_str@.len() < u32::MAX - 1,
    ensures
        match r {
            Ok(bs) => {
                &&& forall|t: int|
                    0 <= t < split_colons(cross_str@).len() ==> good_token(
                        #[trigger] split_colons(cross_str@)[t],
                    )
                &&& lcm_seq(padded(token_values(split_colons(cross_str@)))) <= u32::MAX
                &&& bs@.ticks.len() == lcm_seq(padded(token_values(split_colons(cross_str@))))
                &&& forall|t: int|
                    0 <= t < bs@.ticks.len() ==> bs@.ticks[t] == crossbeat_event(
                        padded(token_values(split_colons(cross_str@))),
                        lcm_seq(padded(token_values(split_colons(cross_str@)))),
                        t as nat,
                    )
                &&& bs@.ticks[0] == Event::Beep(0)
                &&& bs@.beat_len == lcm_seq(padded(token_values(split_colons(cross_str@)))) / (
                token_values(split_colons(cross_str@))[0] as nat)
                &&& bs.wf()
            },
            Err(e) => match e {
                Error::ParseError(c) => {
                    &&& exists|t: int|
                        0 <= t < split_colons(cross_str@).len() && !good_token(
                            #[trigger] split_colons(cross_str@)[t],
                        )
                    &&& (c == ':' || c == '0' || exists|i: int|
                        0 <= i < cross_str@.len() && cross_str@[i] == c)
                },
                Error::ArithmeticOverflow => {
                    &&& forall|t: int|
                        0 <= t < split_colons(cross_str@).len() ==> good_token(
                            #[trigger] split_colons(cross_str@)[t],
                        )
                    &&& lcm_seq(padded(token_values(split_colons(cross_str@)))) > u32::MAX
                },
            },
        },
{
    let vals = match parse_tokens(cross_str) {
        Ok(v) => v,
        Err(e) => {
            return Err(e);
        },
    };
    proof {
        lemma_split_len(cross_str@, 0);
    }
    // Check that the measure's tick resolution fits before compiling it.
    let mut all: Vec<u32> = vec![1u32];
    let vn = vals.len();
    for i in 0..vn
        invariant
            vn == vals@.len(),
            all@.len() == i + 1,
            all@[0] == 1u32,
            forall|j: int| 0 <= j < i ==> all@[j + 1] == vals@[j],
    {
        all.push(vals[i]);
    }
    proof {
        assert(all@ =~= padded(vals@));
    }
    match checked_lcm(all.as_slice()) {
        Some(_) => Ok(BeatSpec::from_crossbeats(vals.as_slice())),
        None => Err(Error::ArithmeticOverflow),
    }
}

/// Parses a rhythm specification string, as `BeatSpec::from_rhythmspec`
/// does.
pub fn parse_rhythm_string(rhythm_str: &str) -> (r: Result<BeatSpec, Error>)
    requires
        rhythm_str@.len() <= u32::MAX,
    ensures
        match r {
            Ok(bs) => rhythm_ok(rhythm_str@) && bs@.ticks == rhythm_ticks(rhythm_str@)
                && bs@.beat_len == rhythm_beat_len(rhythm_str@),
            Err(e) => !rhythm_ok(rhythm_str@) && e == Error::ParseError(
                rhythm_str@[first_bad_char(rhythm_str@, 0)],
            ),
        },
{
    BeatSpec::from_rhythmspec(rhythm_str)
}

} // verus!
