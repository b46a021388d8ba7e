//! Range-spec parsing: the user syntax (`2-4,7`) that picks members of a
//! multi-object selection by 1-based index.
//!
//! A spec is comma-separated tokens; a token is one number or a `low-high`
//! pair, both inclusive. A malformed token or an index outside `1..=len` is
//! a configuration error reported before any operation runs.

use vstd::prelude::*;
use crate::error::ConfigError;

verus! {

/// Is `c` a decimal digit?
pub open spec fn is_digit(c: char) -> bool {
    48 <= (c as int) <= 57
}

/// The value of `c` as a digit.
pub open spec fn digit_of(c: char) -> int {
    (c as int) - 48
}

/// Is `s` one or more digits and nothing else?
pub open spec fn all_digits(s: Seq<char>) -> bool {
    s.len() > 0 && forall|i: int| 0 <= i < s.len() ==> is_digit(#[trigger] s[i])
}

/// The number the digit string `s` denotes.
pub open spec fn digits_val(s: Seq<char>) -> int
    decreases s.len(),
{
    if s.len() == 0 {
        0
    } else {
        digits_val(s.drop_last()) * 10 + digit_of(s.last())
    }
}

/// A digit string's value is non-negative.
proof fn lemma_digits_val_nonneg(s: Seq<char>)
    requires
        forall|i: int| 0 <= i < s.len() ==> is_digit(#[trigger] s[i]),
    ensures
        digits_val(s) >= 0,
    decreases s.len(),
{
    if s.len() == 0 {
    } else {
        lemma_digits_val_nonneg(s.drop_last());
    }
}

/// The index of the first occurrence of `c` in `t` at or after `i`, if any.
pub open spec fn first_at(t: Seq<char>, c: char, i: int) -> Option<int>
    decreases t.len() - i,
{
    if i >= t.len() {
        None
    } else if t[i] == c {
        Some(i)
    } else {
        first_at(t, c, i + 1)
    }
}

/// Finds the first occurrence of `c` in `t` at or after `from`.
fn find_char(t: &str, c: char, from: usize) -> (r: Option<usize>)
    requires
        from <= t@.len(),
    ensures
        match first_at(t@, c, from as int) {
            Some(k) => r is Some && r->0 == k,
            None => r is None,
        },
{
    let tlen: usize = t.unicode_len();
    let mut i: usize = from;
    while i < tlen
        invariant
            tlen == t@.len(),
            from <= i <= tlen,
            first_at(t@, c, from as int) == first_at(t@, c, i as int),
        decreases tlen - i,
    {
        if t.get_char(i) == c {
            return Some(i);
        }
        i = i + 1;
    }
    None
}

/// The inclusive bounds a token denotes: a plain number denotes itself twice,
/// a `low-high` pair denotes its two numbers; anything else is malformed.
pub open spec fn token_bounds(t: Seq<char>) -> Option<(int, int)> {
    match first_at(t, '-', 0) {
        None => if all_digits(t) {
            Some((digits_val(t), digits_val(t)))
        } else {
            None
        },
        Some(k) => {
            let lo = t.take(k);
            let hi = t.skip(k + 1);
            if all_digits(lo) && all_digits(hi) {
                Some((digits_val(lo), digits_val(hi)))
            } else {
                None
            }
        },
    }
}

/// The comma-separated tokens of `s`: the text before the first comma, then
/// the tokens of what follows it. Empty tokens are kept and later fail as
/// malformed.
pub open spec fn spec_tokens(s: Seq<char>) -> Seq<Seq<char>>
    decreases s.len(),
{
    match first_at(s, ',', 0) {
        None => seq![s],
        Some(k) => {
            proof {
                lemma_first_at_found(s, ',', 0);
            }
            seq![s.take(k)] + spec_tokens(s.skip(k + 1))
        },
    }
}

/// Model of what range resolution reports for a token list: nothing when all
/// tokens are well-formed and in bounds, else what is wrong with the first
/// offending token.
pub ghost enum RangeFault {
    /// The token is not a number nor a `low-high` pair of numbers.
    Malformed { token: Seq<char> },
    /// The token's bounds fall outside `1..=len` or decrease.
    OutOfBounds,
}

/// The first fault in a token list resolved against a selection of `len`
/// members, if any.
pub open spec fn spec_first_fault(tokens: Seq<Seq<char>>, len: int) -> Option<RangeFault>
    decreases tokens.len(),
{
    if tokens.len() == 0 {
        None
    } else {
        match token_bounds(tokens[0]) {
            None => Some(RangeFault::Malformed { token: tokens[0] }),
            Some((lo, hi)) => if 1 <= lo <= hi <= len {
                spec_first_fault(tokens.drop_first(), len)
            } else {
                Some(RangeFault::OutOfBounds)
            },
        }
    }
}

/// The indices `lo..=hi` in order.
pub open spec fn spec_expand(lo: int, hi: int) -> Seq<int> {
    Seq::new((hi + 1 - lo) as nat, |i: int| lo + i)
}

/// The 1-based indices a fault-free token list denotes, in token order.
pub open spec fn spec_range_indices(tokens: Seq<Seq<char>>) -> Seq<int>
    decreases tokens.len(),
{
    if tokens.len() == 0 {
        Seq::empty()
    } else {
        match token_bounds(tokens[0]) {
            Some((lo, hi)) => spec_expand(lo, hi) + spec_range_indices(tokens.drop_first()),
            None => Seq::empty(),
        }
    }
}

/// The values of a vector of indices.
pub open spec fn vidx(s: Seq<usize>) -> Seq<int> {
    s.map_values(|u: usize| u as int)
}

/// A fault-free token list denotes indices inside `1..=len` only.
pub proof fn lemma_indices_in_bounds(tokens: Seq<Seq<char>>, len: int)
    requires
        spec_first_fault(tokens, len) is None,
    ensures
        forall|j: int|
            0 <= j < spec_range_indices(tokens).len() ==> 1 <= #[trigger] spec_range_indices(
                tokens,
            )[j] <= len,
    decreases tokens.len(),
{
    if tokens.len() == 0 {
    } else {
        match token_bounds(tokens[0]) {
            Some((lo, hi)) => {
                lemma_indices_in_bounds(tokens.drop_first(), len);
                let ex = spec_expand(lo, hi);
                let rest = spec_range_indices(tokens.drop_first());
                assert forall|j: int|
                    0 <= j < spec_range_indices(tokens).len() implies 1 <= #[trigger]
                spec_range_indices(tokens)[j] <= len by {
                    if j < ex.len() {
                        assert(spec_range_indices(tokens)[j] == ex[j]);
                        assert(ex[j] == lo + j);
                    } else {
                        assert(spec_range_indices(tokens)[j] == rest[j - ex.len()]);
                    }
                }
            },
            None => {},
        }
    }
}

/// Reads the digit run `t[from..to]`: `None` unless it is one or more digits
/// and nothing else; the flag reports that the value exceeds the counter.
fn parse_digits(t: &str, from: usize, to: usize) -> (r: Option<(u64, bool)>)
    requires
        from <= to <= t@.len(),
    ensures
        (r is Some) == all_digits(t@.subrange(from as int, to as int)),
        r matches Some((v, ovf)) ==> {
            let part = t@.subrange(from as int, to as int);
            if ovf {
                digits_val(part) > u64::MAX
            } else {
                v == digits_val(part)
            }
        },
{
    let ghost part = t@.subrange(from as int, to as int);
    if from == to {
        return None;
    }
    let mut v: u64 = 0;
    let mut ovf: bool = false;
    let mut i: usize = from;
    proof {
        assert(part.take(0) =~= Seq::<char>::empty());
    }
    while i < to
        invariant
            from <= i <= to <= t@.len(),
            part == t@.subrange(from as int, to as int),
            forall|k: int| 0 <= k < i - from ==> is_digit(#[trigger] part[k]),
            if ovf {
                digits_val(part.take(i - from)) > u64::MAX
            } else {
                v == digits_val(part.take(i - from))
            },
        decreases to - i,
    {
        let c = t.get_char(i);
        let cu: u32 = c as u32;
        proof {
            assert(part[i - from] == t@[i as int]);
        }
        if cu < 48 || cu > 57 {
            proof {
                assert(!is_digit(part[i - from]));
            }
            return None;
        }
        let d: u64 = (cu - 48) as u64;
        let ghost pre = part.take(i - from);
        let ghost nxt = part.take(i + 1 - from);
        proof {
            assert(nxt.drop_last() =~= pre);
            assert(nxt.last() == part[i - from]);
            assert(digits_val(nxt) == digits_val(pre) * 10 + d);
            lemma_digits_val_nonneg(nxt);
        }
        if ovf {
            proof {
                assert(digits_val(pre) > u64::MAX);
                assert(digits_val(nxt) > u64::MAX);
            }
        } else if v > (u64::MAX - d) / 10 {
            ovf = true;
            proof {
                assert(10 * ((u64::MAX - d) / 10) >= u64::MAX - d - 9);
                assert(digits_val(nxt) > u64::MAX);
            }
        } else {
            proof {
                assert(10 * v + d <= u64::MAX);
            }
            v = v * 10 + d;
        }
        i = i + 1;
    }
    proof {
        assert(part.take(to - from) =~= part);
    }
    Some((v, ovf))
}

/// Reads one token: `None` when it is malformed; otherwise its two bounds,
/// with the flag reporting that some bound exceeds the counter.
fn parse_token(t: &str) -> (r: Option<(u64, u64, bool)>)
    ensures
        (r is Some) == (token_bounds(t@) is Some),
        r matches Some((lo, hi, ovf)) ==> {
            let (slo, shi) = token_bounds(t@)->0;
            if ovf {
                slo > u64::MAX || shi > u64::MAX
            } else {
                lo == slo && hi == shi
            }
        },
{
    let tlen: usize = t.unicode_len();
    match find_char(t, '-', 0) {
        None => match parse_digits(t, 0, tlen) {
            Some((v, ovf)) => {
                proof {
                    assert(t@.subrange(0, t@.len() as int) =~= t@);
                }
                Some((v, v, ovf))
            },
            None => {
                proof {
                    assert(t@.subrange(0, t@.len() as int) =~= t@);
                }
                None
            },
        },
        Some(k) => {
            proof {
                lemma_first_at_found(t@, '-', 0);
                assert(t@.subrange(0, k as int) =~= t@.take(k as int));
                assert(t@.subrange(k + 1, t@.len() as int) =~= t@.skip(k + 1));
            }
            match parse_digits(t, 0, k) {
                Some((lo, ovf1)) => match parse_digits(t, k + 1, tlen) {
                    Some((hi, ovf2)) => Some((lo, hi, ovf1 || ovf2)),
                    None => None,
                },
                None => None,
            }
        },
    }
}

/// Splits a range spec into its comma-separated tokens.
fn tokenize(s: &str) -> (toks: Vec<String>)
    ensures
        toks@.map_values(|t: String| t@) == spec_tokens(s@),
{
    let slen: usize = s.unicode_len();
    let mut toks: Vec<String> = Vec::new();
    let mut start: usize = 0;
    proof {
        assert(s@.skip(0) =~= s@);
        assert(toks@.map_values(|t: String| t@) =~= Seq::<Seq<char>>::empty());
    }
    loop
        invariant
            slen == s@.len(),
            start <= slen,
            spec_tokens(s@) == toks@.map_values(|t: String| t@) + spec_tokens(
                s@.skip(start as int),
            ),
        decreases slen - start,
    {
        let ghost rest = s@.skip(start as int);
        match find_char(s, ',', start) {
            Some(k) => {
                proof {
                    lemma_first_at_found(s@, ',', start as int);
                    lemma_first_at_shift(s@, ',', start as int, k as int);
                    assert(rest.take(k - start) =~= s@.subrange(start as int, k as int));
                    assert(rest.skip(k - start + 1) =~= s@.skip(k + 1));
                }
                let tok = String::from_str(s.substring_char(start, k));
                let ghost tv = toks@.map_values(|t: String| t@);
                toks.push(tok);
                proof {
                    assert(toks@.map_values(|t: String| t@) =~= tv.push(
                        s@.subrange(start as int, k as int),
                    ));
                    assert(tv.push(s@.subrange(start as int, k as int)) + spec_tokens(
                        s@.skip(k + 1),
                    ) =~= tv + (seq![rest.take(k - start)] + spec_tokens(rest.skip(k - start + 1))));
                }
                start = k + 1;
            },
            None => {
                proof {
                    lemma_first_at_none_shift(s@, ',', start as int);
                    assert(rest.take(rest.len() as int) =~= s@.subrange(
                        start as int,
                        slen as int,
                    ));
                }
                let tok = String::from_str(s.substring_char(start, slen));
                let ghost tv = toks@.map_values(|t: String| t@);
                toks.push(tok);
                proof {
                    assert(toks@.map_values(|t: String| t@) =~= tv.push(rest));
                    assert(rest =~= s@.subrange(start as int, slen as int));
                    assert(tv.push(rest) =~= tv + seq![rest]);
                }
                return toks;
            },
        }
    }
}

/// Searching the whole string from `from` and searching its suffix agree.
proof fn lemma_first_at_shift(s: Seq<char>, c: char, from: int, k: int)
    requires
        0 <= from <= k,
        first_at(s, c, from) == Some(k),
    ensures
        k < s.len(),
        s[k] == c,
        forall|m: int| from <= m < k ==> s[m] != c,
        first_at(s.skip(from), c, 0) == Some(k - from),
    decreases k - from,
{
    if from == k {
        lemma_first_at_found(s, c, from);
        assert(s.skip(from)[0] == s[from]);
    } else {
        lemma_first_at_found(s, c, from);
        lemma_first_at_shift(s, c, from + 1, k);
        assert(s.skip(from).drop_first() =~= s.skip(from + 1));
        lemma_first_at_step(s.skip(from), c, k - from);
    }
}

/// Unfolds one search step: when the first character is no match, the search
/// result is that of the rest, shifted.
proof fn lemma_first_at_step(s: Seq<char>, c: char, k: int)
    requires
        s.len() > 0,
        s[0] != c,
        first_at(s.drop_first(), c, 0) == Some(k - 1),
        k >= 1,
    ensures
        first_at(s, c, 0) == Some(k),
{
    lemma_first_at_tail(s, c, 1);
}

/// Searching from `i` in `s` equals searching from `i - 1` in the tail.
proof fn lemma_first_at_tail(s: Seq<char>, c: char, i: int)
    requires
        1 <= i,
        s.len() >= 1,
    ensures
        first_at(s, c, i) == match first_at(s.drop_first(), c, i - 1) {
            Some(k) => Some(k + 1),
            None => None,
        },
    decreases s.len() - i,
{
    if i >= s.len() {
    } else {
        assert(s.drop_first()[i - 1] == s[i]);
        if s[i] == c {
        } else {
            lemma_first_at_tail(s, c, i + 1);
        }
    }
}

/// What a successful search says about the characters before the hit.
pub proof fn lemma_first_at_found(s: Seq<char>, c: char, from: int)
    requires
        0 <= from,
        first_at(s, c, from) is Some,
    ensures
        ({
            let k = first_at(s, c, from)->0;
            &&& from <= k < s.len()
            &&& s[k] == c
            &&& forall|m: int| from <= m < k ==> s[m] != c
        }),
    decreases s.len() - from,
{
    if from >= s.len() {
    } else if s[from] == c {
    } else {
        lemma_first_at_found(s, c, from + 1);
    }
}

/// A failed search over the suffix matches a failed search from `from`.
proof fn lemma_first_at_none_shift(s: Seq<char>, c: char, from: int)
    requires
        0 <= from <= s.len(),
        first_at(s, c, from) is None,
    ensures
        first_at(s.skip(from), c, 0) is None,
    decreases s.len() - from,
{
    if from >= s.len() {
    } else {
        lemma_first_at_none_shift(s, c, from + 1);
        assert(s.skip(from).drop_first() =~= s.skip(from + 1));
        if s.skip(from).len() > 0 {
            assert(s.skip(from)[0] == s[from]);
            lemma_first_at_tail(s.skip(from), c, 1);
        }
    }
}

/// Resolves a range spec against a selection of `len` members: the 1-based
/// indices it denotes, in order, duplicates kept; or the fault of the first
/// offending token — all before anything is applied.
pub fn resolve_range(spec_text: &str, len: usize) -> (r: Result<Vec<usize>, ConfigError>)
    ensures
        match spec_first_fault(spec_tokens(spec_text@), len as int) {
            None => r is Ok && vidx(r->Ok_0@) == spec_range_indices(spec_tokens(spec_text@)),
            Some(RangeFault::Malformed { token }) => r matches Err(
                ConfigError::BadRangeToken { token: t },
            ) && t@ == token,
            Some(RangeFault::OutOfBounds) => r matches Err(ConfigError::RangeOutOfBounds { len: l })
                && l == len,
        },
{
    let toks = tokenize(spec_text);
    let ghost tokens = spec_tokens(spec_text@);
    let mut out: Vec<usize> = Vec::new();
    let mut i: usize = 0;
    proof {
        assert(tokens.skip(0) =~= tokens);
    }
    while i < toks.len()
        invariant
            tokens == spec_tokens(spec_text@),
            toks@.map_values(|t: String| t@) == tokens,
            i <= toks@.len(),
            len <= usize::MAX,
            spec_first_fault(tokens, len as int) == spec_first_fault(
                tokens.skip(i as int),
                len as int,
            ),
            spec_first_fault(tokens, len as int) is None ==> spec_range_indices(tokens) == vidx(
                out@,
            ) + spec_range_indices(tokens.skip(i as int)),
        decreases toks@.len() - i,
    {
        let ghost trest = tokens.skip(i as int);
        proof {
            assert(trest.drop_first() =~= tokens.skip(i + 1));
            assert(trest[0] == toks@[i as int]@);
        }
        match parse_token(toks[i].as_str()) {
            None => {
                proof {
                    assert(token_bounds(trest[0]) is None);
                    assert(spec_first_fault(trest, len as int) == Some(
                        RangeFault::Malformed { token: trest[0] },
                    ));
                }
                return Err(ConfigError::BadRangeToken { token: toks[i].clone() });
            },
            Some((lo, hi, ovf)) => {
                proof {
                    assert(len as int <= u64::MAX as int);
                }
                if ovf {
                    proof {
                        let (slo, shi) = token_bounds(trest[0])->0;
                        assert(!(1 <= slo <= shi <= len as int));
                        assert(spec_first_fault(trest, len as int) == Some(RangeFault::OutOfBounds));
                    }
                    return Err(ConfigError::RangeOutOfBounds { len });
                }
                if lo < 1 || hi < lo || hi > len as u64 {
                    proof {
                        let (slo, shi) = token_bounds(trest[0])->0;
                        assert(!(1 <= slo <= shi <= len as int));
                        assert(spec_first_fault(trest, len as int) == Some(RangeFault::OutOfBounds));
                    }
                    return Err(ConfigError::RangeOutOfBounds { len });
                }
                let ghost base = vidx(out@);
                let n: u64 = hi - lo;
                let mut k: u64 = 0;
                while k < n + 1
                    invariant
                        1 <= lo <= hi,
                        hi <= len,
                        len <= usize::MAX,
                        n == hi - lo,
                        k <= n + 1,
                        vidx(out@) =~= base + spec_expand(lo as int, lo + k - 1),
                    decreases n + 1 - k,
                {
                    let ghost vb = vidx(out@);
                    out.push((lo + k) as usize);
                    proof {
                        assert(vidx(out@) =~= vb.push((lo + k) as int));
                        assert(vidx(out@) =~= base + spec_expand(lo as int, lo + k as int));
                    }
                    k = k + 1;
                }
                proof {
                    assert(vidx(out@) =~= base + spec_expand(lo as int, hi as int));
                    let (slo, shi) = token_bounds(trest[0])->0;
                    assert(slo == lo as int && shi == hi as int);
                    assert(spec_first_fault(trest, len as int) == spec_first_fault(
                        tokens.skip(i + 1),
                        len as int,
                    ));
                    if spec_first_fault(tokens, len as int) is None {
                        assert(spec_range_indices(trest) =~= spec_expand(lo as int, hi as int)
                            + spec_range_indices(tokens.skip(i + 1)));
                        assert(spec_range_indices(tokens) =~= vidx(out@) + spec_range_indices(
                            tokens.skip(i + 1),
                        ));
                    }
                }
            },
        }
        i = i + 1;
    }
    proof {
        assert(tokens.skip(tokens.len() as int) =~= Seq::<Seq<char>>::empty());
    }
    Ok(out)
}

} // verus!
