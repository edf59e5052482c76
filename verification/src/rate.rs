//! Resolving a video's frames-per-second value from probe rate fields.
//!
//! A rate field is either a fraction of two decimal integers, `"N/D"`, or a
//! bare decimal integer. A fraction resolves to the integer quotient
//! (floored, both parts being non-negative); a bare integer resolves to its
//! value. The field of the first stream descriptor is authoritative unless
//! it is the sentinel `"0/0"`, in which case the second descriptor's field
//! is used instead.

use vstd::arithmetic::div_mod::{lemma_div_nonincreasing, lemma_div_pos_is_pos};
use vstd::prelude::*;

use crate::errors::PipelineError;
use crate::str_eq;

verus! {

/// One decimal digit.
pub open spec fn is_digit(c: char) -> bool {
    '0' as int <= c as int && c as int <= '9' as int
}

/// The numeric value of one decimal digit.
pub open spec fn digit_val(c: char) -> int {
    c as int - '0' as int
}

/// A non-empty string of decimal digits.
pub open spec fn all_digits(s: Seq<char>) -> bool {
    s.len() > 0 && forall|k: int| 0 <= k < s.len() ==> is_digit(#[trigger] s[k])
}

/// The value of a digit string, most significant digit first.
pub open spec fn digits_val(s: Seq<char>) -> int
    decreases s.len(),
{
    if s.len() == 0 {
        0
    } else {
        10 * digits_val(s.drop_last()) + digit_val(s.last())
    }
}

/// The index of the first `'/'` in `s`, or `s.len()` if there is none.
pub open spec fn slash_pos(s: Seq<char>) -> int
    decreases s.len(),
{
    if s.len() == 0 {
        0
    } else if s[0] == '/' {
        0
    } else {
        1 + slash_pos(s.drop_first())
    }
}

/// The rate field that means "rate unknown or inapplicable".
pub open spec fn rate_sentinel() -> Seq<char> {
    "0/0"@
}

/// What a rate field resolves to: the floored quotient of a well-formed
/// fraction, the value of a bare integer, and a parse failure otherwise.
/// Text after a second `'/'` is ignored, as the field is split on `'/'`
/// and only the first two parts are read.
pub open spec fn rate_spec(s: Seq<char>) -> Result<u32, PipelineError> {
    let i = slash_pos(s);
    if i == s.len() {
        if all_digits(s) && digits_val(s) <= u32::MAX {
            Ok(digits_val(s) as u32)
        } else {
            Err(PipelineError::Parse)
        }
    } else {
        let n = s.subrange(0, i);
        let d = s.subrange(i + 1, i + 1 + slash_pos(s.skip(i + 1)));
        if all_digits(n) && all_digits(d) && digits_val(n) <= u32::MAX && digits_val(d)
            <= u32::MAX && digits_val(d) != 0 {
            Ok((digits_val(n) / digits_val(d)) as u32)
        } else {
            Err(PipelineError::Parse)
        }
    }
}

proof fn lemma_digits_val_nonneg(s: Seq<char>)
    requires
        forall|k: int| 0 <= k < s.len() ==> is_digit(#[trigger] s[k]),
    ensures
        digits_val(s) >= 0,
    decreases s.len(),
{
    if s.len() > 0 {
        assert(forall|k: int|
            0 <= k < s.drop_last().len() ==> is_digit(#[trigger] s.drop_last()[k]));
        lemma_digits_val_nonneg(s.drop_last());
    }
}

/// A digit string's value only grows as more digits are appended.
proof fn lemma_digits_val_prefix_le(s: Seq<char>, i: int)
    requires
        0 <= i <= s.len(),
        forall|k: int| 0 <= k < s.len() ==> is_digit(#[trigger] s[k]),
    ensures
        digits_val(s.take(i)) <= digits_val(s),
    decreases s.len() - i,
{
    if i == s.len() {
        assert(s.take(i) =~= s);
    } else {
        lemma_digits_val_prefix_le(s, i + 1);
        assert(s.take(i + 1).drop_last() =~= s.take(i));
        assert(s.take(i + 1).last() == s[i]);
        assert(forall|k: int| 0 <= k < s.take(i).len() ==> is_digit(#[trigger] s.take(i)[k]));
        lemma_digits_val_nonneg(s.take(i));
        assert(digits_val(s.take(i + 1)) == 10 * digits_val(s.take(i)) + digit_val(s[i]));
    }
}

/// If `s` has no `'/'` before `i`, the first `'/'` of `s` is at `i` (when
/// `s[i]` is one) or `s` has none at all (when `i` is the length).
proof fn lemma_slash_pos_from_scan(s: Seq<char>, i: int)
    requires
        0 <= i <= s.len(),
        forall|k: int| 0 <= k < i ==> s[k] != '/',
        i < s.len() ==> s[i] == '/',
    ensures
        slash_pos(s) == i,
    decreases i,
{
    if i == 0 {
        if s.len() == 0 {
        } else {
            assert(s[0] == '/');
        }
    } else {
        assert(s[0] != '/');
        assert(s.drop_first().len() == s.len() - 1);
        assert(forall|k: int| 0 <= k < i - 1 ==> #[trigger] s.drop_first()[k] == s[k + 1]);
        lemma_slash_pos_from_scan(s.drop_first(), i - 1);
    }
}

/// Parses `s[from..to]` as a non-empty decimal digit string.
fn parse_digits(s: &str, from: usize, to: usize) -> (r: Option<u32>)
    requires
        from <= to && to <= s@.len(),
    ensures
        match r {
            Some(v) => all_digits(s@.subrange(from as int, to as int)) && digits_val(
                s@.subrange(from as int, to as int),
            ) == v as int,
            None => !(all_digits(s@.subrange(from as int, to as int)) && digits_val(
                s@.subrange(from as int, to as int),
            ) <= u32::MAX),
        },
{
    let ghost seg = s@.subrange(from as int, to as int);
    if from == to {
        return None;
    }
    let mut val: u32 = 0;
    let mut i: usize = from;
    while i < to
        invariant
            from <= i <= to && to <= s@.len(),
            from < to,
            seg == s@.subrange(from as int, to as int),
            forall|k: int| 0 <= k < i - from ==> is_digit(#[trigger] seg[k]),
            val as int == digits_val(seg.take(i - from)),
        decreases to - i,
    {
        let c = s.get_char(i);
        proof {
            assert(seg[i - from] == s@[i as int]);
        }
        let cu = c as u32;
        if cu < 48 || cu > 57 {
            assert(!is_digit(seg[i - from]));
            assert(!all_digits(seg));
            return None;
        }
        let d = cu - 48;
        assert(is_digit(seg[i - from]) && digit_val(seg[i - from]) == d as int);
        let lim: u32 = u32::MAX / 10;
        let rem: u32 = u32::MAX % 10;
        if val > lim || (val == lim && d > rem) {
            // The value of the digits seen so far already exceeds u32::MAX,
            // and appending digits never shrinks it.
            proof {
                assert(seg.take(i + 1 - from).drop_last() =~= seg.take(i - from));
                assert(seg.take(i + 1 - from).last() == seg[i - from]);
                assert(digits_val(seg.take(i + 1 - from)) == 10 * (val as int) + d as int);
                assert(10 * (val as int) + d as int > u32::MAX);
                if all_digits(seg) {
                    lemma_digits_val_prefix_le(seg, i + 1 - from);
                }
            }
            return None;
        }
        proof {
            assert(10 * (val as int) + d as int <= u32::MAX);
            assert(seg.take(i + 1 - from).drop_last() =~= seg.take(i - from));
            assert(seg.take(i + 1 - from).last() == seg[i - from]);
        }
        val = val * 10 + d;
        i = i + 1;
    }
    proof {
        assert(seg.take(i - from) =~= seg);
    }
    Some(val)
}

/// Resolves one rate field to an integer frames-per-second candidate.
///
/// A fraction `"N/D"` of decimal integers resolves to `N / D` floored; a
/// bare decimal integer resolves to its own value. Anything else — an empty
/// or missing part, a non-digit character, a zero denominator, or a value
/// beyond `u32::MAX` — is a parse failure.
pub fn parse_rate(s: &str) -> (r: Result<u32, PipelineError>)
    ensures
        r == rate_spec(s@),
{
    let len = s.unicode_len();
    let mut i: usize = 0;
    while i < len && s.get_char(i) != '/'
        invariant
            0 <= i <= len,
            len == s@.len(),
            forall|k: int| 0 <= k < i ==> s@[k] != '/',
        decreases len - i,
    {
        i = i + 1;
    }
    proof {
        lemma_slash_pos_from_scan(s@, i as int);
    }
    if i == len {
        match parse_digits(s, 0, len) {
            Some(v) => {
                proof {
                    assert(s@.subrange(0, len as int) =~= s@);
                }
                Ok(v)
            },
            None => {
                proof {
                    assert(s@.subrange(0, len as int) =~= s@);
                }
                Err(PipelineError::Parse)
            },
        }
    } else {
        let mut j: usize = i + 1;
        while j < len && s.get_char(j) != '/'
            invariant
                i + 1 <= j <= len,
                len == s@.len(),
                forall|k: int| i + 1 <= k < j ==> s@[k] != '/',
            decreases len - j,
        {
            j = j + 1;
        }
        proof {
            let tail = s@.skip(i + 1);
            assert(forall|k: int| 0 <= k < j - (i + 1) ==> #[trigger] tail[k] != '/');
            lemma_slash_pos_from_scan(tail, j - (i + 1));
        }
        let num = parse_digits(s, 0, i);
        let den = parse_digits(s, i + 1, j);
        match (num, den) {
            (Some(nv), Some(dv)) => {
                if dv == 0 {
                    Err(PipelineError::Parse)
                } else {
                    proof {
                        lemma_div_nonincreasing(nv as int, dv as int);
                        lemma_div_pos_is_pos(nv as int, dv as int);
                    }
                    Ok(nv / dv)
                }
            },
            _ => Err(PipelineError::Parse),
        }
    }
}

/// Resolves the authoritative frame rate from the first stream's rate field,
/// falling back to the second stream's field exactly when the first is the
/// `"0/0"` sentinel. `second` is `None` when no second descriptor exists;
/// consulting it then is an index failure, not a parse failure.
pub fn resolve_rate(first: &str, second: Option<&str>) -> (r: Result<u32, PipelineError>)
    ensures
        first@ != rate_sentinel() ==> r == rate_spec(first@),
        first@ == rate_sentinel() ==> match second {
            Some(s) => r == rate_spec(s@),
            None => r == Err::<u32, PipelineError>(PipelineError::Index),
        },
{
    if str_eq(first, "0/0") {
        match second {
            Some(s) => parse_rate(s),
            None => Err(PipelineError::Index),
        }
    } else {
        parse_rate(first)
    }
}

/// For every rate fraction `"N/D"` whose two parts are digit strings with
/// values in range and `D != 0`, the resolved rate is exactly the floored
/// quotient `N / D`.
pub proof fn lemma_rate_fraction_floor(n: Seq<char>, d: Seq<char>)
    requires
        all_digits(n),
        all_digits(d),
        digits_val(n) <= u32::MAX,
        digits_val(d) <= u32::MAX,
        digits_val(d) != 0,
    ensures
        rate_spec(n + seq!['/'] + d) == Ok::<u32, PipelineError>(
            (digits_val(n) / digits_val(d)) as u32,
        ),
{
    let s = n + seq!['/'] + d;
    assert(forall|k: int| 0 <= k < n.len() ==> s[k] != '/') by {
        assert(forall|k: int| 0 <= k < n.len() ==> #[trigger] s[k] == n[k]);
    }
    assert(s[n.len() as int] == '/');
    lemma_slash_pos_from_scan(s, n.len() as int);
    let i = slash_pos(s);
    assert(i == n.len());
    let tail = s.skip(i + 1);
    assert(tail =~= d);
    assert(forall|k: int| 0 <= k < d.len() ==> d[k] != '/');
    lemma_slash_pos_from_scan(d, d.len() as int);
    assert(s.subrange(0, i) =~= n);
    assert(s.subrange(i + 1, i + 1 + slash_pos(d)) =~= d);
}

} // verus!
