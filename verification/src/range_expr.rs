//! The bracketed range-expression parser: `[start:end]`, `[N]`, optionally
//! wrapped in one layer of matching single or double quotes.

use vstd::prelude::*;

use crate::text::{digit_val, digits_val, spec_is_digit, spec_is_whitespace};
use crate::text::{is_whitespace_char, str_to_chars};

verus! {

/// A parsed half-open range. `end == None` means "to the end of the unit
/// sequence", which is resolved only when the unit count is known.
#[derive(Debug, Clone, Copy, PartialEq, Eq)]
pub struct ParsedRange {
    pub start: usize,
    pub end: Option<usize>,
}

/// The ways a range expression can be rejected, in validation order.
#[derive(Debug, Clone, Copy, PartialEq, Eq)]
pub enum RangeExprError {
    /// Whitespace immediately inside the quotes or around the brackets.
    TrimViolation,
    /// The expression does not start with `[` and end with `]`.
    MissingBrackets,
    /// Whitespace between the brackets.
    InteriorSpaces,
    /// The single-index form `[N]` does not hold a valid index.
    SingleIndexFormat,
    /// The left side of `:` does not hold a valid index.
    StartIndexFormat,
    /// The right side of `:` does not hold a valid index.
    EndIndexFormat,
    /// More than one `:` between the brackets.
    MalformedRange,
}

/// Strip exactly one layer of symmetric single or double quotes, if present.
pub open spec fn strip_quotes(s: Seq<char>) -> Seq<char> {
    if s.len() >= 2 && ((s.first() == '\'' && s.last() == '\'') || (s.first() == '"' && s.last()
        == '"')) {
        s.subrange(1, s.len() - 1)
    } else {
        s
    }
}

/// Whether every character of `s` is a decimal digit.
pub open spec fn all_digits(s: Seq<char>) -> bool {
    forall|i: int| 0 <= i < s.len() ==> spec_is_digit(#[trigger] s[i])
}

/// The value of a digit string, when it is non-empty, all digits, and fits in
/// `usize`; `None` otherwise.
pub open spec fn spec_parse_index(s: Seq<char>) -> Option<usize> {
    if s.len() > 0 && all_digits(s) && digits_val(s) <= usize::MAX as int {
        Some(digits_val(s) as usize)
    } else {
        None
    }
}

/// The smallest index `j >= i` with `s[j] == c`, or `s.len()` if there is none.
pub open spec fn first_at(s: Seq<char>, c: char, i: int) -> int
    recommends
        0 <= i <= s.len(),
    decreases s.len() - i,
{
    if i < 0 || i >= s.len() {
        s.len() as int
    } else if s[i] == c {
        i
    } else {
        first_at(s, c, i + 1)
    }
}

pub proof fn lemma_first_at(s: Seq<char>, c: char, i: int)
    requires
        0 <= i <= s.len(),
    ensures
        i <= first_at(s, c, i) <= s.len(),
        first_at(s, c, i) < s.len() ==> s[first_at(s, c, i)] == c,
        forall|j: int| i <= j < first_at(s, c, i) ==> s[j] != c,
    decreases s.len() - i,
{
    if i < s.len() && s[i] != c {
        lemma_first_at(s, c, i + 1);
    }
}

/// Whether `s` holds any whitespace character.
pub open spec fn has_whitespace(s: Seq<char>) -> bool {
    exists|i: int| 0 <= i < s.len() && spec_is_whitespace(#[trigger] s[i])
}

/// What parsing a range expression yields, for every input string.
///
/// Validation order: quote stripping, then the trim rule, the bracket rule,
/// the interior-whitespace rule, and finally the numeric forms.
pub open spec fn spec_parse_range(s: Seq<char>) -> Result<ParsedRange, RangeExprError> {
    let e = strip_quotes(s);
    if e.len() > 0 && (spec_is_whitespace(e.first()) || spec_is_whitespace(e.last())) {
        Err(RangeExprError::TrimViolation)
    } else if !(e.len() >= 2 && e.first() == '[' && e.last() == ']') {
        Err(RangeExprError::MissingBrackets)
    } else {
        let body = e.subrange(1, e.len() - 1);
        if has_whitespace(body) {
            Err(RangeExprError::InteriorSpaces)
        } else if !body.contains(':') {
            match spec_parse_index(body) {
                Some(n) => if n < usize::MAX {
                    Ok(ParsedRange { start: n, end: Some((n + 1) as usize) })
                } else {
                    Err(RangeExprError::SingleIndexFormat)
                },
                None => Err(RangeExprError::SingleIndexFormat),
            }
        } else {
            let k = first_at(body, ':', 0);
            let left = body.subrange(0, k);
            let right = body.subrange(k + 1, body.len() as int);
            if right.contains(':') {
                Err(RangeExprError::MalformedRange)
            } else {
                let start = if left.len() == 0 {
                    Some(0usize)
                } else {
                    spec_parse_index(left)
                };
                match start {
                    None => Err(RangeExprError::StartIndexFormat),
                    Some(a) => if right.len() == 0 {
                        Ok(ParsedRange { start: a, end: None })
                    } else {
                        match spec_parse_index(right) {
                            Some(b) => Ok(ParsedRange { start: a, end: Some(b) }),
                            None => Err(RangeExprError::EndIndexFormat),
                        }
                    },
                }
            }
        }
    }
}

proof fn lemma_digits_val_nonneg(s: Seq<char>)
    requires
        all_digits(s),
    ensures
        digits_val(s) >= 0,
    decreases s.len(),
{
    if s.len() > 0 {
        assert(all_digits(s.drop_last()));
        lemma_digits_val_nonneg(s.drop_last());
    }
}

/// A longer digit string never denotes a smaller value.
proof fn lemma_digits_val_prefix(s: Seq<char>, j: int)
    requires
        all_digits(s),
        0 <= j <= s.len(),
    ensures
        digits_val(s) >= digits_val(s.take(j)),
    decreases s.len() - j,
{
    if j < s.len() {
        lemma_digits_val_prefix(s, j + 1);
        let t = s.take(j + 1);
        assert(t.drop_last() =~= s.take(j));
        assert(all_digits(s.take(j)));
        lemma_digits_val_nonneg(s.take(j));
        assert(digits_val(t) == digits_val(s.take(j)) * 10 + digit_val(s[j]));
        assert(digits_val(s.take(j)) * 10 >= digits_val(s.take(j)));
    } else {
        assert(s.take(j) =~= s);
    }
}

/// Parse a non-empty window `v[lo..hi]` as a decimal index.
fn parse_index_range(v: &Vec<char>, lo: usize, hi: usize) -> (r: Option<usize>)
    requires
        lo <= hi <= v@.len(),
    ensures
        r == spec_parse_index(v@.subrange(lo as int, hi as int)),
{
    let s = Ghost(v@.subrange(lo as int, hi as int));
    if lo == hi {
        return None;
    }
    let mut val: usize = 0;
    let mut i: usize = lo;
    while i < hi
        invariant
            lo <= i <= hi <= v@.len(),
            s@ == v@.subrange(lo as int, hi as int),
            all_digits(s@.take(i - lo)),
            val == digits_val(s@.take(i - lo)),
        decreases hi - i,
    {
        let c = v[i];
        let d = c as u32;
        if !(48 <= d && d <= 57) {
            assert(s@[i - lo] == c && !spec_is_digit(c));
            return None;
        }
        let dv = (d - 48) as usize;
        if val > (usize::MAX - dv) / 10 {
            proof {
                let t = s@.take(i - lo + 1);
                assert(t.drop_last() =~= s@.take(i - lo));
                assert(t.last() == c);
                assert(digits_val(t) == val * 10 + dv);
                assert(val * 10 + dv > usize::MAX as int) by (nonlinear_arith)
                    requires
                        val > (usize::MAX - dv) / 10,
                        dv <= 9,
                        val >= 0,
                ;
                if all_digits(s@) {
                    lemma_digits_val_prefix(s@, i - lo + 1);
                    assert(digits_val(s@) > usize::MAX as int);
                }
            }
            return None;
        }
        proof {
            let t = s@.take(i - lo + 1);
            assert(t.drop_last() =~= s@.take(i - lo));
            assert(t.last() == c);
            assert(spec_is_digit(c));
            assert(digits_val(t) == val * 10 + dv);
            assert(val * 10 + dv <= usize::MAX as int) by (nonlinear_arith)
                requires
                    val <= (usize::MAX - dv) / 10,
                    dv <= 9,
                    val >= 0,
            ;
        }
        val = val * 10 + dv;
        i += 1;
    }
    proof {
        assert(s@.take(hi - lo) =~= s@);
    }
    Some(val)
}

/// Whether the window `v[lo..hi]` holds a whitespace character.
fn window_has_whitespace(v: &Vec<char>, lo: usize, hi: usize) -> (r: bool)
    requires
        lo <= hi <= v@.len(),
    ensures
        r == has_whitespace(v@.subrange(lo as int, hi as int)),
{
    let s = Ghost(v@.subrange(lo as int, hi as int));
    let mut i: usize = lo;
    while i < hi
        invariant
            lo <= i <= hi <= v@.len(),
            s@ == v@.subrange(lo as int, hi as int),
            forall|j: int| 0 <= j < i - lo ==> !spec_is_whitespace(#[trigger] s@[j]),
        decreases hi - i,
    {
        if is_whitespace_char(v[i]) {
            assert(s@[i - lo] == v@[i as int]);
            return true;
        }
        i += 1;
    }
    false
}

/// The smallest position in `v[lo..hi]` holding `c`, or `hi` if there is none,
/// as an absolute index into `v`.
pub(crate) fn window_find(v: &Vec<char>, lo: usize, hi: usize, c: char) -> (r: usize)
    requires
        lo <= hi <= v@.len(),
    ensures
        lo <= r <= hi,
        r - lo == first_at(v@.subrange(lo as int, hi as int), c, 0),
{
    let s = Ghost(v@.subrange(lo as int, hi as int));
    let mut i: usize = lo;
    while i < hi
        invariant
            lo <= i <= hi <= v@.len(),
            s@ == v@.subrange(lo as int, hi as int),
            first_at(s@, c, 0) == first_at(s@, c, i - lo),
        decreases hi - i,
    {
        if v[i] == c {
            assert(s@[i - lo] == c);
            return i;
        }
        assert(first_at(s@, c, i - lo) == first_at(s@, c, i - lo + 1));
        i += 1;
    }
    assert(first_at(s@, c, i - lo) == s@.len());
    hi
}

/// Parse a bracketed slice expression such as `[1:4]`, `[3]`, `[:2]`, `[2:]`
/// or `[:]`, optionally wrapped in one layer of quotes.
///
/// The result is exactly `spec_parse_range` of the input: the shorthand `[N]`
/// yields `{start: N, end: Some(N + 1)}`, an omitted start yields `0`, an
/// omitted end yields `None`, and each malformed input is rejected with the
/// first failing rule in validation order.
pub fn parse_slice_range(expr: &str) -> (r: Result<ParsedRange, RangeExprError>)
    ensures
        r == spec_parse_range(expr@),
{
    let v = str_to_chars(expr);
    let n = v.len();

    // Strip one symmetric layer of quotes.
    let (lo, hi): (usize, usize) = if n >= 2 && ((v[0] == '\'' && v[n - 1] == '\'') || (v[0] == '"'
        && v[n - 1] == '"')) {
        (1, n - 1)
    } else {
        (0, n)
    };
    let e = Ghost(strip_quotes(expr@));
    proof {
        assert(e@ =~= v@.subrange(lo as int, hi as int));
    }

    // No whitespace immediately inside the (possibly quoted) expression.
    if hi > lo && (is_whitespace_char(v[lo]) || is_whitespace_char(v[hi - 1])) {
        assert(e@.first() == v@[lo as int] && e@.last() == v@[hi - 1]);
        return Err(RangeExprError::TrimViolation);
    }
    assert(e@.len() > 0 ==> !spec_is_whitespace(e@.first()) && !spec_is_whitespace(e@.last()));

    // Brackets are required.
    if !(hi - lo >= 2 && v[lo] == '[' && v[hi - 1] == ']') {
        assert(e@.len() >= 2 ==> (e@.first() == v@[lo as int] && e@.last() == v@[hi - 1]));
        return Err(RangeExprError::MissingBrackets);
    }
    assert(e@.first() == v@[lo as int] && e@.last() == v@[hi - 1]);

    // The interior, between the brackets.
    let blo = lo + 1;
    let bhi = hi - 1;
    let body = Ghost(e@.subrange(1, e@.len() - 1));
    proof {
        assert(body@ =~= v@.subrange(blo as int, bhi as int));
    }

    if window_has_whitespace(&v, blo, bhi) {
        return Err(RangeExprError::InteriorSpaces);
    }

    let k = window_find(&v, blo, bhi, ':');
    proof {
        lemma_first_at(body@, ':', 0);
        if k == bhi {
            assert(!body@.contains(':'));
        } else {
            assert(body@[k - blo] == ':');
            assert(body@.contains(':'));
        }
    }

    if k == bhi {
        // Shorthand form `[N]`, read as `[N:N+1]`.
        match parse_index_range(&v, blo, bhi) {
            Some(idx) => {
                if idx < usize::MAX {
                    Ok(ParsedRange { start: idx, end: Some(idx + 1) })
                } else {
                    Err(RangeExprError::SingleIndexFormat)
                }
            },
            None => Err(RangeExprError::SingleIndexFormat),
        }
    } else {
        // Full form `start:end`, both sides optional.
        let left = Ghost(body@.subrange(0, k - blo));
        let right = Ghost(body@.subrange(k - blo + 1, body@.len() as int));
        proof {
            assert(left@ =~= v@.subrange(blo as int, k as int));
            assert(right@ =~= v@.subrange(k + 1, bhi as int));
        }
        let k2 = window_find(&v, k + 1, bhi, ':');
        proof {
            lemma_first_at(right@, ':', 0);
            if k2 == bhi {
                assert(!right@.contains(':'));
            } else {
                assert(right@[k2 - (k + 1)] == ':');
                assert(right@.contains(':'));
            }
        }
        if k2 < bhi {
            return Err(RangeExprError::MalformedRange);
        }

        let start: usize = if k == blo {
            assert(left@.len() == 0);
            0
        } else {
            match parse_index_range(&v, blo, k) {
                Some(a) => a,
                None => {
                    return Err(RangeExprError::StartIndexFormat);
                },
            }
        };

        if k + 1 == bhi {
            assert(right@.len() == 0);
            Ok(ParsedRange { start, end: None })
        } else {
            match parse_index_range(&v, k + 1, bhi) {
                Some(b) => Ok(ParsedRange { start, end: Some(b) }),
                None => Err(RangeExprError::EndIndexFormat),
            }
        }
    }
}

} // verus!
