//! Crate-wide laws relating the parser, the segmenter and the resolver.
//!
//! The segmenter's own contract already states that segmentation is a
//! lossless partition (the units concatenate back to the input) and that
//! every boundary table starts at 0 and is non-decreasing; the proofs here
//! state what holds across the components.

use vstd::prelude::*;

use crate::range_expr::{all_digits, spec_parse_range, ParsedRange, RangeExprError};
use crate::resolve::{
    eff_end, hi_index, lo_index, out_of_bounds, resolve_fails, window_text,
};
use crate::segment::SliceMode;
use crate::text::{concat_all, digits_val, spec_is_digit, spec_is_whitespace};

verus! {

/// A digit string wrapped in slice brackets.
pub open spec fn bracketed(body: Seq<char>) -> Seq<char> {
    seq!['['] + body + seq![']']
}

/// Lenient window selection: a parsed `[a:b]` range with `a <= b`, resolved
/// leniently in a non-width mode over at least `b` units, never fails and
/// selects exactly the units `a..b` — a window of `b - a` units.
pub proof fn lemma_lenient_window_count(
    expr: Seq<char>,
    units: Seq<Seq<char>>,
    bounds: Seq<usize>,
    mode: SliceMode,
)
    requires
        !(mode is Width),
        spec_parse_range(expr) is Ok,
        spec_parse_range(expr)->Ok_0.end is Some,
        spec_parse_range(expr)->Ok_0.start <= spec_parse_range(expr)->Ok_0.end->0,
        spec_parse_range(expr)->Ok_0.end->0 <= units.len(),
    ensures
        !resolve_fails(units, bounds, spec_parse_range(expr)->Ok_0, mode, false),
        ({
            let range = spec_parse_range(expr)->Ok_0;
            let lo = lo_index(units, bounds, range, mode);
            let hi = hi_index(units, bounds, range, mode);
            &&& lo == range.start as int
            &&& hi == range.end->0 as int
            &&& hi - lo == range.end->0 - range.start
            &&& window_text(units, lo, hi) == concat_all(units.subrange(lo, hi))
            &&& units.subrange(lo, hi).len() == range.end->0 - range.start
        }),
{
}

/// The shorthand law: `[N]` parses exactly as `[N:M]` does when the digit
/// string `M` denotes `N + 1`, and both yield `{start: N, end: Some(N + 1)}`.
pub proof fn lemma_shorthand_equiv(d1: Seq<char>, d2: Seq<char>)
    requires
        d1.len() > 0,
        all_digits(d1),
        digits_val(d1) < usize::MAX as int,
        d2.len() > 0,
        all_digits(d2),
        digits_val(d2) == digits_val(d1) + 1,
    ensures
        spec_parse_range(bracketed(d1)) == Ok::<ParsedRange, RangeExprError>(
            ParsedRange {
                start: digits_val(d1) as usize,
                end: Some((digits_val(d1) + 1) as usize),
            },
        ),
        spec_parse_range(bracketed(d1 + seq![':'] + d2)) == spec_parse_range(bracketed(d1)),
{
    lemma_digits_val_bounds(d1);
    lemma_digits_val_bounds(d2);

    // The shorthand form.
    let e1 = bracketed(d1);
    assert(e1.len() == d1.len() + 2);
    assert(e1.first() == '[');
    assert(e1.last() == ']');
    assert(crate::range_expr::strip_quotes(e1) == e1);
    let body1 = e1.subrange(1, e1.len() - 1);
    assert(body1 =~= d1);
    assert(!spec_is_whitespace('['));
    assert(!spec_is_whitespace(']'));
    assert(forall|i: int| 0 <= i < d1.len() ==> !spec_is_whitespace(#[trigger] d1[i]));
    assert(!crate::range_expr::has_whitespace(body1));
    assert(forall|i: int| 0 <= i < d1.len() ==> d1[i] != ':') by {
        assert(forall|i: int| 0 <= i < d1.len() ==> spec_is_digit(#[trigger] d1[i]));
    }
    assert(!body1.contains(':'));
    assert(crate::range_expr::spec_parse_index(body1) == Some(digits_val(d1) as usize));

    // The full form.
    let b2 = d1 + seq![':'] + d2;
    let e2 = bracketed(b2);
    assert(e2.len() == b2.len() + 2);
    assert(e2.first() == '[');
    assert(e2.last() == ']');
    assert(crate::range_expr::strip_quotes(e2) == e2);
    let body2 = e2.subrange(1, e2.len() - 1);
    assert(body2 =~= b2);
    assert(b2.len() == d1.len() + 1 + d2.len());
    assert(forall|i: int| 0 <= i < d1.len() ==> b2[i] == d1[i]);
    assert(b2[d1.len() as int] == ':');
    assert(forall|i: int|
        d1.len() + 1 <= i < b2.len() ==> b2[i] == d2[i - d1.len() - 1]);
    assert(!spec_is_whitespace(':'));
    assert(forall|i: int| 0 <= i < b2.len() ==> !spec_is_whitespace(#[trigger] b2[i]));
    assert(!crate::range_expr::has_whitespace(body2));
    assert(body2.contains(':')) by {
        assert(b2[d1.len() as int] == ':');
    }
    let k = crate::range_expr::first_at(body2, ':', 0);
    crate::range_expr::lemma_first_at(body2, ':', 0);
    assert(k == d1.len()) by {
        assert(k < body2.len() ==> body2[k] == ':');
        if k > d1.len() {
            assert(body2[d1.len() as int] == ':');
        }
        if k < d1.len() {
            assert(spec_is_digit(body2[k]));
        }
        assert(k <= body2.len());
        if k == body2.len() {
            assert(body2[d1.len() as int] == ':');
        }
    }
    let left = body2.subrange(0, k);
    let right = body2.subrange(k + 1, body2.len() as int);
    assert(left =~= d1);
    assert(right =~= d2);
    assert(forall|i: int| 0 <= i < d2.len() ==> d2[i] != ':') by {
        assert(forall|i: int| 0 <= i < d2.len() ==> spec_is_digit(#[trigger] d2[i]));
    }
    assert(!right.contains(':'));
    assert(crate::range_expr::spec_parse_index(left) == Some(digits_val(d1) as usize));
    assert(crate::range_expr::spec_parse_index(right) == Some(digits_val(d2) as usize));
}

/// A digit string denotes a non-negative value.
proof fn lemma_digits_val_bounds(s: Seq<char>)
    requires
        all_digits(s),
    ensures
        digits_val(s) >= 0,
    decreases s.len(),
{
    if s.len() > 0 {
        assert(all_digits(s.drop_last()));
        lemma_digits_val_bounds(s.drop_last());
    }
}

/// Reversed ranges: in the non-width modes, strict resolution rejects every
/// range with `start > end`, while lenient resolution never rejects any
/// range at all.
pub proof fn lemma_reversed_range(
    units: Seq<Seq<char>>,
    bounds: Seq<usize>,
    range: ParsedRange,
    mode: SliceMode,
)
    requires
        !(mode is Width),
    ensures
        range.end is Some && range.start > range.end->0 ==> resolve_fails(
            units,
            bounds,
            range,
            mode,
            true,
        ),
        !resolve_fails(units, bounds, range, mode, false),
{
    if range.end is Some && range.start > range.end->0 {
        assert(eff_end(range, units.len() as int) == range.end->0 as int);
        assert(out_of_bounds(range, units.len() as int));
    }
}

} // verus!
