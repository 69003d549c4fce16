//! Per-line orchestration of the slice pipeline: split the input into lines,
//! run segmentation, parsing and resolution on each non-blank line, and
//! isolate failures per line when the input has more than one line.

use vstd::prelude::*;

use crate::oracle::graphemes_of;
use crate::range_expr::{
    first_at, lemma_first_at, parse_slice_range, spec_parse_range, window_find, RangeExprError,
};
use crate::resolve::{
    hi_index, lo_index, resolve_fails, resolve_slice, window_text, ResolvedSlice,
    SliceError,
};
use crate::segment::{split_str_units, width_bounds_rec, width_units_rec, SliceMode};
use crate::text::{spec_is_whitespace, str_to_chars, views_of};

verus! {

/// The units a string segments into, by mode.
pub open spec fn spec_units(s: Seq<char>, mode: SliceMode) -> Seq<Seq<char>> {
    match mode {
        SliceMode::Char => s.map_values(|c: char| seq![c]),
        SliceMode::Grapheme => graphemes_of(s),
        SliceMode::Width => width_units_rec(graphemes_of(s), Seq::empty(), 0),
    }
}

/// The boundary table a string segments into, by mode.
pub open spec fn spec_bounds(s: Seq<char>, mode: SliceMode) -> Seq<usize> {
    match mode {
        SliceMode::Width => (seq![0int] + width_bounds_rec(
            graphemes_of(s),
            Seq::empty(),
            0,
            0,
        )).map_values(|b: int| b as usize),
        _ => Seq::new(spec_units(s, mode).len() + 1, |i: int| i as usize),
    }
}

/// A failure of one line of the slice pipeline: either the expression does
/// not parse, or the parsed range does not resolve under strict policy.
#[derive(Debug, PartialEq, Eq)]
pub enum SliceCmdError {
    Expr(RangeExprError),
    Range(SliceError),
}

/// Whether the pipeline fails on this line.
pub open spec fn line_fails(l: Seq<char>, expr: Seq<char>, mode: SliceMode, strict: bool) -> bool {
    match spec_parse_range(expr) {
        Err(_) => true,
        Ok(range) => resolve_fails(spec_units(l, mode), spec_bounds(l, mode), range, mode, strict),
    }
}

/// Whether `err` is exactly the failure the pipeline reports on this line.
pub open spec fn error_matches(
    err: SliceCmdError,
    l: Seq<char>,
    expr: Seq<char>,
    mode: SliceMode,
    strict: bool,
) -> bool {
    match err {
        SliceCmdError::Expr(e) => spec_parse_range(expr) == Err::<
            crate::range_expr::ParsedRange,
            RangeExprError,
        >(e),
        SliceCmdError::Range(SliceError::OutOfBounds { len }) => {
            &&& spec_parse_range(expr) is Ok
            &&& !(mode is Width)
            &&& line_fails(l, expr, mode, strict)
            &&& len == spec_units(l, mode).len()
        },
        SliceCmdError::Range(SliceError::UnalignedBoundary { boundaries }) => {
            &&& spec_parse_range(expr) is Ok
            &&& mode is Width
            &&& line_fails(l, expr, mode, strict)
            &&& boundaries@ == spec_bounds(l, mode)
        },
    }
}

/// Whether `rs` is exactly the resolution the pipeline yields on this line.
pub open spec fn done_matches(
    rs: ResolvedSlice,
    l: Seq<char>,
    expr: Seq<char>,
    mode: SliceMode,
    strict: bool,
) -> bool {
    match spec_parse_range(expr) {
        Err(_) => false,
        Ok(range) => {
            let us = spec_units(l, mode);
            let bs = spec_bounds(l, mode);
            let lo = lo_index(us, bs, range, mode);
            let hi = hi_index(us, bs, range, mode);
            &&& rs.sliced_text@ == window_text(us, lo, hi)
            &&& rs.unit_total as int == (if mode is Width {
                bs.last() as int
            } else {
                us.len() as int
            })
            &&& rs.resolved_start as int == (if mode is Width {
                bs[lo] as int
            } else {
                lo
            })
            &&& rs.resolved_end as int == (if mode is Width {
                bs[hi] as int
            } else {
                hi
            })
        },
    }
}

/// Run the whole pipeline on one line: segment it, parse the expression, and
/// resolve the parsed range against the segmentation.
pub fn slice_line(line: &str, expr: &str, mode: SliceMode, strict: bool) -> (r: Result<
    ResolvedSlice,
    SliceCmdError,
>)
    requires
        line@.len() <= usize::MAX / 2,
    ensures
        r is Err <==> line_fails(line@, expr@, mode, strict),
        r is Ok ==> done_matches(r->Ok_0, line@, expr@, mode, strict),
        r is Err ==> error_matches(r->Err_0, line@, expr@, mode, strict),
{
    let (units, bounds) = split_str_units(line, mode);
    proof {
        match mode {
            SliceMode::Char => {
                assert(views_of(units@) =~= spec_units(line@, mode));
                assert(bounds@ =~= spec_bounds(line@, mode));
            },
            SliceMode::Grapheme => {
                assert(bounds@ =~= spec_bounds(line@, mode));
            },
            SliceMode::Width => {
                let bi = seq![0int] + width_bounds_rec(graphemes_of(line@), Seq::empty(), 0, 0);
                assert(bounds@.map_values(|b: usize| b as int) == bi);
                let bu = bi.map_values(|b: int| b as usize);
                assert forall|j: int| 0 <= j < bounds@.len() implies bounds@[j] == bu[j] by {
                    assert(bounds@.map_values(|b: usize| b as int)[j] == bi[j]);
                }
                assert(bounds@ =~= bu);
                assert(bounds@ =~= spec_bounds(line@, mode));
            },
        }
    }
    let range = match parse_slice_range(expr) {
        Ok(pr) => pr,
        Err(e) => {
            return Err(SliceCmdError::Expr(e));
        },
    };
    match resolve_slice(&units, &bounds, &range, mode, strict) {
        Ok(rs) => Ok(rs),
        Err(e) => Err(SliceCmdError::Range(e)),
    }
}

/// One trailing carriage return is dropped before a line feed.
pub open spec fn strip_cr(l: Seq<char>) -> Seq<char> {
    if l.len() > 0 && l.last() == '\r' {
        l.drop_last()
    } else {
        l
    }
}

/// The lines of a string, as `str::lines` yields them: split at `\n` or
/// `\r\n`, with no final empty line after a trailing line terminator.
pub open spec fn spec_lines(s: Seq<char>) -> Seq<Seq<char>>
    decreases s.len(),
    via spec_lines_dec
{
    if s.len() == 0 {
        Seq::empty()
    } else {
        let k = first_at(s, '\n', 0);
        if k == s.len() {
            seq![s]
        } else {
            seq![strip_cr(s.take(k))] + spec_lines(s.skip(k + 1))
        }
    }
}

#[via_fn]
proof fn spec_lines_dec(s: Seq<char>) {
    if s.len() > 0 {
        lemma_first_at(s, '\n', 0);
    }
}

/// No line is longer than the string it came from.
pub proof fn lemma_lines_len(s: Seq<char>)
    ensures
        forall|i: int|
            0 <= i < spec_lines(s).len() ==> (#[trigger] spec_lines(s)[i]).len() <= s.len(),
    decreases s.len(),
{
    if s.len() > 0 {
        let k = first_at(s, '\n', 0);
        lemma_first_at(s, '\n', 0);
        if k < s.len() {
            lemma_lines_len(s.skip(k + 1));
            let rest = spec_lines(s.skip(k + 1));
            assert(spec_lines(s) == seq![strip_cr(s.take(k))] + rest);
            assert(strip_cr(s.take(k)).len() <= s.len());
            assert forall|i: int|
                0 <= i < spec_lines(s).len() implies (#[trigger] spec_lines(s)[i]).len()
                <= s.len() by {
                if i > 0 {
                    assert(spec_lines(s)[i] == rest[i - 1]);
                    assert(rest[i - 1].len() <= s.skip(k + 1).len());
                }
            }
        }
    }
}

/// Split a string into its lines, as owned strings.
pub fn split_lines(input: &str) -> (r: Vec<String>)
    ensures
        views_of(r@) == spec_lines(input@),
{
    let v = str_to_chars(input);
    let n = v.len();
    let mut lines: Vec<String> = Vec::new();
    let mut pos: usize = 0;
    proof {
        assert(v@.skip(0) =~= v@);
        assert(views_of(lines@) + spec_lines(v@) =~= spec_lines(v@));
    }
    while pos < n
        invariant
            pos <= n,
            n == v@.len(),
            v@ == input@,
            views_of(lines@) + spec_lines(v@.skip(pos as int)) == spec_lines(v@),
        decreases n - pos,
    {
        let ghost rest = v@.skip(pos as int);
        let ghost lines_pre = lines@;
        let k = window_find(&v, pos, n, '\n');
        proof {
            assert(rest =~= v@.subrange(pos as int, n as int));
            assert(first_at(rest, '\n', 0) == k - pos);
            lemma_first_at(rest, '\n', 0);
        }
        if k == n {
            let line = input.substring_char(pos, n).to_owned();
            proof {
                assert(line@ =~= rest);
                assert(spec_lines(rest) =~= seq![rest]);
                assert(v@.skip(n as int) =~= Seq::<char>::empty());
                assert(views_of(lines_pre.push(line)) =~= views_of(lines_pre).push(line@));
                assert(views_of(lines_pre).push(rest) + spec_lines(v@.skip(n as int)) =~=
                views_of(lines_pre) + (seq![rest] + Seq::<Seq<char>>::empty()));
                assert(seq![rest] + Seq::<Seq<char>>::empty() =~= seq![rest]);
            }
            lines.push(line);
            pos = n;
        } else {
            let mut e = k;
            if e > pos && v[e - 1] == '\r' {
                e = e - 1;
            }
            let line = input.substring_char(pos, e).to_owned();
            proof {
                assert(rest.take(k - pos) =~= v@.subrange(pos as int, k as int));
                if k > pos && v@[k - 1] == '\r' {
                    assert(rest.take(k - pos).last() == '\r');
                    assert(strip_cr(rest.take(k - pos)) =~= v@.subrange(pos as int, k - 1));
                    assert(line@ =~= strip_cr(rest.take(k - pos)));
                } else {
                    if rest.take(k - pos).len() > 0 {
                        assert(rest.take(k - pos).last() == v@[k - 1]);
                    }
                    assert(strip_cr(rest.take(k - pos)) =~= rest.take(k - pos));
                    assert(line@ =~= strip_cr(rest.take(k - pos)));
                }
                assert(rest.skip(k - pos + 1) =~= v@.skip(k + 1));
                assert(spec_lines(rest) =~= seq![strip_cr(rest.take(k - pos))] + spec_lines(
                    v@.skip(k + 1),
                ));
                assert(views_of(lines_pre.push(line)) =~= views_of(lines_pre).push(line@));
                assert(views_of(lines_pre).push(line@) + spec_lines(v@.skip(k + 1)) =~=
                views_of(lines_pre) + (seq![line@] + spec_lines(v@.skip(k + 1))));
            }
            lines.push(line);
            pos = k + 1;
        }
    }
    proof {
        assert(v@.skip(n as int) =~= Seq::<char>::empty());
        assert(views_of(lines@) + Seq::<Seq<char>>::empty() =~= views_of(lines@));
    }
    lines
}

/// Whether a line holds only whitespace (and is passed through as blank).
pub open spec fn all_whitespace(l: Seq<char>) -> bool {
    forall|i: int| 0 <= i < l.len() ==> spec_is_whitespace(#[trigger] l[i])
}

/// Decide whether a line is blank.
pub fn is_blank(s: &str) -> (r: bool)
    ensures
        r == all_whitespace(s@),
{
    let n = s.unicode_len();
    let mut i: usize = 0;
    while i < n
        invariant
            i <= n,
            n == s@.len(),
            forall|j: int| 0 <= j < i ==> spec_is_whitespace(#[trigger] s@[j]),
        decreases n - i,
    {
        if !crate::text::is_whitespace_char(s.get_char(i)) {
            return false;
        }
        i += 1;
    }
    true
}

/// What one line of a multi-line run produced.
#[derive(Debug)]
pub enum LineOutcome {
    /// The line was blank and is passed through as an empty line.
    Blank,
    /// The line was sliced.
    Done(ResolvedSlice),
    /// The line failed, tagged with its 1-based line number.
    Failed { line_no: usize, error: SliceCmdError },
}

/// Whether `o` is exactly what the pipeline produces for line `idx`
/// (0-based) holding `l`.
pub open spec fn outcome_matches(
    o: LineOutcome,
    l: Seq<char>,
    idx: int,
    expr: Seq<char>,
    mode: SliceMode,
    strict: bool,
) -> bool {
    if all_whitespace(l) {
        o is Blank
    } else if line_fails(l, expr, mode, strict) {
        match o {
            LineOutcome::Failed { line_no, error } => line_no == idx + 1 && error_matches(
                error,
                l,
                expr,
                mode,
                strict,
            ),
            _ => false,
        }
    } else {
        match o {
            LineOutcome::Done(rs) => done_matches(rs, l, expr, mode, strict),
            _ => false,
        }
    }
}

/// Run the slice pipeline over a whole input, line by line.
///
/// Blank lines pass through unchanged. With a single non-blank line, a
/// failure propagates as the overall result; with several lines, each
/// failure is reported under its 1-based line number and the remaining
/// lines are still processed.
pub fn slice_lines(input: &str, expr: &str, mode: SliceMode, strict: bool) -> (r: Result<
    Vec<LineOutcome>,
    SliceCmdError,
>)
    requires
        input@.len() <= usize::MAX / 2,
    ensures
        r is Err <==> (spec_lines(input@).len() == 1 && !all_whitespace(spec_lines(input@)[0])
            && line_fails(spec_lines(input@)[0], expr@, mode, strict)),
        r is Err ==> error_matches(r->Err_0, spec_lines(input@)[0], expr@, mode, strict),
        r is Ok ==> r->Ok_0@.len() == spec_lines(input@).len(),
        r is Ok ==> forall|i: int|
            0 <= i < spec_lines(input@).len() ==> outcome_matches(
                #[trigger] r->Ok_0@[i],
                spec_lines(input@)[i],
                i,
                expr@,
                mode,
                strict,
            ),
{
    let lines = split_lines(input);
    proof {
        lemma_lines_len(input@);
    }
    let single = lines.len() == 1;
    let mut out: Vec<LineOutcome> = Vec::new();
    let mut i: usize = 0;
    while i < lines.len()
        invariant
            i <= lines@.len(),
            views_of(lines@) == spec_lines(input@),
            input@.len() <= usize::MAX / 2,
            forall|j: int|
                0 <= j < spec_lines(input@).len() ==> (#[trigger] spec_lines(input@)[j]).len()
                    <= input@.len(),
            single == (lines@.len() == 1),
            out@.len() == i,
            forall|j: int|
                0 <= j < i ==> outcome_matches(
                    #[trigger] out@[j],
                    spec_lines(input@)[j],
                    j,
                    expr@,
                    mode,
                    strict,
                ),
            single && i > 0 ==> all_whitespace(spec_lines(input@)[0]) || !line_fails(
                spec_lines(input@)[0],
                expr@,
                mode,
                strict,
            ),
        decreases lines@.len() - i,
    {
        let line = &lines[i];
        proof {
            assert(line@ == spec_lines(input@)[i as int]);
        }
        if is_blank(line.as_str()) {
            out.push(LineOutcome::Blank);
        } else {
            match slice_line(line.as_str(), expr, mode, strict) {
                Ok(rs) => {
                    out.push(LineOutcome::Done(rs));
                },
                Err(e) => {
                    if single {
                        return Err(e);
                    }
                    out.push(LineOutcome::Failed { line_no: i + 1, error: e });
                },
            }
        }
        i += 1;
    }
    Ok(out)
}

} // verus!
