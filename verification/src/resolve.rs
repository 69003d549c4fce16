//! The range resolver: select a contiguous run of units from a segmentation,
//! under strict or lenient policy, and concatenate it back into text.

use vstd::prelude::*;

use crate::range_expr::ParsedRange;
use crate::segment::SliceMode;
use crate::text::{concat_all, lemma_concat_all_push, views_of};

verus! {

/// The complete output of one resolution: the selected text, the unit total
/// (unit count, or total display width in width mode), and the effective
/// start and end positions used.
#[derive(Debug)]
pub struct ResolvedSlice {
    pub sliced_text: String,
    pub unit_total: usize,
    pub resolved_start: usize,
    pub resolved_end: usize,
}

/// The ways a parsed range can fail to resolve under strict policy.
#[derive(Debug, PartialEq, Eq)]
pub enum SliceError {
    /// The range leaves the unit sequence, or is reversed (non-width modes).
    OutOfBounds { len: usize },
    /// A position is not a display-width cell boundary (width mode).
    UnalignedBoundary { boundaries: Vec<usize> },
}

/// A well-formed boundary table for `units`: one more entry than there are
/// units, starting at 0, non-decreasing.
pub open spec fn wf_table(units: Seq<Seq<char>>, bounds: Seq<usize>) -> bool {
    &&& bounds.len() == units.len() + 1
    &&& bounds[0] == 0
    &&& forall|j: int| 0 <= j < units.len() ==> #[trigger] bounds[j] <= bounds[j + 1]
}

/// The effective end position: an omitted end means the unit count.
pub open spec fn eff_end(range: ParsedRange, n: int) -> int {
    match range.end {
        Some(e) => e as int,
        None => n,
    }
}

/// Whether a range leaves `n` units or is reversed (the strict out-of-bounds
/// condition of the non-width modes).
pub open spec fn out_of_bounds(range: ParsedRange, n: int) -> bool {
    range.start > n || eff_end(range, n) > n || range.start > eff_end(range, n)
}

/// Whether both range positions sit verbatim in the boundary table (the
/// strict alignment condition of width mode).
pub open spec fn range_aligned(bounds: Seq<usize>, range: ParsedRange, n: int) -> bool {
    bounds.contains(range.start) && (match range.end {
        Some(e) => bounds.contains(e),
        None => bounds.contains(n as usize),
    })
}

/// The smallest index `k >= j` with `bounds[k] >= pos`, or the last index of
/// the table if there is none ("snap forward to the next cell boundary").
pub open spec fn first_ge(bounds: Seq<usize>, pos: int, j: int) -> int
    recommends
        0 <= j <= bounds.len(),
        bounds.len() > 0,
    decreases bounds.len() - j,
{
    if j < 0 || j >= bounds.len() {
        bounds.len() - 1
    } else if bounds[j] >= pos {
        j
    } else {
        first_ge(bounds, pos, j + 1)
    }
}

/// Whether resolution rejects the range under the given mode and policy.
pub open spec fn resolve_fails(
    units: Seq<Seq<char>>,
    bounds: Seq<usize>,
    range: ParsedRange,
    mode: SliceMode,
    strict: bool,
) -> bool {
    if mode is Width {
        strict && !range_aligned(bounds, range, units.len() as int)
    } else {
        strict && out_of_bounds(range, units.len() as int)
    }
}

/// The index of the first selected unit.
pub open spec fn lo_index(
    units: Seq<Seq<char>>,
    bounds: Seq<usize>,
    range: ParsedRange,
    mode: SliceMode,
) -> int {
    if mode is Width {
        first_ge(bounds, range.start as int, 0)
    } else if range.start as int <= units.len() {
        range.start as int
    } else {
        units.len() as int
    }
}

/// The index one past the last selected unit.
pub open spec fn hi_index(
    units: Seq<Seq<char>>,
    bounds: Seq<usize>,
    range: ParsedRange,
    mode: SliceMode,
) -> int {
    let e = eff_end(range, units.len() as int);
    if mode is Width {
        first_ge(bounds, e, 0)
    } else if e <= units.len() {
        e
    } else {
        units.len() as int
    }
}

/// The text selected by a unit-index window: the units `lo..hi` concatenated,
/// or empty when the window is reversed.
pub open spec fn window_text(units: Seq<Seq<char>>, lo: int, hi: int) -> Seq<char> {
    if lo <= hi {
        concat_all(units.subrange(lo, hi))
    } else {
        Seq::empty()
    }
}

/// Concatenate the units `lo..hi` with no separator.
fn concat_units(units: &Vec<String>, lo: usize, hi: usize) -> (r: String)
    requires
        lo <= hi <= units@.len(),
    ensures
        r@ == concat_all(views_of(units@).subrange(lo as int, hi as int)),
{
    let mut r = String::new();
    let mut i: usize = lo;
    proof {
        assert(views_of(units@).subrange(lo as int, lo as int) =~= Seq::<Seq<char>>::empty());
        assert(r@ =~= Seq::<char>::empty());
    }
    while i < hi
        invariant
            lo <= i <= hi <= units@.len(),
            r@ == concat_all(views_of(units@).subrange(lo as int, i as int)),
        decreases hi - i,
    {
        proof {
            assert(views_of(units@).subrange(lo as int, i + 1) =~= views_of(units@).subrange(
                lo as int,
                i as int,
            ).push(units@[i as int]@));
            lemma_concat_all_push(
                views_of(units@).subrange(lo as int, i as int),
                units@[i as int]@,
            );
        }
        r.append(units[i].as_str());
        i += 1;
    }
    r
}

/// Whether the table holds the value `x`.
fn table_contains(bounds: &Vec<usize>, x: usize) -> (r: bool)
    ensures
        r == bounds@.contains(x),
{
    let mut i: usize = 0;
    while i < bounds.len()
        invariant
            i <= bounds@.len(),
            forall|j: int| 0 <= j < i ==> bounds@[j] != x,
        decreases bounds@.len() - i,
    {
        if bounds[i] == x {
            return true;
        }
        i += 1;
    }
    false
}

/// The smallest index whose entry is `>= pos`, or the last index.
fn table_first_ge(bounds: &Vec<usize>, pos: usize) -> (r: usize)
    requires
        bounds@.len() > 0,
    ensures
        r == first_ge(bounds@, pos as int, 0),
        r <= bounds@.len() - 1,
{
    let n = bounds.len();
    let mut i: usize = 0;
    while i < n
        invariant
            i <= n,
            n == bounds@.len(),
            first_ge(bounds@, pos as int, 0) == first_ge(bounds@, pos as int, i as int),
        decreases n - i,
    {
        if bounds[i] >= pos {
            return i;
        }
        assert(first_ge(bounds@, pos as int, i as int) == first_ge(bounds@, pos as int, i + 1));
        i += 1;
    }
    assert(first_ge(bounds@, pos as int, n as int) == n - 1);
    n - 1
}

/// Copy a boundary table.
fn copy_table(bounds: &Vec<usize>) -> (r: Vec<usize>)
    ensures
        r@ == bounds@,
{
    let mut r: Vec<usize> = Vec::new();
    let mut i: usize = 0;
    while i < bounds.len()
        invariant
            i <= bounds@.len(),
            r@ == bounds@.take(i as int),
        decreases bounds@.len() - i,
    {
        r.push(bounds[i]);
        proof {
            assert(bounds@.take(i + 1) =~= bounds@.take(i as int).push(bounds@[i as int]));
        }
        i += 1;
    }
    proof {
        assert(bounds@.take(bounds@.len() as int) =~= bounds@);
    }
    r
}

/// Resolve a parsed range against a segmentation.
///
/// In the non-width modes the positions are unit indices: strict policy
/// rejects a range that leaves the sequence or is reversed with
/// `OutOfBounds`; lenient policy clamps each position to the unit count and
/// a reversed window yields an empty slice. In width mode the positions are
/// display-width positions: strict policy rejects a position absent from the
/// boundary table with `UnalignedBoundary`; each position then snaps forward
/// to the next cell boundary, saturating at the end of the table. The unit
/// total reported is the unit count, or the total display width in width
/// mode.
pub fn resolve_slice(
    units: &Vec<String>,
    boundaries: &Vec<usize>,
    range: &ParsedRange,
    mode: SliceMode,
    strict: bool,
) -> (r: Result<ResolvedSlice, SliceError>)
    requires
        wf_table(views_of(units@), boundaries@),
    ensures
        r is Err <==> resolve_fails(views_of(units@), boundaries@, *range, mode, strict),
        r is Err && !(mode is Width) ==> r == Err::<ResolvedSlice, SliceError>(
            SliceError::OutOfBounds { len: units@.len() as usize },
        ),
        r is Err && mode is Width ==> (match r {
            Err(SliceError::UnalignedBoundary { boundaries: b }) => b@ == boundaries@,
            _ => false,
        }),
        r is Ok ==> ({
            let lo = lo_index(views_of(units@), boundaries@, *range, mode);
            let hi = hi_index(views_of(units@), boundaries@, *range, mode);
            let rs = r->Ok_0;
            &&& rs.sliced_text@ == window_text(views_of(units@), lo, hi)
            &&& rs.unit_total as int == (if mode is Width {
                boundaries@.last() as int
            } else {
                units@.len() as int
            })
            &&& rs.resolved_start as int == (if mode is Width {
                boundaries@[lo] as int
            } else {
                lo
            })
            &&& rs.resolved_end as int == (if mode is Width {
                boundaries@[hi] as int
            } else {
                hi
            })
        }),
{
    let n = units.len();
    let start = range.start;
    let end = match range.end {
        Some(e) => e,
        None => n,
    };
    match mode {
        SliceMode::Char | SliceMode::Grapheme => {
            if strict && (start > n || end > n || start > end) {
                return Err(SliceError::OutOfBounds { len: n });
            }
            let lo = if start < n {
                start
            } else {
                n
            };
            let hi = if end < n {
                end
            } else {
                n
            };
            let text = if lo <= hi {
                concat_units(units, lo, hi)
            } else {
                String::new()
            };
            proof {
                if !(lo <= hi) {
                    assert(window_text(views_of(units@), lo as int, hi as int) =~= Seq::<
                        char,
                    >::empty());
                }
            }
            Ok(ResolvedSlice { sliced_text: text, unit_total: n, resolved_start: lo, resolved_end: hi })
        },
        SliceMode::Width => {
            if strict && (!table_contains(boundaries, start) || !table_contains(boundaries, end)) {
                return Err(SliceError::UnalignedBoundary { boundaries: copy_table(boundaries) });
            }
            let si = table_first_ge(boundaries, start);
            let ei = table_first_ge(boundaries, end);
            let text = if si <= ei {
                concat_units(units, si, ei)
            } else {
                String::new()
            };
            proof {
                if !(si <= ei) {
                    assert(window_text(views_of(units@), si as int, ei as int) =~= Seq::<
                        char,
                    >::empty());
                }
                assert(boundaries@.last() == boundaries@[n as int]);
            }
            let total = boundaries[n];
            Ok(
                ResolvedSlice {
                    sliced_text: text,
                    unit_total: total,
                    resolved_start: boundaries[si],
                    resolved_end: boundaries[ei],
                },
            )
        },
    }
}

} // verus!
