//! The unit segmenter: split a string into character units, grapheme-cluster
//! units, or display-width cell units, together with the boundary table that
//! maps unit indices to positions.

use vstd::prelude::*;

use crate::oracle::{graphemes, graphemes_of, width_of, width_with_policy};
use crate::policy::PolicyKind;
use crate::text::{concat_all, lemma_concat_all_count, lemma_concat_all_push, lemma_concat_all_split, views_of};

verus! {

/// The unit system a string is segmented into.
#[derive(Debug, Clone, Copy, PartialEq, Eq, Structural)]
pub enum SliceMode {
    /// One unit per Unicode scalar value.
    Char,
    /// One unit per extended grapheme cluster.
    Grapheme,
    /// One unit per run of graphemes that together contribute positive
    /// display width; positions are cumulative display widths.
    Width,
}

/// The display width of one grapheme cluster under the terminal policy.
pub open spec fn terminal_width(g: Seq<char>) -> int {
    width_of(PolicyKind::Terminal, g) as int
}

/// The width-cell units of a grapheme sequence: graphemes are accumulated
/// into a buffer, which is flushed as one unit whenever its accumulated
/// width becomes positive; a trailing all-zero-width buffer is flushed as a
/// final unit of width zero.
pub open spec fn width_units_rec(gs: Seq<Seq<char>>, acc: Seq<char>, acc_w: int) -> Seq<Seq<char>>
    decreases gs.len(),
{
    if gs.len() == 0 {
        if acc.len() == 0 {
            Seq::empty()
        } else {
            seq![acc]
        }
    } else {
        let acc2 = acc + gs.first();
        let w2 = acc_w + terminal_width(gs.first());
        if w2 > 0 {
            seq![acc2] + width_units_rec(gs.drop_first(), Seq::empty(), 0)
        } else {
            width_units_rec(gs.drop_first(), acc2, w2)
        }
    }
}

/// The boundary entries recorded after each flushed width-cell unit, given
/// the cumulative width `total` already recorded; the final entry of a
/// trailing zero-width unit repeats the last cumulative width.
pub open spec fn width_bounds_rec(gs: Seq<Seq<char>>, acc: Seq<char>, acc_w: int, total: int) -> Seq<
    int,
>
    decreases gs.len(),
{
    if gs.len() == 0 {
        if acc.len() == 0 {
            Seq::empty()
        } else {
            seq![total]
        }
    } else {
        let acc2 = acc + gs.first();
        let w2 = acc_w + terminal_width(gs.first());
        if w2 > 0 {
            seq![total + w2] + width_bounds_rec(gs.drop_first(), Seq::empty(), 0, total + w2)
        } else {
            width_bounds_rec(gs.drop_first(), acc2, w2, total)
        }
    }
}

/// Split a string into units and their boundary table, by mode.
///
/// In every mode the boundary table has one more entry than there are units,
/// starts at 0, is non-decreasing, and the units concatenate back to the
/// input (segmentation is a lossless partition). In `Char` and `Grapheme`
/// mode the boundaries are the unit indices themselves; in `Width` mode they
/// are cumulative display widths under the terminal policy.
pub fn split_str_units(input: &str, mode: SliceMode) -> (r: (Vec<String>, Vec<usize>))
    requires
        input@.len() <= usize::MAX / 2,
    ensures
        r.1@.len() == r.0@.len() + 1,
        r.1@[0] == 0,
        forall|j: int| 0 <= j < r.0@.len() ==> #[trigger] r.1@[j] <= r.1@[j + 1],
        concat_all(views_of(r.0@)) == input@,
        !(mode is Width) ==> forall|j: int| 0 <= j < r.1@.len() ==> #[trigger] r.1@[j] == j,
        mode is Char ==> r.0@.len() == input@.len() && (forall|j: int|
            0 <= j < r.0@.len() ==> #[trigger] r.0@[j]@ == seq![input@[j]]),
        mode is Grapheme ==> views_of(r.0@) == graphemes_of(input@),
        mode is Width ==> views_of(r.0@) == width_units_rec(graphemes_of(input@), Seq::empty(), 0)
            && r.1@.map_values(|b: usize| b as int) == seq![0int] + width_bounds_rec(
            graphemes_of(input@),
            Seq::empty(),
            0,
            0,
        ),
{
    match mode {
        SliceMode::Char => {
            let n = input.unicode_len();
            let mut units: Vec<String> = Vec::new();
            let mut i: usize = 0;
            while i < n
                invariant
                    i <= n,
                    n == input@.len(),
                    units@.len() == i,
                    forall|j: int| 0 <= j < i ==> #[trigger] units@[j]@ == seq![input@[j]],
                    concat_all(views_of(units@)) == input@.take(i as int),
                decreases n - i,
            {
                let u = input.substring_char(i, i + 1).to_owned();
                proof {
                    assert(u@ =~= seq![input@[i as int]]);
                    assert(views_of(units@.push(u)) =~= views_of(units@).push(u@));
                    lemma_concat_all_push(views_of(units@), u@);
                    assert(input@.take(i + 1) =~= input@.take(i as int) + seq![input@[i as int]]);
                }
                units.push(u);
                i += 1;
            }
            proof {
                assert(input@.take(n as int) =~= input@);
            }
            let bounds = index_boundaries(n);
            (units, bounds)
        },
        SliceMode::Grapheme => {
            let units = graphemes(input);
            proof {
                lemma_concat_all_count(views_of(units@));
            }
            let bounds = index_boundaries(units.len());
            (units, bounds)
        },
        SliceMode::Width => {
            let gs = graphemes(input);
            let gsv = Ghost(views_of(gs@));
            proof {
                lemma_concat_all_count(gsv@);
            }
            let mut units: Vec<String> = Vec::new();
            let mut bounds: Vec<usize> = Vec::new();
            bounds.push(0);
            let mut acc = String::new();
            let mut acc_w: usize = 0;
            let mut width_total: usize = 0;
            let mut i: usize = 0;
            proof {
                assert(gsv@.take(0) =~= Seq::<Seq<char>>::empty());
                assert(gsv@.skip(0) =~= gsv@);
                assert(concat_all(views_of(units@)) + acc@ =~= concat_all(gsv@.take(0)));
                assert(views_of(units@) + width_units_rec(gsv@, Seq::empty(), 0) =~=
                width_units_rec(gsv@, Seq::empty(), 0));
                assert(bounds@.map_values(|b: usize| b as int) =~= seq![0int]);
            }
            while i < gs.len()
                invariant
                    i <= gs.len(),
                    gsv@ == views_of(gs@),
                    gsv@ == graphemes_of(input@),
                    concat_all(gsv@) == input@,
                    input@.len() <= usize::MAX / 2,
                    forall|j: int| 0 <= j < gs@.len() ==> (#[trigger] gs@[j])@.len() > 0,
                    bounds@.len() == units@.len() + 1,
                    bounds@[0] == 0,
                    forall|j: int| 0 <= j < units@.len() ==> #[trigger] bounds@[j] <= bounds@[j
                        + 1],
                    bounds@.last() == width_total,
                    concat_all(views_of(units@)) + acc@ == concat_all(gsv@.take(i as int)),
                    views_of(units@) + width_units_rec(gsv@.skip(i as int), acc@, acc_w as int)
                        == width_units_rec(gsv@, Seq::empty(), 0),
                    bounds@.map_values(|b: usize| b as int) + width_bounds_rec(
                        gsv@.skip(i as int),
                        acc@,
                        acc_w as int,
                        width_total as int,
                    ) == seq![0int] + width_bounds_rec(gsv@, Seq::empty(), 0, 0),
                    width_total + acc_w <= 2 * concat_all(gsv@.take(i as int)).len(),
                decreases gs.len() - i,
            {
                let ghost units_pre = units@;
                let ghost acc_pre = acc@;
                let ghost bounds_pre = bounds@;
                let ghost wt_pre = width_total as int;
                let g = &gs[i];
                let w = width_with_policy(g.as_str(), PolicyKind::Terminal);
                proof {
                    let rest = gsv@.skip(i as int);
                    assert(rest.first() == gsv@[i as int]);
                    assert(rest.drop_first() =~= gsv@.skip(i + 1));
                    assert(gsv@.take(i + 1) =~= gsv@.take(i as int).push(gsv@[i as int]));
                    lemma_concat_all_push(gsv@.take(i as int), gsv@[i as int]);
                    lemma_concat_all_split(gsv@, i + 1);
                    assert(concat_all(gsv@) =~= concat_all(gsv@.take(i + 1)) + concat_all(
                        gsv@.skip(i + 1),
                    ));
                    assert(concat_all(gsv@.take(i + 1)).len() <= input@.len());
                    assert(w == terminal_width(gsv@[i as int]));
                }
                acc.append(g.as_str());
                acc_w = acc_w + w;
                proof {
                    assert(acc@ =~= acc_pre + gsv@[i as int]);
                    assert(concat_all(views_of(units@)) + acc@ =~= (concat_all(views_of(units@))
                        + acc_pre) + gsv@[i as int]);
                    assert(concat_all(views_of(units@)) + acc@ =~= concat_all(gsv@.take(i + 1)));
                }
                if acc_w > 0 {
                    let ghost acc_full = acc@;
                    proof {
                        assert(views_of(units_pre.push(acc)) =~= views_of(units_pre).push(acc@));
                        lemma_concat_all_push(views_of(units_pre), acc@);
                        assert(views_of(units_pre).push(acc_full) + width_units_rec(
                            gsv@.skip(i + 1),
                            Seq::empty(),
                            0,
                        ) =~= views_of(units_pre) + (seq![acc_full] + width_units_rec(
                            gsv@.skip(i + 1),
                            Seq::empty(),
                            0,
                        )));
                    }
                    width_total = width_total + acc_w;
                    units.push(acc);
                    bounds.push(width_total);
                    acc = String::new();
                    acc_w = 0;
                    proof {
                        assert(units@ =~= units_pre.push(units@.last()));
                        assert(units@.last()@ == acc_full);
                        assert(views_of(units@) =~= views_of(units_pre).push(acc_full));
                        assert(acc@ =~= Seq::<char>::empty());
                        assert(concat_all(views_of(units@)) + acc@ =~= concat_all(
                            views_of(units_pre),
                        ) + acc_full);
                        let bm_pre = bounds_pre.map_values(|b: usize| b as int);
                        assert(bounds@ =~= bounds_pre.push(width_total));
                        assert(bounds@.map_values(|b: usize| b as int) =~= bm_pre.push(
                            width_total as int,
                        ));
                        assert(bm_pre.push(width_total as int) + width_bounds_rec(
                            gsv@.skip(i + 1),
                            Seq::empty(),
                            0,
                            width_total as int,
                        ) =~= bm_pre + (seq![width_total as int] + width_bounds_rec(
                            gsv@.skip(i + 1),
                            Seq::empty(),
                            0,
                            width_total as int,
                        )));
                    }
                }
                i += 1;
            }
            proof {
                assert(gsv@.take(gs@.len() as int) =~= gsv@);
                assert(gsv@.skip(gs@.len() as int) =~= Seq::<Seq<char>>::empty());
            }
            if !acc.as_str().is_empty() {
                let ghost units_pre = units@;
                let ghost acc_full = acc@;
                let ghost bounds_pre = bounds@;
                proof {
                    lemma_concat_all_push(views_of(units_pre), acc_full);
                }
                units.push(acc);
                bounds.push(width_total);
                proof {
                    assert(units@ =~= units_pre.push(units@.last()));
                    assert(views_of(units@) =~= views_of(units_pre).push(acc_full));
                    assert(views_of(units_pre).push(acc_full) =~= views_of(units_pre) + seq![
                        acc_full,
                    ]);
                    assert(concat_all(views_of(units@)) =~= concat_all(views_of(units_pre))
                        + acc_full);
                    let bm_pre = bounds_pre.map_values(|b: usize| b as int);
                    assert(bounds@ =~= bounds_pre.push(width_total));
                    assert(bounds@.map_values(|b: usize| b as int) =~= bm_pre.push(
                        width_total as int,
                    ));
                    assert(bm_pre.push(width_total as int) =~= bm_pre + seq![width_total as int]);
                }
            } else {
                proof {
                    assert(acc@ =~= Seq::<char>::empty());
                    assert(concat_all(views_of(units@)) + acc@ =~= concat_all(views_of(units@)));
                    assert(views_of(units@) + Seq::<Seq<char>>::empty() =~= views_of(units@));
                    assert(bounds@.map_values(|b: usize| b as int) + Seq::<int>::empty() =~=
                    bounds@.map_values(|b: usize| b as int));
                }
            }
            (units, bounds)
        },
    }
}

/// The identity boundary table `0, 1, ..., n`.
fn index_boundaries(n: usize) -> (r: Vec<usize>)
    requires
        n < usize::MAX,
    ensures
        r@.len() == n + 1,
        forall|j: int| 0 <= j < r@.len() ==> #[trigger] r@[j] == j,
{
    let mut r: Vec<usize> = Vec::new();
    let mut i: usize = 0;
    while i <= n
        invariant
            n < usize::MAX,
            i <= n + 1,
            r@.len() == i,
            forall|j: int| 0 <= j < i ==> #[trigger] r@[j] == j,
        decreases n + 1 - i,
    {
        r.push(i);
        i += 1;
    }
    r
}

} // verus!
