//! Measurement helpers over segmented text: per-item display widths, their
//! maximum, and the total reported width of a string's layout atoms.

use vstd::prelude::*;

use crate::atoms::{measured_width, spec_measured_width};
use crate::oracle::{atoms, atoms_of, width_of, width_with_policy};
use crate::policy::PolicyKind;
use crate::text::{concat_all, lemma_concat_all_push, lemma_concat_all_split, views_of};

verus! {

/// The display width of each item under a policy.
pub fn widths_of(items: &Vec<String>, p: PolicyKind) -> (r: Vec<usize>)
    ensures
        r@.len() == items@.len(),
        forall|i: int| 0 <= i < items@.len() ==> #[trigger] r@[i] == width_of(p, items@[i]@),
{
    let mut r: Vec<usize> = Vec::new();
    let mut i: usize = 0;
    while i < items.len()
        invariant
            i <= items@.len(),
            r@.len() == i,
            forall|j: int| 0 <= j < i ==> #[trigger] r@[j] == width_of(p, items@[j]@),
        decreases items@.len() - i,
    {
        r.push(width_with_policy(items[i].as_str(), p));
        i += 1;
    }
    r
}

/// The largest entry, or `default` when there is none.
pub fn max_or(v: &Vec<usize>, default: usize) -> (r: usize)
    ensures
        v@.len() == 0 ==> r == default,
        v@.len() > 0 ==> v@.contains(r) && (forall|i: int| 0 <= i < v@.len() ==> #[trigger] v@[i]
            <= r),
{
    if v.len() == 0 {
        return default;
    }
    let mut r = v[0];
    let mut i: usize = 1;
    while i < v.len()
        invariant
            1 <= i <= v@.len(),
            v@.contains(r),
            forall|j: int| 0 <= j < i ==> #[trigger] v@[j] <= r,
        decreases v@.len() - i,
    {
        if v[i] > r {
            r = v[i];
        }
        i += 1;
    }
    r
}

/// The sum of the reported widths of a sequence of atoms.
pub open spec fn sum_measured(parts: Seq<Seq<char>>) -> int
    decreases parts.len(),
{
    if parts.len() == 0 {
        0
    } else {
        spec_measured_width(parts.first()) + sum_measured(parts.drop_first())
    }
}

proof fn lemma_sum_measured_push(parts: Seq<Seq<char>>, tail: Seq<char>)
    ensures
        sum_measured(parts.push(tail)) == sum_measured(parts) + spec_measured_width(tail),
    decreases parts.len(),
{
    if parts.len() == 0 {
        assert(parts.push(tail).drop_first() =~= Seq::<Seq<char>>::empty());
        assert(parts.push(tail).first() == tail);
        assert(sum_measured(parts.push(tail)) == spec_measured_width(tail) + sum_measured(
            Seq::<Seq<char>>::empty(),
        ));
    } else {
        assert(parts.push(tail).drop_first() =~= parts.drop_first().push(tail));
        assert(parts.push(tail).first() == parts.first());
        lemma_sum_measured_push(parts.drop_first(), tail);
        assert(sum_measured(parts.push(tail)) == spec_measured_width(parts.first()) + sum_measured(
            parts.drop_first().push(tail),
        ));
    }
}

/// The total reported display width of a string's layout atoms.
pub fn atoms_total_width(input: &str) -> (r: usize)
    requires
        input@.len() <= usize::MAX / 2,
    ensures
        r == sum_measured(atoms_of(input@)),
{
    let parts = atoms(input);
    let ghost pv = views_of(parts@);
    let mut total: usize = 0;
    let mut i: usize = 0;
    proof {
        assert(pv.take(0) =~= Seq::<Seq<char>>::empty());
    }
    while i < parts.len()
        invariant
            i <= parts@.len(),
            pv == views_of(parts@),
            concat_all(pv) == input@,
            input@.len() <= usize::MAX / 2,
            total == sum_measured(pv.take(i as int)),
            total <= 2 * concat_all(pv.take(i as int)).len(),
        decreases parts@.len() - i,
    {
        let w = measured_width(parts[i].as_str());
        proof {
            assert(pv.take(i + 1) =~= pv.take(i as int).push(pv[i as int]));
            lemma_sum_measured_push(pv.take(i as int), pv[i as int]);
            lemma_concat_all_push(pv.take(i as int), pv[i as int]);
            lemma_concat_all_split(pv, i + 1);
            assert(concat_all(pv) =~= concat_all(pv.take(i + 1)) + concat_all(pv.skip(i + 1)));
            assert(concat_all(pv.take(i + 1)).len() <= input@.len());
        }
        total = total + w;
        i += 1;
    }
    proof {
        assert(pv.take(parts@.len() as int) =~= pv);
    }
    total
}

} // verus!
