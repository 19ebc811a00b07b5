//! The descriptor orderer: a deterministic processing order, ascending
//! by `start` offset. The order is an access-pattern aid only — the
//! decoded values are the same whatever the order, which
//! [`crate::laws`] proves.

use vstd::prelude::*;
use vstd::seq_lib::group_to_multiset_ensures;

use crate::desc::TensorDescriptor;
use crate::header::names_unique;
use crate::reader::entries_model;

verus! {

/// Entries stand in ascending order of their `start` offset.
pub open spec fn sorted_by_start(s: Seq<(String, TensorDescriptor)>) -> bool {
    forall|i: int, j: int| 0 <= i < j < s.len() ==> s[i].1.start <= s[j].1.start
}

/// Orders the descriptor table by ascending `start` offset: the same
/// entries (as a multiset), sorted, with tensor names staying
/// pairwise distinct.
pub fn order_by_start(entries: Vec<(String, TensorDescriptor)>) -> (r: Vec<
    (String, TensorDescriptor),
>)
    ensures
        sorted_by_start(r@),
        r@.to_multiset() == entries@.to_multiset(),
        names_unique(entries@) ==> names_unique(r@),
{
    broadcast use group_to_multiset_ensures;

    let ghost input = entries@;
    let mut rest = entries;
    let mut out: Vec<(String, TensorDescriptor)> = Vec::new();
    while rest.len() > 0
        invariant
            out@.to_multiset().add(rest@.to_multiset()) == input.to_multiset(),
            sorted_by_start(out@),
            forall|p: int, q: int|
                0 <= p < out@.len() && 0 <= q < rest@.len() ==> out@[p].1.start
                    <= rest@[q].1.start,
        decreases rest@.len(),
    {
        let mut m: usize = 0;
        let mut j: usize = 1;
        while j < rest.len()
            invariant
                rest@.len() > 0,
                m < j,
                j <= rest@.len(),
                forall|k: int| 0 <= k < j ==> rest@[m as int].1.start <= rest@[k].1.start,
            decreases rest@.len() - j,
        {
            if rest[j].1.start < rest[m].1.start {
                m = j;
            }
            j = j + 1;
        }
        let ghost rest_before = rest@;
        let e = rest.remove(m);
        proof {
            rest_before.to_multiset_ensures();
            out@.to_multiset_ensures();
            assert(rest_before.contains(e));
            assert(rest@ == rest_before.remove(m as int));
            assert(rest_before.remove(m as int).to_multiset() =~= rest_before.to_multiset().remove(
                e,
            ));
            assert(out@.push(e).to_multiset() =~= out@.to_multiset().insert(e));
            assert(rest_before.to_multiset().count(e) > 0);
            assert(out@.push(e).to_multiset().add(rest@.to_multiset()) =~= out@.to_multiset().add(
                rest_before.to_multiset(),
            ));
        }
        out.push(e);
    }
    proof {
        assert(out@.to_multiset() =~= input.to_multiset());
        if names_unique(input) {
            crate::laws::lemma_model_multiset(input, out@);
            assert(crate::reader::unique_names(entries_model(input))) by {
                assert(forall|p: int|
                    0 <= p < input.len() ==> #[trigger] entries_model(input)[p] == (
                    input[p].0@,
                    input[p].1@,
                ));
            }
            crate::laws::lemma_permutation_keeps_unique_names(
                entries_model(input),
                entries_model(out@),
            );
            assert forall|i: int, j: int| 0 <= i < j < out@.len() implies out@[i].0@
                != out@[j].0@ by {
                assert(entries_model(out@)[i] == (out@[i].0@, out@[i].1@));
                assert(entries_model(out@)[j] == (out@[j].0@, out@[j].1@));
                assert(entries_model(out@)[i].0 != entries_model(out@)[j].0);
            }
        }
    }
    out
}

} // verus!
