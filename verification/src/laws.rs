//! Laws of the decode pipeline, each proved once and for all: what a
//! decoded tensor guarantees about itself, that the collect-all
//! aggregation loses no entry, and that the processing order cannot
//! change the result.

use vstd::prelude::*;
use vstd::seq_lib::group_to_multiset_ensures;

use crate::decode::{shape_product, spec_decode_tensor};
use crate::desc::{DescriptorModel, TensorDescriptor};
use crate::dtype::{dtype_of, Dtype};
use crate::error::DecodeError;
use crate::reader::{entries_model, spec_failures, spec_successes, unique_names};
use crate::tensor::TensorModel;

verus! {

/// Some entry of the association list carries this name.
pub open spec fn list_has_name<T>(s: Seq<(Seq<char>, T)>, name: Seq<char>) -> bool {
    exists|i: int| 0 <= i < s.len() && s[i].0 == name
}

/// The value the association list carries under this name.
pub open spec fn list_value<T>(s: Seq<(Seq<char>, T)>, name: Seq<char>) -> T
    recommends
        list_has_name(s, name),
{
    s[choose|i: int| 0 <= i < s.len() && s[i].0 == name].1
}

/// What the pipeline yields for one tensor name: `None` when the
/// table does not declare it, otherwise that descriptor's own decode
/// outcome.
pub open spec fn spec_result_for(
    data: Seq<u8>,
    n: int,
    es: Seq<(Seq<char>, DescriptorModel)>,
    name: Seq<char>,
) -> Option<Result<TensorModel, DecodeError>> {
    if list_has_name(es, name) {
        Some(spec_decode_tensor(data, n, list_value(es, name)))
    } else {
        None
    }
}

/// In a uniquely-named list, the value under a name is the value at
/// any index that carries the name.
pub proof fn lemma_list_value_at<T>(s: Seq<(Seq<char>, T)>, name: Seq<char>, i: int)
    requires
        unique_names(s),
        0 <= i < s.len(),
        s[i].0 == name,
    ensures
        list_has_name(s, name),
        list_value(s, name) == s[i].1,
{
    assert(list_has_name(s, name));
    let j = choose|j: int| 0 <= j < s.len() && s[j].0 == name;
    assert(j == i);
}

/// Law: a tensor that decodes successfully carries the declared
/// shape verbatim, the declared dtype, and exactly
/// `(end - start) / width` elements — for `U8` exactly `end - start`
/// bytes (the consistent exclusive-end convention) — and that count
/// equals the product of the declared shape.
pub proof fn lemma_decoded_tensor_wf(data: Seq<u8>, n: int, d: DescriptorModel, t: TensorModel)
    requires
        n >= 0,
        d.start >= 0,
        spec_decode_tensor(data, n, d) == Ok::<TensorModel, DecodeError>(t),
    ensures
        t.shape() == d.shape,
        dtype_of(d.dtype) == Some(t.dtype()),
        t.element_count() * t.dtype().spec_width() == d.end - d.start,
        t.element_count() == shape_product(d.shape),
{
    let dt = match dtype_of(d.dtype) {
        Some(dt) => dt,
        None => arbitrary(),
    };
    let w = dt.spec_width() as int;
    let len = d.end - d.start;
    assert(len % w == 0);
    assert(len / w * w == len) by (nonlinear_arith)
        requires
            w > 0,
            len >= 0,
            len % w == 0,
    ;
    let raw = data.subrange(8 + n + d.start, 8 + n + d.end);
    assert(raw.len() == len);
    match dt {
        Dtype::U8 => {
            assert(t.element_count() == len);
        },
        Dtype::F16 => {
            assert(t.element_count() == raw.len() / 2);
        },
        Dtype::Bf16 => {
            assert(t.element_count() == raw.len() / 2);
        },
        Dtype::F32 => {
            assert(t.element_count() == raw.len() / 4);
        },
    }
}

/// Law: a misaligned byte range on a multi-byte dtype fails with
/// `AlignmentError` — never a silent truncation.
pub proof fn lemma_misaligned_range_fails(data: Seq<u8>, n: int, d: DescriptorModel, dt: Dtype)
    requires
        d.start <= d.end,
        dtype_of(d.dtype) == Some(dt),
        dt.spec_width() >= 2,
        (d.end - d.start) % (dt.spec_width() as int) != 0,
    ensures
        spec_decode_tensor(data, n, d) == Err::<TensorModel, DecodeError>(
            DecodeError::AlignmentError,
        ),
{
}

/// Law: an unrecognized dtype string fails with
/// `UnsupportedDtypeError`, whatever the rest of the descriptor says
/// of a valid range.
pub proof fn lemma_unsupported_dtype_fails(data: Seq<u8>, n: int, d: DescriptorModel)
    requires
        d.start <= d.end,
        dtype_of(d.dtype) is None,
    ensures
        spec_decode_tensor(data, n, d) == Err::<TensorModel, DecodeError>(
            DecodeError::UnsupportedDtypeError,
        ),
{
}

/// Law: the aggregation loses no entry and invents none — every
/// table entry lands in exactly one of the two lists, the lists'
/// names stay pairwise distinct and come from the table, and the
/// counts add up.
pub proof fn lemma_collect_all_partition(
    data: Seq<u8>,
    n: int,
    es: Seq<(Seq<char>, DescriptorModel)>,
)
    requires
        unique_names(es),
    ensures
        spec_successes(data, n, es).len() + spec_failures(data, n, es).len() == es.len(),
        unique_names(spec_successes(data, n, es)),
        unique_names(spec_failures(data, n, es)),
        forall|p: int|
            0 <= p < spec_successes(data, n, es).len() ==> #[trigger] list_has_name(
                es,
                spec_successes(data, n, es)[p].0,
            ),
        forall|p: int|
            0 <= p < spec_failures(data, n, es).len() ==> #[trigger] list_has_name(
                es,
                spec_failures(data, n, es)[p].0,
            ),
    decreases es.len(),
{
    if es.len() > 0 {
        let init = es.drop_last();
        let succ = spec_successes(data, n, es);
        let fail = spec_failures(data, n, es);
        let succ0 = spec_successes(data, n, init);
        let fail0 = spec_failures(data, n, init);
        lemma_collect_all_partition(data, n, init);
        assert(forall|name: Seq<char>|
            #[trigger] list_has_name(init, name) ==> list_has_name(es, name)) by {
            assert(forall|i: int| 0 <= i < init.len() ==> init[i] == es[i]);
        }
        assert(list_has_name(es, es.last().0)) by {
            assert(es[es.len() - 1].0 == es.last().0);
        }
        assert(!list_has_name(init, es.last().0));
        assert(forall|p: int| 0 <= p < succ0.len() ==> #[trigger] succ0[p].0 != es.last().0) by {
            assert(forall|p: int|
                0 <= p < succ0.len() ==> #[trigger] list_has_name(init, succ0[p].0));
        }
        assert(forall|p: int| 0 <= p < fail0.len() ==> #[trigger] fail0[p].0 != es.last().0) by {
            assert(forall|p: int|
                0 <= p < fail0.len() ==> #[trigger] list_has_name(init, fail0[p].0));
        }
        match spec_decode_tensor(data, n, es.last().1) {
            Ok(t) => {
                assert(succ == succ0.push((es.last().0, t)));
                assert(fail == fail0);
                assert forall|p: int| 0 <= p < succ.len() implies #[trigger] list_has_name(
                    es,
                    succ[p].0,
                ) by {
                    if p < succ0.len() {
                        assert(succ[p] == succ0[p]);
                        assert(list_has_name(init, succ0[p].0));
                    } else {
                        assert(succ[p].0 == es.last().0);
                    }
                }
                assert forall|p: int| 0 <= p < fail.len() implies #[trigger] list_has_name(
                    es,
                    fail[p].0,
                ) by {
                    assert(fail[p] == fail0[p]);
                    assert(list_has_name(init, fail0[p].0));
                }
            },
            Err(e) => {
                assert(fail == fail0.push((es.last().0, e)));
                assert(succ == succ0);
                assert forall|p: int| 0 <= p < fail.len() implies #[trigger] list_has_name(
                    es,
                    fail[p].0,
                ) by {
                    if p < fail0.len() {
                        assert(fail[p] == fail0[p]);
                        assert(list_has_name(init, fail0[p].0));
                    } else {
                        assert(fail[p].0 == es.last().0);
                    }
                }
                assert forall|p: int| 0 <= p < succ.len() implies #[trigger] list_has_name(
                    es,
                    succ[p].0,
                ) by {
                    assert(succ[p] == succ0[p]);
                    assert(list_has_name(init, succ0[p].0));
                }
            },
        }
    }
}

/// Law: what the pipeline yields under each name, success or
/// failure, is exactly that name's own decode outcome against the
/// table.
pub proof fn lemma_result_for_name(
    data: Seq<u8>,
    n: int,
    es: Seq<(Seq<char>, DescriptorModel)>,
    name: Seq<char>,
)
    requires
        unique_names(es),
    ensures
        list_has_name(spec_successes(data, n, es), name) <==> (list_has_name(es, name)
            && spec_result_for(data, n, es, name) == Some(
            Ok::<TensorModel, DecodeError>(list_value(spec_successes(data, n, es), name)),
        )),
        list_has_name(spec_failures(data, n, es), name) <==> (list_has_name(es, name)
            && spec_result_for(data, n, es, name) == Some(
            Err::<TensorModel, DecodeError>(list_value(spec_failures(data, n, es), name)),
        )),
        list_has_name(es, name) ==> (list_has_name(spec_successes(data, n, es), name)
            || list_has_name(spec_failures(data, n, es), name)),
    decreases es.len(),
{
    lemma_collect_all_partition(data, n, es);
    if es.len() > 0 {
        let init = es.drop_last();
        let last = es.last();
        lemma_result_for_name(data, n, init, name);
        lemma_collect_all_partition(data, n, init);
        let succ = spec_successes(data, n, es);
        let fail = spec_failures(data, n, es);
        let succ0 = spec_successes(data, n, init);
        let fail0 = spec_failures(data, n, init);
        if last.0 == name {
            assert(!list_has_name(init, name));
            assert(forall|p: int| 0 <= p < succ0.len() ==> succ0[p].0 != name) by {
                assert(forall|p: int|
                    0 <= p < succ0.len() ==> #[trigger] list_has_name(init, succ0[p].0));
            }
            assert(forall|p: int| 0 <= p < fail0.len() ==> fail0[p].0 != name) by {
                assert(forall|p: int|
                    0 <= p < fail0.len() ==> #[trigger] list_has_name(init, fail0[p].0));
            }
            assert(!list_has_name(succ0, name));
            assert(!list_has_name(fail0, name));
            lemma_list_value_at(es, name, es.len() - 1);
            match spec_decode_tensor(data, n, last.1) {
                Ok(t) => {
                    lemma_list_value_at(succ, name, succ.len() - 1);
                    assert(!list_has_name(fail, name));
                },
                Err(e) => {
                    lemma_list_value_at(fail, name, fail.len() - 1);
                    assert(!list_has_name(succ, name));
                },
            }
        } else {
            // The last entry carries another name: nothing changes
            // for this one.
            assert(list_has_name(es, name) <==> list_has_name(init, name)) by {
                if list_has_name(es, name) {
                    let i = choose|i: int| 0 <= i < es.len() && es[i].0 == name;
                    assert(i < init.len() && init[i] == es[i]);
                }
            }
            if list_has_name(init, name) {
                let i = choose|i: int| 0 <= i < init.len() && init[i].0 == name;
                lemma_list_value_at(init, name, i);
                lemma_list_value_at(es, name, i);
            }
            match spec_decode_tensor(data, n, last.1) {
                Ok(t) => {
                    assert(succ == succ0.push((last.0, t)));
                    assert(list_has_name(succ, name) <==> list_has_name(succ0, name)) by {
                        if list_has_name(succ, name) {
                            let i = choose|i: int| 0 <= i < succ.len() && succ[i].0 == name;
                            assert(succ[succ.len() - 1].0 == last.0);
                            assert(i < succ0.len() && succ0[i] == succ[i]);
                        }
                        if list_has_name(succ0, name) {
                            let i = choose|i: int| 0 <= i < succ0.len() && succ0[i].0 == name;
                            assert(succ[i] == succ0[i]);
                        }
                    }
                    if list_has_name(succ0, name) {
                        let i = choose|i: int| 0 <= i < succ0.len() && succ0[i].0 == name;
                        lemma_list_value_at(succ0, name, i);
                        assert(succ[i] == succ0[i]);
                        lemma_list_value_at(succ, name, i);
                    }
                    assert(fail == fail0);
                },
                Err(e) => {
                    assert(fail == fail0.push((last.0, e)));
                    assert(list_has_name(fail, name) <==> list_has_name(fail0, name)) by {
                        if list_has_name(fail, name) {
                            let i = choose|i: int| 0 <= i < fail.len() && fail[i].0 == name;
                            assert(fail[fail.len() - 1].0 == last.0);
                            assert(i < fail0.len() && fail0[i] == fail[i]);
                        }
                        if list_has_name(fail0, name) {
                            let i = choose|i: int| 0 <= i < fail0.len() && fail0[i].0 == name;
                            assert(fail[i] == fail0[i]);
                        }
                    }
                    if list_has_name(fail0, name) {
                        let i = choose|i: int| 0 <= i < fail0.len() && fail0[i].0 == name;
                        lemma_list_value_at(fail0, name, i);
                        assert(fail[i] == fail0[i]);
                        lemma_list_value_at(fail, name, i);
                    }
                    assert(succ == succ0);
                },
            }
        }
    }
}

/// Law: every tensor a decoded reader exposes sits in the table under
/// its own name and carries the shape its descriptor declared —
/// re-deriving shapes from descriptors yields exactly the shapes the
/// reader holds.
pub proof fn lemma_reader_shapes_declared(
    data: Seq<u8>,
    es: Seq<(Seq<char>, DescriptorModel)>,
    tensors: Seq<(Seq<char>, TensorModel)>,
    fails: Seq<(Seq<char>, DecodeError)>,
    p: int,
)
    requires
        crate::reader::decode_outcome(data, es, tensors, fails),
        0 <= p < tensors.len(),
    ensures
        list_has_name(es, tensors[p].0),
        tensors[p].1.shape() == list_value(es, tensors[p].0).shape,
        tensors.len() + fails.len() == es.len(),
{
    let n = crate::bytes::le64(data.subrange(0, 8)) as int;
    let name = tensors[p].0;
    lemma_collect_all_partition(data, n, es);
    lemma_list_value_at(tensors, name, p);
    lemma_result_for_name(data, n, es, name);
    let d = list_value(es, name);
    let i = choose|i: int| 0 <= i < es.len() && es[i].0 == name;
    lemma_list_value_at(es, name, i);
    lemma_decoded_tensor_wf(data, n, d, tensors[p].1);
}

/// Law: when every entry of a uniquely-named table decodes
/// successfully, the pipeline yields exactly one tensor per entry and
/// no failures — each under its own name, in table order, with its
/// own decode value.
pub proof fn lemma_all_ok_decodes_all(
    data: Seq<u8>,
    n: int,
    es: Seq<(Seq<char>, DescriptorModel)>,
)
    requires
        unique_names(es),
        forall|i: int| 0 <= i < es.len() ==> #[trigger] spec_decode_tensor(data, n, es[i].1) is Ok,
    ensures
        spec_successes(data, n, es).len() == es.len(),
        spec_failures(data, n, es).len() == 0,
        forall|i: int|
            0 <= i < es.len() ==> #[trigger] spec_successes(data, n, es)[i].0 == es[i].0
                && spec_decode_tensor(data, n, es[i].1) == Ok::<TensorModel, DecodeError>(
                spec_successes(data, n, es)[i].1,
            ),
    decreases es.len(),
{
    if es.len() > 0 {
        let init = es.drop_last();
        assert(forall|i: int| 0 <= i < init.len() ==> init[i] == es[i]);
        lemma_all_ok_decodes_all(data, n, init);
        let succ = spec_successes(data, n, es);
        let succ0 = spec_successes(data, n, init);
        match spec_decode_tensor(data, n, es.last().1) {
            Ok(t) => {
                assert(succ == succ0.push((es.last().0, t)));
                assert(forall|i: int| 0 <= i < init.len() ==> #[trigger] succ[i] == succ0[i]);
                assert(succ[es.len() - 1] == (es.last().0, t));
            },
            Err(_) => {
                assert(spec_decode_tensor(data, n, es[es.len() - 1].1) is Ok);
                assert(false);
            },
        }
    }
}

/// Mapping a descriptor table to its model preserves permutation: two
/// tables holding the same entries have model lists holding the same
/// entries.
pub proof fn lemma_model_multiset(
    a: Seq<(String, TensorDescriptor)>,
    b: Seq<(String, TensorDescriptor)>,
)
    requires
        a.to_multiset() == b.to_multiset(),
    ensures
        entries_model(a).to_multiset() == entries_model(b).to_multiset(),
    decreases a.len(),
{
    broadcast use group_to_multiset_ensures;
    broadcast use vstd::multiset::group_multiset_axioms;

    a.to_multiset_ensures();
    b.to_multiset_ensures();
    if a.len() == 0 {
        assert(a.to_multiset().len() == 0);
        assert(b.to_multiset().len() == b.len());
        assert(b.len() == 0);
        assert(entries_model(a) =~= entries_model(b));
    } else {
        let x = a.last();
        assert(a[a.len() - 1] == x);
        assert(a.contains(x));
        assert(b.to_multiset().count(x) > 0);
        assert(b.contains(x));
        let j = choose|j: int| 0 <= j < b.len() && b[j] == x;
        assert(a.remove(a.len() - 1) =~= a.drop_last());
        assert(a.remove(a.len() - 1).to_multiset() == a.to_multiset().remove(x));
        assert(b.remove(j).to_multiset() == b.to_multiset().remove(x));
        lemma_model_multiset(a.drop_last(), b.remove(j));
        let fa = entries_model(a);
        let fb = entries_model(b);
        assert(entries_model(a.drop_last()) =~= fa.drop_last());
        assert(entries_model(b.remove(j)) =~= fb.remove(j));
        assert(fa.remove(fa.len() - 1) =~= fa.drop_last());
        assert(fa.remove(fa.len() - 1).to_multiset() == fa.to_multiset().remove(fa[fa.len() - 1]));
        assert(fb.remove(j).to_multiset() == fb.to_multiset().remove(fb[j]));
        fa.to_multiset_ensures();
        fb.to_multiset_ensures();
        assert(fa[fa.len() - 1] == fb[j]);
        assert(fa.contains(fa[fa.len() - 1]));
        assert(fb.contains(fb[j]));
        assert(fa.to_multiset().count(fa[fa.len() - 1]) > 0);
        assert(fb.to_multiset().count(fb[j]) > 0);
        assert(fa.drop_last().to_multiset() == fb.remove(j).to_multiset());
        assert(fa.to_multiset().remove(fb[j]) == fb.to_multiset().remove(fb[j]));
        assert forall|e: (Seq<char>, DescriptorModel)|
            fa.to_multiset().count(e) == fb.to_multiset().count(e) by {
            assert(fa.to_multiset().remove(fb[j]).count(e) == fb.to_multiset().remove(
                fb[j],
            ).count(e));
        }
        assert(fa.to_multiset() =~= fb.to_multiset());
    }
}

/// A permutation of a uniquely-named association list is uniquely
/// named too.
pub proof fn lemma_permutation_keeps_unique_names<T>(
    a: Seq<(Seq<char>, T)>,
    b: Seq<(Seq<char>, T)>,
)
    requires
        a.to_multiset() == b.to_multiset(),
        unique_names(a),
    ensures
        unique_names(b),
{
    broadcast use group_to_multiset_ensures;

    assert forall|i: int, j: int| 0 <= i < j < b.len() implies b[i].0 != b[j].0 by {
        if b[i].0 == b[j].0 {
            if b[i] == b[j] {
                let x = b[i];
                assert(b.remove(j).to_multiset() == b.to_multiset().remove(x));
                assert(b.remove(j)[i] == x);
                assert(b.remove(j).contains(x));
                assert(b.to_multiset().remove(x).count(x) > 0);
                assert(a.to_multiset().count(x) >= 2);
                assert(a.contains(x));
                let i2 = choose|k: int| 0 <= k < a.len() && a[k] == x;
                assert(a.remove(i2).to_multiset() == a.to_multiset().remove(x));
                assert(a.remove(i2).to_multiset().count(x) > 0);
                assert(a.remove(i2).contains(x));
                let k2 = choose|k: int| 0 <= k < a.remove(i2).len() && a.remove(i2)[k] == x;
                let j2 = if k2 < i2 { k2 } else { k2 + 1 };
                assert(a[j2] == x);
                assert(j2 != i2);
                assert(a[i2].0 == a[j2].0);
            } else {
                assert(b.contains(b[i]) && b.contains(b[j]));
                assert(a.to_multiset().count(b[i]) > 0 && a.to_multiset().count(b[j]) > 0);
                assert(a.contains(b[i]) && a.contains(b[j]));
                let i2 = choose|k: int| 0 <= k < a.len() && a[k] == b[i];
                let j2 = choose|k: int| 0 <= k < a.len() && a[k] == b[j];
                assert(i2 != j2);
                assert(a[i2].0 == a[j2].0);
            }
        }
    }
}

/// Law: processing order cannot change the result. Two descriptor
/// tables that hold the same entries — one any permutation of the
/// other, names unique — yield the same outcome for every tensor
/// name.
pub proof fn lemma_order_independence(
    data: Seq<u8>,
    n: int,
    e1: Seq<(Seq<char>, DescriptorModel)>,
    e2: Seq<(Seq<char>, DescriptorModel)>,
)
    requires
        e1.to_multiset() == e2.to_multiset(),
        unique_names(e1),
    ensures
        unique_names(e2),
        forall|name: Seq<char>| #[trigger]
            spec_result_for(data, n, e1, name) == spec_result_for(data, n, e2, name),
{
    broadcast use group_to_multiset_ensures;

    lemma_permutation_keeps_unique_names(e1, e2);
    assert forall|name: Seq<char>| #[trigger]
        spec_result_for(data, n, e1, name) == spec_result_for(data, n, e2, name) by {
        if list_has_name(e1, name) {
            let i = choose|i: int| 0 <= i < e1.len() && e1[i].0 == name;
            let x = e1[i];
            assert(e1.contains(x));
            assert(e2.to_multiset().count(x) > 0);
            assert(e2.contains(x));
            let j = choose|j: int| 0 <= j < e2.len() && e2[j] == x;
            lemma_list_value_at(e1, name, i);
            lemma_list_value_at(e2, name, j);
        } else {
            if list_has_name(e2, name) {
                let j = choose|j: int| 0 <= j < e2.len() && e2[j].0 == name;
                let x = e2[j];
                assert(e2.contains(x));
                assert(e1.to_multiset().count(x) > 0);
                assert(e1.contains(x));
                let i = choose|i: int| 0 <= i < e1.len() && e1[i] == x;
                assert(list_has_name(e1, name));
            }
        }
    }
}

} // verus!
