//! The reader: composes header parsing, ordering and the parallel
//! decode fan-out, and aggregates the per-tensor outcomes —
//! collect-all semantics, so one tensor's failure never disturbs its
//! siblings.

use vstd::prelude::*;

use rayon::iter::{IntoParallelRefIterator, ParallelIterator};

use crate::bytes::le64;
use crate::decode::{decode_tensor, result_model, spec_decode_tensor};
use crate::desc::{DescriptorModel, TensorDescriptor};
use crate::error::DecodeError;
use crate::header::{header_of, parse_header, spec_meta_bytes, spec_meta_len};
use crate::json::value_model;
use crate::order::order_by_start;
use crate::tensor::{Tensor, TensorModel};

verus! {

/// The descriptor table as a mathematical association list.
pub open spec fn entries_model(s: Seq<(String, TensorDescriptor)>) -> Seq<
    (Seq<char>, DescriptorModel),
> {
    s.map_values(|p: (String, TensorDescriptor)| (p.0@, p.1@))
}

/// The decoded-tensor list as a mathematical association list.
pub open spec fn tensors_model(s: Seq<(String, Tensor)>) -> Seq<(Seq<char>, TensorModel)> {
    s.map_values(|p: (String, Tensor)| (p.0@, p.1@))
}

/// The failure list as a mathematical association list.
pub open spec fn failures_model(s: Seq<(String, DecodeError)>) -> Seq<(Seq<char>, DecodeError)> {
    s.map_values(|p: (String, DecodeError)| (p.0@, p.1))
}

/// No two entries of an association list carry the same name.
pub open spec fn unique_names<T>(s: Seq<(Seq<char>, T)>) -> bool {
    forall|i: int, j: int| 0 <= i < j < s.len() ==> s[i].0 != s[j].0
}

/// The tensors that decode successfully, in table order, each with
/// its name and decoded value.
pub open spec fn spec_successes(
    data: Seq<u8>,
    n: int,
    es: Seq<(Seq<char>, DescriptorModel)>,
) -> Seq<(Seq<char>, TensorModel)>
    decreases es.len(),
{
    if es.len() == 0 {
        Seq::empty()
    } else {
        let init = spec_successes(data, n, es.drop_last());
        match spec_decode_tensor(data, n, es.last().1) {
            Ok(t) => init.push((es.last().0, t)),
            Err(_) => init,
        }
    }
}

/// The tensors whose decode fails, in table order, each with its name
/// and its own error.
pub open spec fn spec_failures(
    data: Seq<u8>,
    n: int,
    es: Seq<(Seq<char>, DescriptorModel)>,
) -> Seq<(Seq<char>, DecodeError)>
    decreases es.len(),
{
    if es.len() == 0 {
        Seq::empty()
    } else {
        let init = spec_failures(data, n, es.drop_last());
        match spec_decode_tensor(data, n, es.last().1) {
            Ok(_) => init,
            Err(e) => init.push((es.last().0, e)),
        }
    }
}

/// Relies on rayon's `par_iter().map(..).collect()` over an indexed
/// parallel iterator: the closure runs once per entry, on workers that
/// share no mutable state, and the collected vector keeps the input
/// order. The closure itself only calls the verified
/// [`decode_tensor`], so each slot holds exactly what a sequential
/// call would.
#[verifier::external_body]
fn par_decode(data: &Vec<u8>, n: usize, entries: &Vec<(String, TensorDescriptor)>) -> (r: Vec<
    Result<Tensor, DecodeError>,
>)
    requires
        8 + n <= data@.len(),
    ensures
        r@.len() == entries@.len(),
        forall|i: int|
            0 <= i < entries@.len() ==> result_model(r@[i]) == spec_decode_tensor(
                data@,
                n as int,
                entries@[i].1@,
            ),
{
    entries.par_iter().map(|e| decode_tensor(data.as_slice(), n, &e.1)).collect()
}

/// Decodes every entry of the table against the file bytes and splits
/// the outcomes: successes and failures, each in table order — every
/// entry lands in exactly one of the two lists, with its own result.
pub fn decode_entries(data: &Vec<u8>, n: usize, entries: &Vec<(String, TensorDescriptor)>) -> (r: (
    Vec<(String, Tensor)>,
    Vec<(String, DecodeError)>,
))
    requires
        8 + n <= data@.len(),
    ensures
        tensors_model(r.0@) == spec_successes(data@, n as int, entries_model(entries@)),
        failures_model(r.1@) == spec_failures(data@, n as int, entries_model(entries@)),
{
    let mut results: Vec<Result<Tensor, DecodeError>> = par_decode(data, n, entries);
    let ghost all = results@;
    let ghost em = entries_model(entries@);
    let mut tensors: Vec<(String, Tensor)> = Vec::new();
    let mut failures: Vec<(String, DecodeError)> = Vec::new();
    let mut i: usize = 0;
    while i < entries.len()
        invariant
            i <= entries@.len(),
            all.len() == entries@.len(),
            em == entries_model(entries@),
            em.len() == entries@.len(),
            results@ == all.subrange(i as int, all.len() as int),
            forall|k: int|
                0 <= k < entries@.len() ==> result_model(all[k]) == spec_decode_tensor(
                    data@,
                    n as int,
                    entries@[k].1@,
                ),
            tensors_model(tensors@) == spec_successes(data@, n as int, em.subrange(0, i as int)),
            failures_model(failures@) == spec_failures(data@, n as int, em.subrange(0, i as int)),
        decreases entries@.len() - i,
    {
        let res: Result<Tensor, DecodeError> = results.remove(0);
        let name: String = entries[i].0.clone();
        proof {
            assert(res == all[i as int]);
            assert(results@ =~= all.subrange(i + 1, all.len() as int));
            assert(em.subrange(0, i + 1).drop_last() =~= em.subrange(0, i as int));
            assert(em.subrange(0, i + 1).last() == em[i as int]);
            assert(em[i as int] == (entries@[i as int].0@, entries@[i as int].1@));
        }
        match res {
            Ok(t) => {
                tensors.push((name, t));
                proof {
                    assert(tensors_model(tensors@) =~= spec_successes(
                        data@,
                        n as int,
                        em.subrange(0, i + 1),
                    ));
                }
            },
            Err(e) => {
                failures.push((name, e));
                proof {
                    assert(failures_model(failures@) =~= spec_failures(
                        data@,
                        n as int,
                        em.subrange(0, i + 1),
                    ));
                }
            },
        }
        i = i + 1;
    }
    proof {
        assert(em.subrange(0, em.len() as int) =~= em);
    }
    (tensors, failures)
}

/// Everything a decoded reader promises about itself: its tensors and
/// failures are exactly the collect-all decode of one uniquely-named
/// descriptor table against the file bytes, with `n` the metadata
/// length the file itself declares.
pub open spec fn decode_outcome(
    data: Seq<u8>,
    es: Seq<(Seq<char>, DescriptorModel)>,
    tensors: Seq<(Seq<char>, TensorModel)>,
    fails: Seq<(Seq<char>, DecodeError)>,
) -> bool {
    let n = le64(data.subrange(0, 8)) as int;
    &&& unique_names(es)
    &&& forall|i: int| 0 <= i < es.len() ==> #[trigger] es[i].1.start >= 0 && es[i].1.end >= 0
    &&& forall|i: int, j: int| 0 <= i < j < es.len() ==> es[i].1.start <= es[j].1.start
    &&& tensors == spec_successes(data, n, es)
    &&& fails == spec_failures(data, n, es)
}

/// The final aggregate: the opaque metadata value, the decoded
/// tensors, and the per-tensor failures. Immutable after
/// construction.
pub struct Reader {
    pub metadata: Option<serde_json::Value>,
    pub tensors: Vec<(String, Tensor)>,
    pub failures: Vec<(String, DecodeError)>,
}

impl Reader {
    /// Decodes a whole container image: header, ordering, parallel
    /// per-tensor decode, aggregation.
    ///
    /// Header-level failures are returned as `Err`, each pinned
    /// exactly: the two truncation errors by the length checks alone,
    /// `MalformedMetadataError` by the metadata bytes not declaring a
    /// header. On `Ok`, the metadata value is the one the metadata
    /// bytes carry under the reserved key, passed through verbatim,
    /// and the tensors and failures are the collect-all decode of a
    /// by-start-sorted permutation of exactly the descriptor table
    /// those bytes declare.
    pub fn from_bytes(data: &Vec<u8>) -> (r: Result<Reader, DecodeError>)
        ensures
            r matches Err(e) ==> (e == DecodeError::TruncatedHeaderError || e
                == DecodeError::TruncatedMetadataError || e == DecodeError::MalformedMetadataError),
            (r matches Err(e) && e == DecodeError::TruncatedHeaderError) <==> data@.len() < 8,
            (r matches Err(e) && e == DecodeError::TruncatedMetadataError) <==> (data@.len() >= 8
                && data@.len() - 8 < spec_meta_len(data@)),
            (r matches Err(e) && e == DecodeError::MalformedMetadataError) <==> (data@.len() >= 8
                && data@.len() - 8 >= spec_meta_len(data@) && header_of(
                spec_meta_bytes(data@),
            ) is None),
            r is Ok <==> (data@.len() >= 8 && data@.len() - 8 >= spec_meta_len(data@) && header_of(
                spec_meta_bytes(data@),
            ) is Some),
            r matches Ok(reader) ==> match header_of(spec_meta_bytes(data@)) {
                Some((mv, t)) => {
                    &&& (reader.metadata is Some <==> mv is Some)
                    &&& (reader.metadata matches Some(v) ==> mv == Some(value_model(v)))
                    &&& exists|es: Seq<(Seq<char>, DescriptorModel)>|
                        #[trigger] decode_outcome(
                            data@,
                            es,
                            tensors_model(reader.tensors@),
                            failures_model(reader.failures@),
                        ) && es.to_multiset() == t.to_multiset()
                },
                None => false,
            },
    {
        let header = match parse_header(data) {
            Err(e) => { return Err(e) },
            Ok(h) => h,
        };
        let n: usize = header.n;
        let ghost table = header.entries@;
        let sorted: Vec<(String, TensorDescriptor)> = order_by_start(header.entries);
        let (tensors, failures) = decode_entries(data, n, &sorted);
        let reader = Reader { metadata: header.metadata, tensors, failures };
        proof {
            let es = entries_model(sorted@);
            assert(forall|i: int| 0 <= i < es.len() ==> es[i] == (sorted@[i].0@, sorted@[i].1@));
            assert(unique_names(es));
            assert(forall|i: int, j: int|
                0 <= i < j < es.len() ==> es[i].1.start <= es[j].1.start);
            assert(decode_outcome(
                data@,
                es,
                tensors_model(reader.tensors@),
                failures_model(reader.failures@),
            ));
            crate::laws::lemma_model_multiset(sorted@, table);
            match header_of(spec_meta_bytes(data@)) {
                Some((mv, t)) => {
                    assert(entries_model(table) == t);
                    assert(es.to_multiset() == t.to_multiset());
                },
                None => {
                    assert(false);
                },
            }
        }
        Ok(reader)
    }
}

} // verus!
