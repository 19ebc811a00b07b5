//! The header parser: the 8-byte little-endian length prefix, then
//! the JSON metadata block, yielding the opaque reserved-key value and
//! the raw descriptor table — each tied to the metadata bytes through
//! the JSON model of `crate::json_model`.

use vstd::prelude::*;

use crate::bytes::{le64, read_u64_le};
use crate::desc::{DescriptorModel, TensorDescriptor};
use crate::error::DecodeError;
use crate::json::{clone_value, json_of, obj_entries, parse_json, val_str, value_model};
use crate::json_model::{
    desc_of, field_of, fields_model, items_model, meta_of, nums_of, table_of, usize_array_of,
    JsonModel,
};
use crate::reader::entries_model;

verus! {

/// No two entries of the table declare the same tensor name.
pub open spec fn names_unique(entries: Seq<(String, TensorDescriptor)>) -> bool {
    forall|i: int, j: int| 0 <= i < j < entries.len() ==> entries[i].0@ != entries[j].0@
}

/// The metadata length the file's first 8 bytes declare.
pub open spec fn spec_meta_len(data: Seq<u8>) -> int {
    le64(data.subrange(0, 8)) as int
}

/// The metadata block: the `spec_meta_len` bytes after the prefix.
pub open spec fn spec_meta_bytes(data: Seq<u8>) -> Seq<u8> {
    data.subrange(8, 8 + spec_meta_len(data))
}

/// What the metadata bytes declare: `None` unless they parse as a
/// JSON object whose every non-reserved entry is a well-shaped
/// descriptor; otherwise the reserved `__metadata__` value (if any)
/// and the descriptor table, in object order.
pub open spec fn header_of(b: Seq<u8>) -> Option<
    (Option<JsonModel>, Seq<(Seq<char>, DescriptorModel)>),
> {
    match json_of(b) {
        None => None,
        Some(m) => match m {
            JsonModel::Obj(es) => match table_of(es) {
                None => None,
                Some(t) => Some((meta_of(es), t)),
            },
            _ => None,
        },
    }
}

/// What the header parser yields: the metadata block length `n`, the
/// opaque value of the reserved `__metadata__` key (if present,
/// passed through verbatim), and one descriptor per declared tensor
/// name, names pairwise distinct, in the order the JSON object stores
/// them.
pub struct Header {
    pub n: usize,
    pub metadata: Option<serde_json::Value>,
    pub entries: Vec<(String, TensorDescriptor)>,
}

/// Looks a field up in a descriptor's own key/value list: the first
/// entry under that name, exactly as [`field_of`] says.
fn find_field<'a>(fields: &'a Vec<(String, serde_json::Value)>, name: &String) -> (r: Option<
    &'a serde_json::Value,
>)
    ensures
        match r {
            Some(v) => field_of(fields_model(fields@), name@) == Some(value_model(*v)),
            None => field_of(fields_model(fields@), name@) is None,
        },
{
    let ghost fm = fields_model(fields@);
    proof {
        assert(fm.subrange(0, fm.len() as int) =~= fm);
    }
    let mut i: usize = 0;
    while i < fields.len()
        invariant
            i <= fields@.len(),
            fm == fields_model(fields@),
            field_of(fm.subrange(i as int, fm.len() as int), name@) == field_of(fm, name@),
        decreases fields@.len() - i,
    {
        proof {
            let suffix = fm.subrange(i as int, fm.len() as int);
            assert(suffix.drop_first() =~= fm.subrange(i + 1, fm.len() as int));
            assert(suffix[0] == fm[i as int]);
        }
        if fields[i].0 == *name {
            return Some(&fields[i].1);
        }
        i = i + 1;
    }
    proof {
        assert(fm.subrange(fm.len() as int, fm.len() as int) =~= Seq::empty());
    }
    None
}

/// Reads a JSON array of non-negative integers that fit the machine,
/// exactly as [`usize_array_of`] says.
fn parse_usize_array(v: &serde_json::Value) -> (r: Option<Vec<usize>>)
    ensures
        match r {
            Some(out) => usize_array_of(value_model(*v)) == Some(out@),
            None => usize_array_of(value_model(*v)) is None,
        },
{
    let items: Vec<serde_json::Value> = match crate::json::val_items(v) {
        None => { return None },
        Some(it) => it,
    };
    let ghost im = items_model(items@);
    let mut out: Vec<usize> = Vec::new();
    let mut bad: bool = false;
    let mut i: usize = 0;
    while i < items.len()
        invariant
            i <= items@.len(),
            im == items_model(items@),
            value_model(*v) == JsonModel::Arr(im),
            !bad ==> nums_of(im.subrange(0, i as int)) == Some(out@),
            bad ==> nums_of(im.subrange(0, i as int)) is None,
        decreases items@.len() - i,
    {
        proof {
            assert(im.subrange(0, i + 1).drop_last() =~= im.subrange(0, i as int));
            assert(im.subrange(0, i + 1).last() == im[i as int]);
        }
        match crate::json::val_u64(&items[i]) {
            None => {
                bad = true;
            },
            Some(x) => {
                if x > usize::MAX as u64 {
                    bad = true;
                } else if !bad {
                    out.push(x as usize);
                }
            },
        }
        i = i + 1;
    }
    proof {
        assert(im.subrange(0, im.len() as int) =~= im);
    }
    if bad {
        None
    } else {
        Some(out)
    }
}

/// Reads one tensor descriptor — an object with `dtype` (string, kept
/// verbatim and judged only at decode time), `shape` (integer array)
/// and `data_offsets` (2-element integer array) — exactly as
/// [`desc_of`] says.
fn parse_descriptor(v: &serde_json::Value) -> (r: Option<TensorDescriptor>)
    ensures
        match r {
            Some(d) => desc_of(value_model(*v)) == Some(d@),
            None => desc_of(value_model(*v)) is None,
        },
{
    let fields: Vec<(String, serde_json::Value)> = match obj_entries(v) {
        None => { return None },
        Some(f) => f,
    };
    let dtype_key: String = "dtype".to_owned();
    let shape_key: String = "shape".to_owned();
    let offsets_key: String = "data_offsets".to_owned();
    let dv: &serde_json::Value = match find_field(&fields, &dtype_key) {
        None => { return None },
        Some(x) => x,
    };
    let dtype: String = match val_str(dv) {
        None => { return None },
        Some(s) => s,
    };
    let sv: &serde_json::Value = match find_field(&fields, &shape_key) {
        None => { return None },
        Some(x) => x,
    };
    let shape: Vec<usize> = match parse_usize_array(sv) {
        None => { return None },
        Some(s) => s,
    };
    let ov: &serde_json::Value = match find_field(&fields, &offsets_key) {
        None => { return None },
        Some(x) => x,
    };
    let offsets: Vec<usize> = match parse_usize_array(ov) {
        None => { return None },
        Some(o) => o,
    };
    if offsets.len() != 2 {
        return None;
    }
    Some(TensorDescriptor { dtype, shape, start: offsets[0], end: offsets[1] })
}

/// Parses the container header out of the whole file image.
///
/// The first 8 bytes are the unsigned 64-bit little-endian metadata
/// length `n`; the next `n` bytes are a JSON object holding the
/// optional reserved `__metadata__` value and one descriptor per
/// tensor name. Each error is pinned exactly: the two truncation
/// errors by the length checks alone, `MalformedMetadataError` by
/// [`header_of`] yielding nothing for the metadata bytes. On `Ok`,
/// the descriptor table and the metadata value are exactly what
/// [`header_of`] derives from those bytes.
pub fn parse_header(data: &Vec<u8>) -> (r: Result<Header, DecodeError>)
    ensures
        (r == Result::<Header, DecodeError>::Err(DecodeError::TruncatedHeaderError)) <==> data@.len() < 8,
        (r == Result::<Header, DecodeError>::Err(DecodeError::TruncatedMetadataError)) <==> (
        data@.len() >= 8 && data@.len() - 8 < spec_meta_len(data@)),
        (r == Result::<Header, DecodeError>::Err(DecodeError::MalformedMetadataError)) <==> (
        data@.len() >= 8 && data@.len() - 8 >= spec_meta_len(data@) && header_of(
            spec_meta_bytes(data@),
        ) is None),
        r is Ok <==> (data@.len() >= 8 && data@.len() - 8 >= spec_meta_len(data@) && header_of(
            spec_meta_bytes(data@),
        ) is Some),
        r matches Err(e) ==> (e == DecodeError::TruncatedHeaderError
            || e == DecodeError::TruncatedMetadataError
            || e == DecodeError::MalformedMetadataError),
        r matches Ok(h) ==> {
            &&& h.n == spec_meta_len(data@)
            &&& 8 + h.n <= data@.len()
            &&& names_unique(h.entries@)
            &&& match header_of(spec_meta_bytes(data@)) {
                Some((mv, t)) => {
                    &&& entries_model(h.entries@) == t
                    &&& (h.metadata is Some <==> mv is Some)
                    &&& (h.metadata matches Some(v) ==> mv == Some(value_model(v)))
                },
                None => false,
            }
        },
{
    if data.len() < 8 {
        return Err(DecodeError::TruncatedHeaderError);
    }
    let n64: u64 = read_u64_le(data.as_slice());
    if n64 > (data.len() - 8) as u64 {
        return Err(DecodeError::TruncatedMetadataError);
    }
    let n: usize = n64 as usize;
    let meta_bytes: &[u8] = vstd::slice::slice_subrange(data.as_slice(), 8, 8 + n);
    proof {
        assert(meta_bytes@ == spec_meta_bytes(data@));
    }
    let top: serde_json::Value = match parse_json(meta_bytes) {
        Err(_) => { return Err(DecodeError::MalformedMetadataError) },
        Ok(v) => v,
    };
    let kvs: Vec<(String, serde_json::Value)> = match obj_entries(&top) {
        None => { return Err(DecodeError::MalformedMetadataError) },
        Some(list) => list,
    };
    let ghost ems = fields_model(kvs@);
    let reserved: String = "__metadata__".to_owned();
    let mut metadata: Option<serde_json::Value> = None;
    let mut entries: Vec<(String, TensorDescriptor)> = Vec::new();
    let mut bad: bool = false;
    let mut i: usize = 0;
    while i < kvs.len()
        invariant
            i <= kvs@.len(),
            ems == fields_model(kvs@),
            ems.len() == kvs@.len(),
            reserved@ == "__metadata__"@,
            forall|p: int, q: int| 0 <= p < q < kvs@.len() ==> kvs@[p].0@ != kvs@[q].0@,
            names_unique(entries@),
            forall|p: int|
                #![trigger entries@[p]]
                0 <= p < entries@.len() ==> exists|j: int|
                    #![trigger kvs@[j]]
                    0 <= j < i && entries@[p].0@ == kvs@[j].0@,
            !bad ==> table_of(ems.subrange(0, i as int)) == Some(entries_model(entries@)),
            bad ==> table_of(ems.subrange(0, i as int)) is None,
            match meta_of(ems.subrange(0, i as int)) {
                None => metadata is None,
                Some(mv) => metadata matches Some(v) && value_model(v) == mv,
            },
        decreases kvs@.len() - i,
    {
        proof {
            assert(ems.subrange(0, i + 1).drop_last() =~= ems.subrange(0, i as int));
            assert(ems.subrange(0, i + 1).last() == ems[i as int]);
            assert(ems[i as int] == (kvs@[i as int].0@, value_model(kvs@[i as int].1)));
        }
        let key_matches: bool = kvs[i].0 == reserved;
        if key_matches {
            metadata = Some(clone_value(&kvs[i].1));
        } else if !bad {
            match parse_descriptor(&kvs[i].1) {
                None => {
                    bad = true;
                },
                Some(d) => {
                    let name: String = kvs[i].0.clone();
                    proof {
                        assert(forall|p: int|
                            0 <= p < entries@.len() ==> entries@[p].0@ != kvs@[i as int].0@);
                    }
                    entries.push((name, d));
                    proof {
                        assert(entries_model(entries@) =~= entries_model(
                            entries@.drop_last(),
                        ).push((kvs@[i as int].0@, d@)));
                    }
                },
            }
        }
        i = i + 1;
    }
    proof {
        assert(ems.subrange(0, ems.len() as int) =~= ems);
    }
    if bad {
        return Err(DecodeError::MalformedMetadataError);
    }
    Ok(Header { n, metadata, entries })
}

} // verus!
