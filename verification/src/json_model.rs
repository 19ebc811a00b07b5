//! A mathematical model of the JSON values the metadata block can
//! hold, and the descriptor grammar over it. The trusted boundary
//! (`crate::json`) names the parse result and each opaque value's
//! contents in terms of this model; everything here is ordinary spec
//! code with no trust of its own.

use vstd::prelude::*;

use crate::desc::DescriptorModel;

verus! {

/// Model of one JSON value, as far as the decoder reads it.
///
/// A number is modeled by its unsigned 64-bit reading: `Num(Some(x))`
/// when the value is an integer representable as `u64`, `Num(None)`
/// otherwise (negative, fractional, or too large) — which is all the
/// decoder ever reads of a number. An object's entries carry the
/// order the backing map iterates in.
pub enum JsonModel {
    Null,
    Bool(bool),
    Num(Option<u64>),
    Str(Seq<char>),
    Arr(Seq<JsonModel>),
    Obj(Seq<(Seq<char>, JsonModel)>),
}

/// The `u64` reading of a value: what `as_u64` yields.
pub open spec fn num_of(m: JsonModel) -> Option<u64> {
    match m {
        JsonModel::Num(o) => o,
        _ => None,
    }
}

/// The models of a list of opaque values.
pub open spec fn items_model(s: Seq<serde_json::Value>) -> Seq<JsonModel> {
    s.map_values(|v: serde_json::Value| crate::json::value_model(v))
}

/// The models of an object's key/value list.
pub open spec fn fields_model(s: Seq<(String, serde_json::Value)>) -> Seq<
    (Seq<char>, JsonModel),
> {
    s.map_values(|p: (String, serde_json::Value)| (p.0@, crate::json::value_model(p.1)))
}

/// The first field of an object carrying this name, if any.
pub open spec fn field_of(es: Seq<(Seq<char>, JsonModel)>, name: Seq<char>) -> Option<JsonModel>
    decreases es.len(),
{
    if es.len() == 0 {
        None
    } else if es[0].0 == name {
        Some(es[0].1)
    } else {
        field_of(es.drop_first(), name)
    }
}

/// An array of non-negative integers that fit the machine, read as
/// element extents or byte offsets; `None` on any other element.
pub open spec fn nums_of(items: Seq<JsonModel>) -> Option<Seq<usize>>
    decreases items.len(),
{
    if items.len() == 0 {
        Some(Seq::empty())
    } else {
        match nums_of(items.drop_last()) {
            None => None,
            Some(s) => match items.last() {
                JsonModel::Num(Some(x)) => if x <= usize::MAX {
                    Some(s.push(x as usize))
                } else {
                    None
                },
                _ => None,
            },
        }
    }
}

/// A JSON value as an array of machine-sized integers.
pub open spec fn usize_array_of(m: JsonModel) -> Option<Seq<usize>> {
    match m {
        JsonModel::Arr(items) => nums_of(items),
        _ => None,
    }
}

/// A JSON value as one tensor descriptor: an object with `dtype` (a
/// string, kept verbatim), `shape` (an integer array) and
/// `data_offsets` (a 2-element integer array); `None` on any shape
/// failure.
pub open spec fn desc_of(m: JsonModel) -> Option<DescriptorModel> {
    match m {
        JsonModel::Obj(es) => match field_of(es, "dtype"@) {
            Some(JsonModel::Str(dt)) => match field_of(es, "shape"@) {
                Some(sv) => match usize_array_of(sv) {
                    Some(shape) => match field_of(es, "data_offsets"@) {
                        Some(ov) => match usize_array_of(ov) {
                            Some(offs) => if offs.len() == 2 {
                                Some(
                                    DescriptorModel {
                                        dtype: dt,
                                        shape,
                                        start: offs[0] as int,
                                        end: offs[1] as int,
                                    },
                                )
                            } else {
                                None
                            },
                            None => None,
                        },
                        None => None,
                    },
                    None => None,
                },
                None => None,
            },
            Some(_) => None,
            None => None,
        },
        _ => None,
    }
}

/// The descriptor table a metadata object declares: one descriptor
/// per non-reserved key, in object order; `None` as soon as any
/// non-reserved entry is not a well-shaped descriptor.
pub open spec fn table_of(es: Seq<(Seq<char>, JsonModel)>) -> Option<
    Seq<(Seq<char>, DescriptorModel)>,
>
    decreases es.len(),
{
    if es.len() == 0 {
        Some(Seq::empty())
    } else {
        match table_of(es.drop_last()) {
            None => None,
            Some(t) => if es.last().0 == "__metadata__"@ {
                Some(t)
            } else {
                match desc_of(es.last().1) {
                    None => None,
                    Some(d) => Some(t.push((es.last().0, d))),
                }
            },
        }
    }
}

/// The reserved `__metadata__` value a metadata object carries, if
/// any (the last occurrence, as a map rebuild would keep it).
pub open spec fn meta_of(es: Seq<(Seq<char>, JsonModel)>) -> Option<JsonModel>
    decreases es.len(),
{
    if es.len() == 0 {
        None
    } else if es.last().0 == "__metadata__"@ {
        Some(es.last().1)
    } else {
        meta_of(es.drop_last())
    }
}

} // verus!
