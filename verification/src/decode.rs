//! The tensor decoder: a pure function from a descriptor and the file
//! bytes to a typed element buffer, or a per-tensor error.
//!
//! A descriptor's bytes live at absolute range
//! `[8 + n + start, 8 + n + end)` in the file, where `n` is the length
//! of the metadata block. `U8` uses the consistent exclusive-end
//! convention: exactly `end - start` bytes, one element per byte, the
//! same rule every other dtype follows.

use vstd::prelude::*;

use crate::bytes::{words16, words32};
use crate::desc::{DescriptorModel, TensorDescriptor};
use crate::dtype::{dtype_of, parse_dtype, Dtype};
use crate::error::DecodeError;
use crate::tensor::{Tensor, TensorModel};

verus! {

/// Product of a shape's extents: the element count the shape declares.
pub open spec fn shape_product(s: Seq<usize>) -> int
    decreases s.len(),
{
    if s.len() == 0 {
        1
    } else {
        s[0] * shape_product(s.drop_first())
    }
}

/// What decoding one descriptor against the file bytes yields: the
/// typed buffer on success, otherwise exactly one per-tensor error.
/// Checks run in a fixed order: range, dtype, alignment, bounds,
/// shape; the element bytes are the little-endian groups of the
/// declared range.
pub open spec fn spec_decode_tensor(data: Seq<u8>, n: int, d: DescriptorModel) -> Result<
    TensorModel,
    DecodeError,
> {
    if d.start > d.end {
        Err(DecodeError::InvalidRangeError)
    } else {
        match dtype_of(d.dtype) {
            None => Err(DecodeError::UnsupportedDtypeError),
            Some(dt) => {
                if (d.end - d.start) % (dt.spec_width() as int) != 0 {
                    Err(DecodeError::AlignmentError)
                } else if 8 + n + d.end > data.len() {
                    Err(DecodeError::IoError)
                } else {
                    let raw = data.subrange(8 + n + d.start, 8 + n + d.end);
                    if shape_product(d.shape) != (d.end - d.start) / (dt.spec_width() as int) {
                        Err(DecodeError::ShapeMismatchError)
                    } else {
                        Ok(
                            match dt {
                                Dtype::U8 => TensorModel::U8 { data: raw, shape: d.shape },
                                Dtype::F16 => TensorModel::F16 { data: words16(raw), shape: d.shape },
                                Dtype::Bf16 => TensorModel::Bf16 {
                                    data: words16(raw),
                                    shape: d.shape,
                                },
                                Dtype::F32 => TensorModel::F32 { data: words32(raw), shape: d.shape },
                            },
                        )
                    }
                }
            },
        }
    }
}

/// The model of an executable decode outcome.
pub open spec fn result_model(r: Result<Tensor, DecodeError>) -> Result<TensorModel, DecodeError> {
    match r {
        Ok(t) => Ok(t@),
        Err(e) => Err(e),
    }
}

/// Computes the element count a shape declares, or `None` when the
/// product exceeds `usize::MAX` (in which case it can never match a
/// buffer length, since buffers live in memory).
pub fn checked_product(s: &Vec<usize>) -> (r: Option<usize>)
    ensures
        match r {
            Some(p) => p == shape_product(s@),
            None => shape_product(s@) > usize::MAX,
        },
{
    let mut i: usize = s.len();
    let mut acc: usize = 1;
    let mut overflowed: bool = false;
    while i > 0
        invariant
            i <= s@.len(),
            !overflowed ==> acc == shape_product(s@.subrange(i as int, s@.len() as int)),
            overflowed ==> shape_product(s@.subrange(i as int, s@.len() as int)) > usize::MAX,
        decreases i,
    {
        i = i - 1;
        let x: usize = s[i];
        proof {
            let tail = s@.subrange(i + 1, s@.len() as int);
            let whole = s@.subrange(i as int, s@.len() as int);
            assert(whole.drop_first() =~= tail);
            assert(whole[0] == s@[i as int]);
        }
        if overflowed {
            if x == 0 {
                acc = 0;
                overflowed = false;
            } else {
                proof {
                    let p = shape_product(s@.subrange(i + 1, s@.len() as int));
                    assert(x * p >= p) by (nonlinear_arith)
                        requires
                            x >= 1,
                            p >= 0,
                    ;
                }
            }
        } else {
            match x.checked_mul(acc) {
                Some(p) => {
                    acc = p;
                },
                None => {
                    overflowed = true;
                },
            }
        }
    }
    proof {
        assert(s@.subrange(0, s@.len() as int) =~= s@);
    }
    if overflowed {
        None
    } else {
        Some(acc)
    }
}

/// Decodes one tensor out of the file bytes, exactly as
/// [`spec_decode_tensor`] says: a pure transform over the
/// descriptor's own byte range, mutating nothing.
pub fn decode_tensor(data: &[u8], n: usize, d: &TensorDescriptor) -> (r: Result<
    Tensor,
    DecodeError,
>)
    requires
        8 + n <= data@.len(),
    ensures
        result_model(r) == spec_decode_tensor(data@, n as int, d@),
{
    let dlen: usize = data.len();
    if d.start > d.end {
        return Err(DecodeError::InvalidRangeError);
    }
    let dt: Dtype = match parse_dtype(&d.dtype) {
        None => { return Err(DecodeError::UnsupportedDtypeError) },
        Some(dt) => dt,
    };
    let byte_len: usize = d.end - d.start;
    let width: usize = dt.width();
    if byte_len % width != 0 {
        return Err(DecodeError::AlignmentError);
    }
    if d.end > dlen - 8 - n {
        return Err(DecodeError::IoError);
    }
    let raw: &[u8] = vstd::slice::slice_subrange(data, 8 + n + d.start, 8 + n + d.end);
    let count: usize = byte_len / width;
    let product_ok: bool = match checked_product(&d.shape) {
        Some(p) => p == count,
        None => false,
    };
    if !product_ok {
        return Err(DecodeError::ShapeMismatchError);
    }
    let shape: Vec<usize> = vstd::slice::slice_to_vec(d.shape.as_slice());
    match dt {
        Dtype::U8 => Ok(Tensor::U8 { data: vstd::slice::slice_to_vec(raw), shape }),
        Dtype::F16 => Ok(Tensor::F16 { data: crate::bytes::decode_u16_le(raw), shape }),
        Dtype::Bf16 => Ok(Tensor::Bf16 { data: crate::bytes::decode_u16_le(raw), shape }),
        Dtype::F32 => Ok(Tensor::F32 { data: crate::bytes::decode_u32_le(raw), shape }),
    }
}

} // verus!
