//! The decoded tensor value: a tagged union over the supported dtypes,
//! each variant holding an owned element buffer and a copy of the
//! declared shape.
//!
//! The 16- and 32-bit variants hold the raw little-endian bit patterns
//! (`u16` for the two half-precision layouts, `u32` for single
//! precision): decoding is a bit reinterpretation, not a numeric
//! conversion, and a consumer that wants float values reinterprets the
//! bits itself.

use vstd::prelude::*;

use crate::dtype::Dtype;

verus! {

/// A decoded tensor: one element buffer plus its declared shape.
#[derive(Debug)]
pub enum Tensor {
    U8 { data: Vec<u8>, shape: Vec<usize> },
    F16 { data: Vec<u16>, shape: Vec<usize> },
    Bf16 { data: Vec<u16>, shape: Vec<usize> },
    F32 { data: Vec<u32>, shape: Vec<usize> },
}

/// Mathematical model of a [`Tensor`]: the same tagged union over
/// sequences.
pub enum TensorModel {
    U8 { data: Seq<u8>, shape: Seq<usize> },
    F16 { data: Seq<u16>, shape: Seq<usize> },
    Bf16 { data: Seq<u16>, shape: Seq<usize> },
    F32 { data: Seq<u32>, shape: Seq<usize> },
}

impl TensorModel {
    /// The declared shape carried by the tensor.
    pub open spec fn shape(self) -> Seq<usize> {
        match self {
            TensorModel::U8 { shape, .. } => shape,
            TensorModel::F16 { shape, .. } => shape,
            TensorModel::Bf16 { shape, .. } => shape,
            TensorModel::F32 { shape, .. } => shape,
        }
    }

    /// The dtype of the element buffer.
    pub open spec fn dtype(self) -> Dtype {
        match self {
            TensorModel::U8 { .. } => Dtype::U8,
            TensorModel::F16 { .. } => Dtype::F16,
            TensorModel::Bf16 { .. } => Dtype::Bf16,
            TensorModel::F32 { .. } => Dtype::F32,
        }
    }

    /// The number of elements in the buffer.
    pub open spec fn element_count(self) -> nat {
        match self {
            TensorModel::U8 { data, .. } => data.len(),
            TensorModel::F16 { data, .. } => data.len(),
            TensorModel::Bf16 { data, .. } => data.len(),
            TensorModel::F32 { data, .. } => data.len(),
        }
    }
}

impl View for Tensor {
    type V = TensorModel;

    open spec fn view(&self) -> TensorModel {
        match self {
            Tensor::U8 { data, shape } => TensorModel::U8 { data: data@, shape: shape@ },
            Tensor::F16 { data, shape } => TensorModel::F16 { data: data@, shape: shape@ },
            Tensor::Bf16 { data, shape } => TensorModel::Bf16 { data: data@, shape: shape@ },
            Tensor::F32 { data, shape } => TensorModel::F32 { data: data@, shape: shape@ },
        }
    }
}

impl Tensor {
    /// The declared shape of this tensor.
    pub fn shape(&self) -> (s: &[usize])
        ensures
            s@ == self@.shape(),
    {
        match self {
            Tensor::U8 { shape, .. } => shape.as_slice(),
            Tensor::F16 { shape, .. } => shape.as_slice(),
            Tensor::Bf16 { shape, .. } => shape.as_slice(),
            Tensor::F32 { shape, .. } => shape.as_slice(),
        }
    }

    /// The dtype of this tensor.
    pub fn dtype(&self) -> (d: Dtype)
        ensures
            d == self@.dtype(),
    {
        match self {
            Tensor::U8 { .. } => Dtype::U8,
            Tensor::F16 { .. } => Dtype::F16,
            Tensor::Bf16 { .. } => Dtype::Bf16,
            Tensor::F32 { .. } => Dtype::F32,
        }
    }
}

} // verus!
