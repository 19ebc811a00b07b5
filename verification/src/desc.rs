//! Tensor descriptors: the per-tensor record parsed out of the
//! metadata block, before any validation.

use vstd::prelude::*;

verus! {

/// One tensor's entry in the metadata block: its `dtype` string (kept
/// verbatim, validated later so that an unsupported dtype fails only
/// its own tensor), its declared shape, and its `data_offsets` byte
/// range relative to the start of the data region.
#[derive(Debug)]
pub struct TensorDescriptor {
    pub dtype: String,
    pub shape: Vec<usize>,
    pub start: usize,
    pub end: usize,
}

/// Mathematical model of a [`TensorDescriptor`].
pub struct DescriptorModel {
    pub dtype: Seq<char>,
    pub shape: Seq<usize>,
    pub start: int,
    pub end: int,
}

impl View for TensorDescriptor {
    type V = DescriptorModel;

    open spec fn view(&self) -> DescriptorModel {
        DescriptorModel {
            dtype: self.dtype@,
            shape: self.shape@,
            start: self.start as int,
            end: self.end as int,
        }
    }
}

} // verus!
