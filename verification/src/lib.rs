//! Decoder for a tensor container file: an 8-byte little-endian length
//! prefix, a JSON metadata block describing each tensor (dtype, shape,
//! byte range), and a raw data region holding the element bytes.

use vstd::prelude::*;

pub mod bytes;
pub mod decode;
pub mod desc;
pub mod dtype;
pub mod error;
pub mod header;
pub mod json;
pub mod json_model;
pub mod laws;
pub mod order;
pub mod reader;
pub mod tensor;

verus! {

} // verus!
