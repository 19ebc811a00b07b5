//! The supported element encodings and their byte widths.

use vstd::prelude::*;

verus! {

/// Element encoding of a tensor. `F16` and `Bf16` are the two 16-bit
/// float layouts; `F32` is IEEE-754 single precision. Decoded buffers
/// carry the raw little-endian bit patterns, so no float arithmetic is
/// involved anywhere in the pipeline.
#[derive(Clone, Copy, Debug, PartialEq, Eq, Structural)]
pub enum Dtype {
    U8,
    F16,
    Bf16,
    F32,
}

impl Dtype {
    /// Width of one element in bytes.
    pub open spec fn spec_width(self) -> nat {
        match self {
            Dtype::U8 => 1,
            Dtype::F16 => 2,
            Dtype::Bf16 => 2,
            Dtype::F32 => 4,
        }
    }

    /// Width of one element in bytes.
    pub fn width(self) -> (w: usize)
        ensures
            w == self.spec_width(),
    {
        match self {
            Dtype::U8 => 1,
            Dtype::F16 => 2,
            Dtype::Bf16 => 2,
            Dtype::F32 => 4,
        }
    }
}

/// The dtype named by a descriptor's `dtype` string, if it is one of
/// the supported set.
pub open spec fn dtype_of(s: Seq<char>) -> Option<Dtype> {
    if s == "U8"@ {
        Some(Dtype::U8)
    } else if s == "F16"@ {
        Some(Dtype::F16)
    } else if s == "BF16"@ {
        Some(Dtype::Bf16)
    } else if s == "F32"@ {
        Some(Dtype::F32)
    } else {
        None
    }
}

/// Parses a `dtype` string; `None` exactly on strings outside the
/// supported set.
pub fn parse_dtype(s: &String) -> (r: Option<Dtype>)
    ensures
        r == dtype_of(s@),
{
    let n_u8: String = "U8".to_owned();
    let n_f16: String = "F16".to_owned();
    let n_bf16: String = "BF16".to_owned();
    let n_f32: String = "F32".to_owned();
    if *s == n_u8 {
        Some(Dtype::U8)
    } else if *s == n_f16 {
        Some(Dtype::F16)
    } else if *s == n_bf16 {
        Some(Dtype::Bf16)
    } else if *s == n_f32 {
        Some(Dtype::F32)
    } else {
        None
    }
}

} // verus!
