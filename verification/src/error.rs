//! Error values for every failure the decode pipeline can report.
//! All of them are recoverable: no stage panics on bad input.

use vstd::prelude::*;

verus! {

/// One tagged value per failure condition of the pipeline.
///
/// Header-level failures (`TruncatedHeaderError`, `TruncatedMetadataError`,
/// `MalformedMetadataError`) abort the whole decode; the others are
/// per-tensor and are collected without disturbing sibling tensors.
#[derive(Clone, Copy, Debug, PartialEq, Eq, Structural)]
pub enum DecodeError {
    /// Fewer than 8 bytes available for the length prefix.
    TruncatedHeaderError,
    /// Fewer than `N` bytes available after the 8-byte prefix.
    TruncatedMetadataError,
    /// Metadata bytes are not a JSON object of well-shaped descriptors.
    MalformedMetadataError,
    /// A descriptor with `start > end`.
    InvalidRangeError,
    /// A byte range whose length is not a multiple of the element width.
    AlignmentError,
    /// A dtype string outside the supported set.
    UnsupportedDtypeError,
    /// A declared byte range that runs past the end of the data region.
    IoError,
    /// The product of the shape does not equal the decoded element count.
    ShapeMismatchError,
}

impl DecodeError {
    /// A human-readable description of the error.
    pub fn message(&self) -> &'static str {
        match self {
            DecodeError::TruncatedHeaderError => "fewer than 8 bytes available for the length prefix",
            DecodeError::TruncatedMetadataError => "metadata block shorter than its declared length",
            DecodeError::MalformedMetadataError => "metadata is not a JSON object of tensor descriptors",
            DecodeError::InvalidRangeError => "descriptor byte range has start > end",
            DecodeError::AlignmentError => "byte range length is not a multiple of the element width",
            DecodeError::UnsupportedDtypeError => "dtype string is not supported",
            DecodeError::IoError => "declared byte range runs past the end of the data",
            DecodeError::ShapeMismatchError => "shape product does not match the element count",
        }
    }
}

} // verus!
