//! Typed failures of the imaging pipeline.

use vstd::prelude::*;

verus! {

/// A failure while decoding a DICOM object into a displayable image.
///
/// Every error is propagated to the caller as a typed value; no operation
/// substitutes a default image or leaves a partially updated buffer in play.
#[derive(Debug, Clone, PartialEq, Eq)]
pub enum Error {
    /// A required attribute is absent from the data set.
    MissingAttribute { group: u16, element: u16 },
    /// An attribute is present but its value has the wrong type or cannot be
    /// read as required (for numeric attributes: not parsable as a number).
    MalformedAttribute { group: u16, element: u16 },
    /// The photometric interpretation is none of MONOCHROME1, MONOCHROME2
    /// or RGB; the offending value is carried verbatim.
    UnsupportedPhotometricInterpretation { value: String },
    /// Bits Allocated is neither 8 nor 16.
    UnsupportedBitsAllocated { bits_allocated: u32 },
    /// The pixel data is stored in an encapsulated (compressed) encoding.
    UnsupportedEncoding,
    /// The VOI LUT function is none of LINEAR, LINEAR_EXACT or SIGMOID.
    UnsupportedTransferFunction,
    /// Sample counts do not agree with the declared image dimensions, the
    /// RGB pixel data does not split into whole 3-byte triples, or a raw
    /// sample value lies outside the domain of the lookup table.
    DimensionMismatch,
}

} // verus!
