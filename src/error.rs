use vstd::prelude::*;

verus! {

/// A combination that is recognised but not handled.
#[derive(Clone, Copy, Debug, PartialEq, Eq, Structural)]
pub enum Unsupported {
    /// The frame's plane format tag names no known layout.
    UnknownFormat,
    /// The frame's bit depth is not 8, 10, 12 or 16.
    BadDepth,
    /// A plane the layout needs is missing, or its rows fall outside its buffer.
    BadPlane,
    /// Chroma planes are too small for the luma plane at the declared subsampling.
    InvalidChromaSize,
    /// The matrix coefficients have no conversion to RGB here.
    ColorConversion,
    /// The alpha item declares a colour matrix.
    AlphaHasColor,
    /// The alpha item's size differs from the colour item's.
    InvalidAlphaSize,
    /// The image is too large to be reoriented.
    TooLarge,
}

/// Why a frame could not be turned into an image.
#[derive(Clone, Copy, Debug, PartialEq, Eq, Structural)]
pub enum Error {
    /// The decoder rejected the coded bytes.
    DecodeFailure,
    /// The frame uses something that is not handled.
    Unsupported(Unsupported),
    /// The container was malformed.
    InvalidInput,
}

} // verus!
