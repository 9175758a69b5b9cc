//! The errors of the codec.

use vstd::prelude::*;

verus! {

/// Why the bytes of an ASDU region could not be read, or why an ASDU did not
/// answer a request.
#[derive(Clone, Copy, Debug, PartialEq, Eq, Structural)]
pub enum AsduError {
    /// The region is shorter than the header, or its length is not the one
    /// that its type, its addressing mode and its object count call for.
    Truncated,
    /// The variable structure qualifier announces no object.
    ZeroObjects,
    /// The objects of the ASDU are not of the category that was asked for.
    TypeMismatch,
}

/// Why the front of a buffer is not a frame.
#[derive(Clone, Copy, Debug, PartialEq, Eq, Structural)]
pub enum FrameError {
    /// The first byte is not the start marker.
    InvalidStartByte,
    /// The length byte is below 4 or above 253.
    InvalidLength,
    /// The control field announces an unnumbered frame with no function, or
    /// with more than one.
    InvalidControlField,
    /// The frame is an information frame and its ASDU could not be read.
    Asdu(AsduError),
}

} // verus!
