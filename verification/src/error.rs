//! The error type used by the library.

use vstd::prelude::*;

verus! {

#[verifier::external_type_specification]
#[verifier::external_body]
pub struct ExIoError(std::io::Error);

/// The error type used by the library.
///
/// Anything that could be considered a malformed or corrupt SWF falls
/// into the broad category of `NotSwf`, along with everything else that
/// cannot be a SWF file: an unrecognized signature byte, wrong magic
/// bytes, or data that runs out in the middle of the header.
#[derive(Debug)]
pub enum Error {
    /// Any IO error, either from directly reading data or from the
    /// decompression libraries.
    IoError(std::io::Error),
    /// All-encompassing variant for anything that cannot be a SWF file.
    NotSwf,
    /// The frame-rate field carries a fractional part (a nonzero low
    /// byte). Fractional frame rates are not supported, and parsing
    /// stops with this dedicated variant so that the caller can decide
    /// how fatal that is.
    FractionalFrameRate,
}

impl From<std::io::Error> for Error {
    fn from(err: std::io::Error) -> Self {
        Error::IoError(err)
    }
}

impl vstd::std_specs::convert::FromSpecImpl<std::io::Error> for Error {
    open spec fn obeys_from_spec() -> bool {
        true
    }

    open spec fn from_spec(t: std::io::Error) -> Self {
        Error::IoError(t)
    }
}

} // verus!
