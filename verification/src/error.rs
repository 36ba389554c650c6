//! How an interactive read ends without a finished command line.

use vstd::prelude::*;

verus! {

/// Relies on `std::io::Error`, the standard library's I/O error
/// type; values of it are only carried through, never inspected.
#[verifier::external_type_specification]
#[verifier::external_body]
pub struct ExIoError(std::io::Error);

/// The terminal conditions of one read: the user interrupted it with
/// Ctrl+C, ended the input with Ctrl+D, or the underlying transport
/// failed.
pub enum Error {
    CtrlC,
    CtrlD,
    IoError(std::io::Error),
}

impl From<std::io::Error> for Error {
    fn from(error: std::io::Error) -> (r: Error)
        ensures
            r == Error::IoError(error),
    {
        Error::IoError(error)
    }
}

impl vstd::std_specs::convert::FromSpecImpl<std::io::Error> for Error {
    open spec fn obeys_from_spec() -> bool {
        true
    }

    open spec fn from_spec(error: std::io::Error) -> Error {
        Error::IoError(error)
    }
}

} // verus!
