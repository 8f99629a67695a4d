//! Failures, reduced to the two facts the socket logic looks at: the class of
//! the failure and the code the operating system gave for it.

use vstd::prelude::*;

verus! {

/// The class of a failure.
#[derive(Clone, Copy, Debug, PartialEq, Eq)]
pub enum ErrorKind {
    /// The operation could not complete without blocking; it may complete later.
    WouldBlock,
    /// A length does not fit the field the kernel reads it from.
    InvalidInput,
    /// Any other failure; the code tells which.
    Other,
}

/// A failure of one socket operation.
#[derive(Clone, Copy, Debug, PartialEq, Eq)]
pub struct Error {
    /// The class of the failure.
    pub kind: ErrorKind,
    /// The code of the operating system, where the failure came from there.
    pub raw_os_error: Option<i32>,
}

/// `std::io::Error`, handed on as it comes. Nothing of what it holds is
/// visible but through the functions below.
#[verifier::external_type_specification]
#[verifier::external_body]
pub struct ExIoError(std::io::Error);

/// `std::io::Error::last_os_error`: the error that stands for the last
/// failure the operating system reported to this thread. Which error that is
/// depends on what the thread did before, so nothing is claimed of it.
pub assume_specification[ std::io::Error::last_os_error ]() -> (error: std::io::Error);

/// `std::io::Error::raw_os_error`: the code of the operating system that the
/// error carries, if it carries one. Nothing is claimed of the code.
pub assume_specification[ std::io::Error::raw_os_error ](error: &std::io::Error) -> (code: Option<
    i32,
>);

/// `std::io::Error::kind`, with the class it returns mapped to this crate's
/// classes, one for one. Nothing is claimed of the class.
#[verifier::external_body]
fn kind_of(error: &std::io::Error) -> (kind: ErrorKind) {
    match error.kind() {
        std::io::ErrorKind::WouldBlock => ErrorKind::WouldBlock,
        std::io::ErrorKind::InvalidInput => ErrorKind::InvalidInput,
        _ => ErrorKind::Other,
    }
}

impl Error {
    /// The failure of a local check on a length, made before any system call.
    pub open spec fn spec_invalid_input() -> Error {
        Error { kind: ErrorKind::InvalidInput, raw_os_error: None }
    }

    /// Whether the failure is transient: the operation would have blocked.
    pub open spec fn spec_is_would_block(&self) -> bool {
        self.kind == ErrorKind::WouldBlock
    }

    /// The failure of a local check on a length, made before any system call.
    #[verifier::when_used_as_spec(spec_invalid_input)]
    pub fn invalid_input() -> (error: Error)
        ensures
            error == Self::spec_invalid_input(),
    {
        Error { kind: ErrorKind::InvalidInput, raw_os_error: None }
    }

    /// Whether the failure is transient: the operation would have blocked.
    #[verifier::when_used_as_spec(spec_is_would_block)]
    pub fn is_would_block(&self) -> (transient: bool)
        ensures
            transient == self.spec_is_would_block(),
    {
        match self.kind {
            ErrorKind::WouldBlock => true,
            _ => false,
        }
    }

    /// Reduces an error of the standard library to its class and its code,
    /// as the standard library gives them.
    pub fn from_io(error: &std::io::Error) -> (reduced: Error) {
        Error { kind: kind_of(error), raw_os_error: error.raw_os_error() }
    }

    /// The last failure the operating system reported to the calling thread.
    pub(crate) fn last_os_error() -> (error: Error) {
        let error = std::io::Error::last_os_error();
        Error::from_io(&error)
    }
}

} // verus!
