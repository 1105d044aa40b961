use vstd::prelude::*;

verus! {

/// A failure of the runtime, of a request's validation, or of I/O.
#[derive(Debug, Clone, Copy, PartialEq, Eq, Structural)]
pub enum Error {
    RuntimeFailure,
    ValidationFailure,
    IoError,
}

impl Error {
    /// The numeric code of the error: -1, -2 and -3 in declaration order.
    pub fn code(&self) -> (r: i32)
        ensures
            r == match *self {
                Error::RuntimeFailure => -1int,
                Error::ValidationFailure => -2int,
                Error::IoError => -3int,
            },
    {
        match self {
            Error::RuntimeFailure => -1,
            Error::ValidationFailure => -2,
            Error::IoError => -3,
        }
    }
}

} // verus!
