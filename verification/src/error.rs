//! The error kinds of certificate construction, transaction assembly and
//! ledger application.

use vstd::prelude::*;

verus! {

/// Everything that can go wrong between building a certificate and seeing it
/// applied.
#[derive(Clone, Copy, Debug, PartialEq, Eq, Structural)]
pub enum Error {
    /// Key material does not have the form of a public key.
    InvalidKeyEncoding,
    /// A certificate names a pool that was never registered.
    UnknownPool,
    /// A registration derives an identifier that is already taken.
    DuplicatePoolId,
    /// A retirement names a pool that is retired already.
    AlreadyRetired,
    /// The funds declared or held do not cover what is due.
    InsufficientFunds,
    /// A step of transaction assembly was taken out of order.
    SignatureOrderError,
    /// The transaction was not seen in the ledger within the wait policy.
    SubmissionTimeout,
    /// The ledger refused the transaction's signatures.
    SubmissionRejected,
}

/// The two families of failure that a submitter tells apart.
#[derive(Clone, Copy, Debug, PartialEq, Eq, Structural)]
pub enum ErrorClass {
    /// The request itself was at fault.
    Validation,
    /// The request never got a verdict.
    Infrastructure,
}

impl Error {
    /// Only a timeout is an infrastructure failure; every other kind is a
    /// verdict on the request.
    pub open spec fn spec_class(self) -> ErrorClass {
        if self == Error::SubmissionTimeout {
            ErrorClass::Infrastructure
        } else {
            ErrorClass::Validation
        }
    }

    #[verifier::when_used_as_spec(spec_class)]
    pub fn class(self) -> (c: ErrorClass)
        ensures
            c == self.spec_class(),
    {
        match self {
            Error::SubmissionTimeout => ErrorClass::Infrastructure,
            _ => ErrorClass::Validation,
        }
    }
}

/// The error of a result, if it is one.
pub open spec fn error_of<T>(result: Result<T, Error>) -> Option<Error> {
    match result {
        Ok(_) => None,
        Err(e) => Some(e),
    }
}

} // verus!
