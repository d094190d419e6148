//! Why a call of the source side fails.
use vstd::prelude::*;

verus! {

#[derive(Debug, PartialEq)]
pub enum ContractError {
    /// The sender may not make this call.
    Unauthorized,
    /// The request is malformed or collides with one in flight.
    BadRequest { message: String },
    /// What the request names is not there.
    NotFound { kind: String },
    /// An amount is not a decimal number that fits in 128 bits.
    InvalidAmount { value: String },
    /// The ledger contradicts itself.
    InternalServerError { message: String },
    /// A failure with an HTTP status of its own.
    CustomError { status: u16, message: String },
}

/// Relies on `http::StatusCode::CONFLICT`, the status 409.
#[verifier::external_body]
pub(crate) fn conflict_status() -> (r: u16)
    ensures
        r == 409,
{
    http::StatusCode::CONFLICT.as_u16()
}

} // verus!
