//! Why a call of the destination side fails.
use vstd::prelude::*;

verus! {

#[derive(Debug, PartialEq)]
pub enum ContractError {
    /// The sender may not make this call.
    Unauthorized,
    /// The request is malformed, or replays a migration already executed.
    BadRequest { msg: String },
    /// What the request names is not there.
    NotFound { kind: String },
    NotImplemented { msg: String },
    CustomError { val: String },
}

} // verus!
