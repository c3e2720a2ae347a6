//! The registry error taxonomy.  Every error aborts the whole operation
//! with no state change.

use vstd::prelude::*;

verus! {

/// Why a registry operation was rejected.
#[derive(Debug, PartialEq)]
pub enum ContractError {
    /// The caller lacks the required role or ownership.
    Unauthorized {},
    /// A token with this id has already been minted.
    TokenAlreadyExists {},
    /// The referenced token is absent.
    NotFound {},
    /// The carried payload does not decode to what the operation expects.
    DecodeError {},
}

impl ContractError {
    /// A short description of the error.
    pub fn as_str(&self) -> (r: &'static str)
        ensures
            r@ == match self {
                ContractError::Unauthorized {} => "Unauthorized"@,
                ContractError::TokenAlreadyExists {} => "TokenAlreadyExists"@,
                ContractError::NotFound {} => "NotFound"@,
                ContractError::DecodeError {} => "DecodeError"@,
            },
    {
        match self {
            ContractError::Unauthorized {} => "Unauthorized",
            ContractError::TokenAlreadyExists {} => "TokenAlreadyExists",
            ContractError::NotFound {} => "NotFound",
            ContractError::DecodeError {} => "DecodeError",
        }
    }
}

} // verus!
