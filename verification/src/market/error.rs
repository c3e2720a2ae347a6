//! The marketplace error taxonomy.  Every error aborts the whole operation
//! with no state change.

use vstd::prelude::*;

verus! {

/// Why a marketplace operation was rejected.
#[derive(Debug, PartialEq)]
pub enum ContractError {
    /// The caller lacks the required role or ownership.
    Unauthorized {},
    /// A sale or lazy listing already exists for the token id.
    AlreadyExists {},
    /// The referenced sale or lazy listing is absent.
    NotFound {},
    /// The attached payment has the wrong denomination or amount.
    InvalidDeposit {},
    /// An unrecognized or failed asynchronous completion.
    InvalidReply {},
}

impl ContractError {
    /// A short description of the error.
    pub fn as_str(&self) -> (r: &'static str)
        ensures
            r@ == match self {
                ContractError::Unauthorized {} => "Unauthorized"@,
                ContractError::AlreadyExists {} => "AlreadyExists"@,
                ContractError::NotFound {} => "NotFound"@,
                ContractError::InvalidDeposit {} => "InvalidDeposit"@,
                ContractError::InvalidReply {} => "InvalidReply"@,
            },
    {
        match self {
            ContractError::Unauthorized {} => "Unauthorized",
            ContractError::AlreadyExists {} => "AlreadyExists",
            ContractError::NotFound {} => "NotFound",
            ContractError::InvalidDeposit {} => "InvalidDeposit",
            ContractError::InvalidReply {} => "InvalidReply",
        }
    }
}

} // verus!
