//! Answers to registry queries.

use vstd::prelude::*;
use crate::types::Addr;
use crate::state::Token;

verus! {

/// Who currently owns a token.
#[derive(Debug, PartialEq)]
pub struct OwnerOfResponse {
    pub owner: Addr,
}

/// How many tokens have been minted.
#[derive(Debug, PartialEq)]
pub struct NumTokensResponse {
    pub number: u128,
}

/// The view of the contract metadata.
#[verifier::ext_equal]
pub struct ContractInfoV {
    pub name: Seq<char>,
    pub symbol: Seq<char>,
}

/// The registry's metadata, set once at initialisation.
#[derive(Debug, PartialEq)]
pub struct ContractInfoResponse {
    pub name: String,
    pub symbol: String,
}

impl View for ContractInfoResponse {
    type V = ContractInfoV;

    open spec fn view(&self) -> ContractInfoV {
        ContractInfoV { name: self.name@, symbol: self.symbol@ }
    }
}

impl Clone for ContractInfoResponse {
    fn clone(&self) -> (r: Self)
        ensures
            r@ == self@,
    {
        ContractInfoResponse { name: self.name.clone(), symbol: self.symbol.clone() }
    }
}

/// A token's metadata URI.
#[derive(Debug, PartialEq)]
pub struct NftInfoResponse {
    pub token_uri: Option<String>,
}

/// A page of tokens, ascending by token id.
#[derive(Debug, PartialEq)]
pub struct TokensResponse {
    pub tokens: Vec<Token>,
}

} // verus!
