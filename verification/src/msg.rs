//! Messages accepted by the registry.

use vstd::prelude::*;
use crate::shim::{Payload, Cw721ReceiveMsg};

verus! {

/// The view of the initialisation parameters.
#[verifier::ext_equal]
pub struct InstantiateMsgV {
    pub name: Seq<char>,
    pub symbol: Seq<char>,
    pub minter: Seq<char>,
}

/// Initialisation parameters: contract metadata and the minter role.
/// The minter string has passed the host's address validation.
#[derive(Debug, PartialEq)]
pub struct InstantiateMsg {
    pub name: String,
    pub symbol: String,
    pub minter: String,
}

impl View for InstantiateMsg {
    type V = InstantiateMsgV;

    open spec fn view(&self) -> InstantiateMsgV {
        InstantiateMsgV { name: self.name@, symbol: self.symbol@, minter: self.minter@ }
    }
}

/// The view of a mint request.
#[verifier::ext_equal]
pub struct TokenMsgV {
    pub owner: Seq<char>,
    pub token_id: Seq<char>,
    pub token_uri: Option<Seq<char>>,
}

/// A mint request: the token to create and its first owner.  The owner
/// string has passed the host's address validation.
#[derive(Debug, PartialEq)]
pub struct TokenMsg {
    pub owner: String,
    pub token_id: String,
    pub token_uri: Option<String>,
}

impl View for TokenMsg {
    type V = TokenMsgV;

    open spec fn view(&self) -> TokenMsgV {
        TokenMsgV {
            owner: self.owner@,
            token_id: self.token_id@,
            token_uri: match &self.token_uri {
                Some(u) => Some(u@),
                None => None,
            },
        }
    }
}

impl Clone for TokenMsg {
    fn clone(&self) -> (r: Self)
        ensures
            r@ == self@,
    {
        TokenMsg {
            owner: self.owner.clone(),
            token_id: self.token_id.clone(),
            token_uri: match &self.token_uri {
                Some(u) => Some(u.clone()),
                None => None,
            },
        }
    }
}

/// The operations the registry accepts.
#[derive(Debug, PartialEq)]
pub enum ExecuteMsg {
    Mint { token: TokenMsg },
    TransferNft { token_id: String, to: String },
    SendNft { token_id: String, contract: String, msg: Payload },
    ReceiveNft(Cw721ReceiveMsg),
}

/// The queries the registry answers.
#[derive(Debug, PartialEq)]
pub enum QueryMsg {
    OwnerOf { token_id: String },
    NumTokens {},
    ContractInfo {},
    NftInfo { token_id: String },
    Tokens { owner: String, start_after: Option<String>, limit: Option<u128> },
    AllTokens { start_after: Option<String>, limit: Option<u128> },
}

} // verus!
