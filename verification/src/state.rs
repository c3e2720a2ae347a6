//! Registry state: roles, contract metadata, and the token table with its
//! owner index.

use vstd::prelude::*;
use crate::types::Addr;
use crate::store::{Table, PairList, IdxPair, sorted_keys, find_val};
use crate::response::{ContractInfoResponse, ContractInfoV};

verus! {

/// The view of a token record.
#[verifier::ext_equal]
pub struct TokenV {
    pub owner: Seq<char>,
    pub token_id: Seq<char>,
    pub token_uri: Option<Seq<char>>,
}

/// A uniquely identified digital asset: its id, its current owner, and an
/// optional metadata URI.  Tokens are created by mint and never deleted;
/// only the owner field ever changes.
#[derive(Debug, PartialEq)]
pub struct Token {
    pub owner: Addr,
    pub token_id: String,
    pub token_uri: Option<String>,
}

impl View for Token {
    type V = TokenV;

    open spec fn view(&self) -> TokenV {
        TokenV {
            owner: self.owner@,
            token_id: self.token_id@,
            token_uri: match &self.token_uri {
                Some(u) => Some(u@),
                None => None,
            },
        }
    }
}

impl Clone for Token {
    fn clone(&self) -> (r: Self)
        ensures
            r@ == self@,
    {
        Token {
            owner: self.owner.clone(),
            token_id: self.token_id.clone(),
            token_uri: match &self.token_uri {
                Some(u) => Some(u.clone()),
                None => None,
            },
        }
    }
}

/// The views of a list of tokens.
pub open spec fn tokens_view(s: Seq<Token>) -> Seq<TokenV> {
    s.map_values(|t: Token| t@)
}

/// The token table's secondary index: one (owner, token id) pair per token.
pub struct TokenIndex {
    pub owner: PairList,
}

/// The view of the whole registry state.
#[verifier::ext_equal]
pub struct ContractV {
    pub owner: Seq<char>,
    pub contract_info: ContractInfoV,
    pub minter: Seq<char>,
    pub tokens: Seq<(Seq<char>, TokenV)>,
    pub token_index: Seq<IdxPair>,
}

/// Whether the index pair `p` points at a live token with that owner.
pub open spec fn token_live(tokens: Seq<(Seq<char>, TokenV)>, p: IdxPair) -> bool {
    match find_val(tokens, p.1) {
        Some(t) => t.owner == p.0,
        None => false,
    }
}

/// Well-formedness of the registry state: the token table sorted (so ids
/// are unique), each record holding its own id, and the owner index exactly
/// mirroring the table — no entry points at a missing or re-owned token.
pub open spec fn wf_contract(c: ContractV) -> bool {
    &&& sorted_keys(c.tokens)
    &&& forall|i: int| 0 <= i < c.tokens.len() ==> (#[trigger] c.tokens[i]).1.token_id
        == c.tokens[i].0
    &&& c.token_index.no_duplicates()
    &&& forall|i: int| 0 <= i < c.token_index.len() ==> token_live(
        c.tokens,
        #[trigger] c.token_index[i],
    )
    &&& forall|i: int| 0 <= i < c.tokens.len() ==> c.token_index.contains(
        ((#[trigger] c.tokens[i]).1.owner, c.tokens[i].0),
    )
}

/// The registry: roles, metadata, and the token table with its owner index.
pub struct Contract {
    pub owner: Addr,
    pub contract_info: ContractInfoResponse,
    pub minter: Addr,
    pub tokens: Table<Token>,
    pub token_index: TokenIndex,
}

impl View for Contract {
    type V = ContractV;

    open spec fn view(&self) -> ContractV {
        ContractV {
            owner: self.owner@,
            contract_info: self.contract_info@,
            minter: self.minter@,
            tokens: self.tokens@,
            token_index: self.token_index.owner@,
        }
    }
}

impl Contract {
    pub open spec fn wf(&self) -> bool {
        wf_contract(self@)
    }
}

} // verus!
