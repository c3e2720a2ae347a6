//! Messages accepted and emitted by the marketplace.

use vstd::prelude::*;
use crate::market::state::Sale;

pub use crate::shim::{SaleData, SaleDataV, ExecuteMsgCw721, ExecuteMsgCw721V};

verus! {

/// The marketplace takes no parameters at initialisation.
#[derive(Debug, PartialEq)]
pub struct InstantiateMsg {}

/// The view of a received-token notification, with decoded sale terms.
#[verifier::ext_equal]
pub struct Cw721ReceiveMsgV {
    pub token_id: Seq<char>,
    pub sender: Seq<char>,
    pub msg: SaleDataV,
}

/// The notification that a token landed in marketplace custody.  `sender`
/// is the original owner; the adapter has already decoded the payload
/// into sale terms.
#[derive(Debug, PartialEq)]
pub struct Cw721ReceiveMsg {
    pub token_id: String,
    pub sender: String,
    pub msg: SaleData,
}

impl View for Cw721ReceiveMsg {
    type V = Cw721ReceiveMsgV;

    open spec fn view(&self) -> Cw721ReceiveMsgV {
        Cw721ReceiveMsgV { token_id: self.token_id@, sender: self.sender@, msg: self.msg@ }
    }
}

/// Registers a lazy-mint promise for `token_id` on `contract`.
#[derive(Debug, PartialEq)]
pub struct ReceiveLazyNftMsg {
    pub contract: String,
    pub token_id: String,
}

/// The operations the marketplace accepts.
#[derive(Debug, PartialEq)]
pub enum ExecuteMsg {
    ReceiveNft(Cw721ReceiveMsg),
    ReceiveLazyNft(ReceiveLazyNftMsg),
    RemoveSale { token_id: String },
    Purchase { token_id: String },
    PurchaseLazy { token_id: String },
}

/// All current sale listings, ascending by token id.
#[derive(Debug, PartialEq)]
pub struct SalesResponse {
    pub sales: Vec<Sale>,
}

/// The queries the marketplace answers.
#[derive(Debug, PartialEq)]
pub enum QueryMsg {
    Sales {},
}

} // verus!
