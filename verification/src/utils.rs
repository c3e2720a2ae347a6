//! Helpers for exercising the registry with stock call metadata, as the
//! tests do.

use vstd::prelude::*;
use crate::types::{Addr, CoinV, MessageInfo};
use crate::state::Contract;
use crate::shim::{Response, res_to_view};
use crate::msg::{InstantiateMsg, InstantiateMsgV, TokenMsg, TokenMsgV, ExecuteMsg};
use crate::execute::{spec_instantiate, spec_mint};
use crate::error::ContractError;

verus! {

pub const MINTER: &'static str = "minter";

pub const NAME: &'static str = "my_contract";

pub const SYMBOL: &'static str = "my_symbol";

pub const OWNER: &'static str = "owner";

pub const TOKEN_ID: &'static str = "1";

/// Call metadata for `sender`, with no attached funds.
pub fn get_mock_info(sender: &str) -> (info: MessageInfo)
    ensures
        info@.sender == sender@,
        info@.funds =~= Seq::<CoinV>::empty(),
{
    MessageInfo { sender: Addr::new(sender.to_owned()), funds: Vec::new() }
}

/// A registry initialised with the stock metadata and minter.
pub fn initialize_contract() -> (r: (Contract, Response))
    ensures
        r.0.wf(),
        (r.0@, r.1@) == spec_instantiate(
            OWNER@,
            InstantiateMsgV { name: NAME@, symbol: SYMBOL@, minter: MINTER@ },
        ),
{
    let msg = InstantiateMsg {
        name: NAME.to_owned(),
        symbol: SYMBOL.to_owned(),
        minter: MINTER.to_owned(),
    };
    let info = get_mock_info(OWNER);
    Contract::instantiate(info, msg)
}

/// The stock mint request: the given id, the stock owner, no URI.
pub fn get_default_token_msg(token_id: &str) -> (m: ExecuteMsg)
    ensures
        m matches ExecuteMsg::Mint { token } && token@ == (TokenMsgV {
            owner: OWNER@,
            token_id: token_id@,
            token_uri: None,
        }),
{
    ExecuteMsg::Mint {
        token: TokenMsg {
            owner: OWNER.to_owned(),
            token_id: token_id.to_owned(),
            token_uri: None,
        },
    }
}

/// Mints the stock token under `token_id`, called by `caller`.
pub fn mint_token(contract: &mut Contract, caller: &str, token_id: &str) -> (r: Result<
    Response,
    ContractError,
>)
    requires
        old(contract).wf(),
    ensures
        final(contract).wf(),
        (final(contract)@, res_to_view(&r)) == spec_mint(
            old(contract)@,
            caller@,
            TokenMsgV { owner: OWNER@, token_id: token_id@, token_uri: None },
        ),
{
    let msg = get_default_token_msg(token_id);
    contract.execute(get_mock_info(caller), msg)
}

} // verus!
