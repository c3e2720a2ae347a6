//! System-wide laws, proved over the spec transitions that the operations'
//! own contracts are stated with.

use vstd::prelude::*;
use crate::types::{attr, InfoV};
use crate::shim::{ResponseV, resp_attrs, ReplyOn, ReplyV, SubMsgV, SubMsgResponseV, EventV,
    CosmosMsgV, ExecuteMsgCw721V};
use crate::store::{find_val, has_key, remove_pair, lemma_find_insert_same,
    lemma_find_remove_same, lemma_push_contains, lemma_remove_pair_contains};
use crate::lex::{lex_lt, lemma_lex_lt_irreflexive};
use crate::state::{ContractV, TokenV, wf_contract};
use crate::msg::TokenMsgV;
use crate::market::msg::Cw721ReceiveMsgV as MarketCw721ReceiveMsgV;
use crate::execute::{spec_mint, spec_transfer_nft, spec_send_nft, lemma_wf_after_token_insert,
    lemma_wf_after_transfer};
use crate::error::ContractError;
use crate::market::state::{MarketV, SaleV, wf_market};
use crate::market::execute::{spec_purchase, spec_receive_nft, spec_purchase_lazy, spec_reply,
    find_coin, has_mint_attr, lemma_wf_after_sale_insert, lemma_wf_after_sale_remove,
    MINT_RESPONSE_ID};
use crate::market::error::ContractError as MarketError;

verus! {

/// Uniqueness: in a well-formed registry, at most one token exists per id.
pub proof fn law_token_ids_unique(c: ContractV)
    requires
        wf_contract(c),
    ensures
        forall|i: int, j: int|
            0 <= i < c.tokens.len() && 0 <= j < c.tokens.len() && i != j ==> (
            #[trigger] c.tokens[i]).1.token_id != (#[trigger] c.tokens[j]).1.token_id,
{
    assert forall|i: int, j: int|
        0 <= i < c.tokens.len() && 0 <= j < c.tokens.len() && i != j implies (
    #[trigger] c.tokens[i]).1.token_id != (#[trigger] c.tokens[j]).1.token_id by {
        if i < j {
            assert(lex_lt(c.tokens[i].0, c.tokens[j].0));
        } else {
            assert(lex_lt(c.tokens[j].0, c.tokens[i].0));
        }
        lemma_lex_lt_irreflexive(c.tokens[i].0);
    }
}

/// Every mint outcome leaves the registry well formed, so uniqueness holds
/// after any sequence of mints.
pub proof fn law_mint_preserves_wf(c: ContractV, sender: Seq<char>, msg: TokenMsgV)
    requires
        wf_contract(c),
    ensures
        wf_contract(spec_mint(c, sender, msg).0),
{
    if sender == c.minter && !has_key(c.tokens, msg.token_id) {
        let token = TokenV { owner: msg.owner, token_id: msg.token_id, token_uri: msg.token_uri };
        lemma_wf_after_token_insert(c, spec_mint(c, sender, msg).0, token);
    }
}

/// Uniqueness: once a mint of `token_id` has succeeded, any further mint of
/// the same id fails — with `TokenAlreadyExists` when the minter retries —
/// and neither the state nor the original token changes.
pub proof fn law_second_mint_fails(
    c: ContractV,
    s1: Seq<char>,
    m1: TokenMsgV,
    s2: Seq<char>,
    m2: TokenMsgV,
)
    requires
        wf_contract(c),
        spec_mint(c, s1, m1).1 is Ok,
        m2.token_id == m1.token_id,
    ensures
        ({
            let c1 = spec_mint(c, s1, m1).0;
            let minted = TokenV { owner: m1.owner, token_id: m1.token_id, token_uri: m1.token_uri };
            &&& find_val(c1.tokens, m1.token_id) == Some(minted)
            &&& spec_mint(c1, s2, m2).0 == c1
            &&& spec_mint(c1, s2, m2).1 is Err
            &&& s2 == c1.minter ==> spec_mint(c1, s2, m2).1 == Err::<ResponseV, ContractError>(
                ContractError::TokenAlreadyExists {},
            )
            &&& find_val(spec_mint(c1, s2, m2).0.tokens, m1.token_id) == Some(minted)
        }),
{
    let minted = TokenV { owner: m1.owner, token_id: m1.token_id, token_uri: m1.token_uri };
    lemma_find_insert_same(c.tokens, m1.token_id, minted);
}

/// Authorization of mint: the call succeeds exactly when the minter makes
/// it under a fresh id; any other caller is turned away with `Unauthorized`
/// and nothing changes.
pub proof fn law_mint_authorization(c: ContractV, sender: Seq<char>, msg: TokenMsgV)
    requires
        wf_contract(c),
    ensures
        (spec_mint(c, sender, msg).1 is Ok) <==> (sender == c.minter && !has_key(
            c.tokens,
            msg.token_id,
        )),
        sender != c.minter ==> spec_mint(c, sender, msg) == (
            c,
            Err::<ResponseV, ContractError>(ContractError::Unauthorized {}),
        ),
{
}

/// Authorization of transfer and send: the operation succeeds exactly when
/// the caller owns the token; any other caller is turned away with
/// `Unauthorized` and nothing changes.
pub proof fn law_transfer_authorization(
    c: ContractV,
    sender: Seq<char>,
    token_id: Seq<char>,
    to: Seq<char>,
)
    requires
        wf_contract(c),
    ensures
        (spec_transfer_nft(c, sender, token_id, to).1 is Ok) <==> (match find_val(
            c.tokens,
            token_id,
        ) {
            Some(t) => t.owner == sender,
            None => false,
        }),
        (match find_val(c.tokens, token_id) {
            Some(t) => t.owner != sender,
            None => false,
        }) ==> spec_transfer_nft(c, sender, token_id, to) == (
            c,
            Err::<ResponseV, ContractError>(ContractError::Unauthorized {}),
        ),
        spec_transfer_nft(c, sender, token_id, to).1 is Err ==> spec_transfer_nft(
            c,
            sender,
            token_id,
            to,
        ).0 == c,
{
}

/// A send authorizes and transfers exactly as a transfer does: the state
/// outcome is the same; only the reported response differs.
pub proof fn law_send_matches_transfer(
    c: ContractV,
    sender: Seq<char>,
    token_id: Seq<char>,
    contract: Seq<char>,
    payload: crate::shim::PayloadV,
)
    requires
        wf_contract(c),
    ensures
        spec_send_nft(c, sender, token_id, contract, payload).0 == spec_transfer_nft(
            c,
            sender,
            token_id,
            contract,
        ).0,
        (spec_send_nft(c, sender, token_id, contract, payload).1 is Ok) <==> (spec_transfer_nft(
            c,
            sender,
            token_id,
            contract,
        ).1 is Ok),
{
}

/// Transfer settles ownership: after a successful transfer the token is
/// owned by `to`, the owner index holds exactly one entry for `to` and —
/// when the owner really changed — none for the prior owner, and the
/// registry stays well formed.
pub proof fn law_transfer_ownership(
    c: ContractV,
    sender: Seq<char>,
    token_id: Seq<char>,
    to: Seq<char>,
)
    requires
        wf_contract(c),
        spec_transfer_nft(c, sender, token_id, to).1 is Ok,
    ensures
        ({
            let c2 = spec_transfer_nft(c, sender, token_id, to).0;
            let prior = find_val(c.tokens, token_id).unwrap().owner;
            &&& wf_contract(c2)
            &&& match find_val(c2.tokens, token_id) {
                Some(t) => t.owner == to,
                None => false,
            }
            &&& c2.token_index.contains((to, token_id))
            &&& forall|x: int, y: int|
                0 <= x < c2.token_index.len() && 0 <= y < c2.token_index.len()
                    && c2.token_index[x] == (to, token_id) && c2.token_index[y] == (to, token_id)
                    ==> x == y
            &&& to != prior ==> !c2.token_index.contains((prior, token_id))
        }),
{
    let t = find_val(c.tokens, token_id).unwrap();
    let t2 = TokenV { owner: to, ..t };
    let c2 = spec_transfer_nft(c, sender, token_id, to).0;
    lemma_wf_after_transfer(c, c2, token_id, t, to);
    crate::store::lemma_find_update_same(c.tokens, token_id, t2);
    let mid = remove_pair(c.token_index, (t.owner, token_id));
    lemma_push_contains(mid, (to, token_id), (to, token_id));
    assert(c2.token_index[c2.token_index.len() - 1] == (to, token_id));
    assert forall|x: int, y: int|
        0 <= x < c2.token_index.len() && 0 <= y < c2.token_index.len() && c2.token_index[x] == (
        to,
        token_id,
    ) && c2.token_index[y] == (to, token_id) implies x == y by {
        assert(c2.token_index.no_duplicates());
    }
    if to != t.owner {
        lemma_remove_pair_contains(c.token_index, (t.owner, token_id), (t.owner, token_id));
        lemma_push_contains(mid, (to, token_id), (t.owner, token_id));
    }
}

/// Escrow settlement: a successful purchase consumes the sale — the record
/// is gone, a second purchase of the same id fails `NotFound` whatever
/// funds it attaches, and the marketplace stays well formed.
pub proof fn law_purchase_settles_once(c: MarketV, info: InfoV, token_id: Seq<char>, info2: InfoV)
    requires
        wf_market(c),
        spec_purchase(c, info, token_id).1 is Ok,
    ensures
        ({
            let c2 = spec_purchase(c, info, token_id).0;
            &&& wf_market(c2)
            &&& !has_key(c2.sales, token_id)
            &&& spec_purchase(c2, info2, token_id) == (
                c2,
                Err::<ResponseV, MarketError>(MarketError::NotFound {}),
            )
        }),
{
    let c2 = spec_purchase(c, info, token_id).0;
    let sale = find_val(c.sales, token_id).unwrap();
    lemma_wf_after_sale_remove(c, c2, token_id, sale);
    lemma_find_remove_same(c.sales, token_id);
}

/// Escrow settlement: attached funds that miss the denomination or do not
/// match the asked amount exactly are rejected with `InvalidDeposit`, and
/// the sale remains untouched.
pub proof fn law_purchase_exact_match(c: MarketV, info: InfoV, token_id: Seq<char>)
    requires
        wf_market(c),
        has_key(c.sales, token_id),
    ensures
        ({
            let sale = find_val(c.sales, token_id).unwrap();
            &&& (spec_purchase(c, info, token_id).1 is Ok) <==> (match find_coin(
                info.funds,
                sale.price.denom,
            ) {
                Some(coin) => coin.amount == sale.price.amount,
                None => false,
            })
            &&& (spec_purchase(c, info, token_id).1 is Err) ==> spec_purchase(c, info, token_id)
                == (c, Err::<ResponseV, MarketError>(MarketError::InvalidDeposit {}))
        }),
{
}

/// Every receive outcome leaves the marketplace well formed.
pub proof fn law_receive_preserves_wf(c: MarketV, sender: Seq<char>, msg: MarketCw721ReceiveMsgV)
    requires
        wf_market(c),
    ensures
        wf_market(spec_receive_nft(c, sender, msg).0),
{
    if !has_key(c.sales, msg.token_id) {
        let sale = SaleV {
            token_id: msg.token_id,
            owner: msg.sender,
            contract: sender,
            price: msg.msg.price,
        };
        lemma_wf_after_sale_insert(c, spec_receive_nft(c, sender, msg).0, sale);
    }
}

/// Lazy-mint round trip: a successful lazy purchase issues exactly one
/// tagged, always-replied mint request; a completion callback carrying the
/// registry's confirmed mint re-emits the mint's own attributes; a
/// mismatched tag or a failed call yields `InvalidReply`, and neither step
/// touches any state.
pub proof fn law_lazy_mint_round_trip(
    m: MarketV,
    buyer: Seq<char>,
    token_id: Seq<char>,
    c: ContractV,
    reg_sender: Seq<char>,
    mint_msg: TokenMsgV,
    event_ty: Seq<char>,
)
    requires
        wf_market(m),
        has_key(m.lazy_sales, token_id),
        spec_mint(c, reg_sender, mint_msg).1 is Ok,
    ensures
        ({
            let lazy = find_val(m.lazy_sales, token_id).unwrap();
            let request = spec_purchase_lazy(m, buyer, token_id);
            &&& request is Ok
            &&& request.unwrap().messages == seq![
                SubMsgV {
                    id: MINT_RESPONSE_ID,
                    reply_on: ReplyOn::Always,
                    msg: CosmosMsgV::ExecuteCw721 {
                        contract_addr: lazy.contract,
                        msg: ExecuteMsgCw721V::Mint {
                            token_id: token_id,
                            owner: buyer,
                            token_uri: None,
                        },
                    },
                },
            ]
        }),
        ({
            let confirmation = spec_mint(c, reg_sender, mint_msg).1.unwrap().attributes;
            let reply = ReplyV {
                id: MINT_RESPONSE_ID,
                result: Ok(
                    SubMsgResponseV {
                        events: seq![EventV { ty: event_ty, attributes: confirmation }],
                    },
                ),
            };
            spec_reply(reply) == Ok::<ResponseV, MarketError>(resp_attrs(confirmation))
        }),
{
    let confirmation = spec_mint(c, reg_sender, mint_msg).1.unwrap().attributes;
    let ev = EventV { ty: event_ty, attributes: confirmation };
    assert(confirmation[0] == attr("action"@, "mint"@));
    assert(has_mint_attr(ev));
    let events = seq![ev];
    assert(events.drop_first() =~= Seq::<EventV>::empty());
}

/// A completion callback with an unrecognized tag, or one reporting that
/// the call failed, or one whose result carries no mint confirmation, is
/// rejected with `InvalidReply`.
pub proof fn law_reply_rejects(r: ReplyV)
    requires
        r.id != MINT_RESPONSE_ID || r.result is Err || (r.result matches Ok(resp)
            && crate::market::execute::find_mint_event(resp.events) is None),
    ensures
        spec_reply(r) == Err::<ResponseV, MarketError>(MarketError::InvalidReply {}),
{
}

} // verus!
