//! Registry operations.
//!
//! Each operation is atomic: the token table and the owner index move in
//! one step, or the call is rejected with no state change.  The spec
//! transition functions state each outcome exactly; the executable methods
//! are proved to realise them.

use vstd::prelude::*;
use crate::types::{Addr, MessageInfo, attr};
use crate::shim::{Response, ResponseV, resp_empty, resp_attrs, res_to_view, CosmosMsg, CosmosMsgV,
    Payload, PayloadV, Cw721ReceiveMsg, Cw721ReceiveMsgV, plain_msg};
use crate::store::{find_val, has_key, insert_val, update_val, remove_pair,
    lemma_insert_val_props, lemma_update_val_props, lemma_find_insert_same,
    lemma_find_insert_other, lemma_find_update_same, lemma_find_update_other, lemma_push_contains,
    lemma_push_no_dup, lemma_remove_pair_contains, lemma_remove_pair_no_dup, Table, PairList,
    str_eq};
use crate::state::{Contract, ContractV, Token, TokenV, TokenIndex, wf_contract, token_live};
use crate::msg::{InstantiateMsg, InstantiateMsgV, TokenMsg, TokenMsgV, ExecuteMsg};
use crate::response::{ContractInfoResponse, ContractInfoV};
use crate::error::ContractError;

verus! {

/// Initialisation: the caller becomes the administrative owner, the given
/// address the minter; the token table starts empty.
pub open spec fn spec_instantiate(sender: Seq<char>, msg: InstantiateMsgV) -> (
    ContractV,
    ResponseV,
) {
    (
        ContractV {
            owner: sender,
            contract_info: ContractInfoV { name: msg.name, symbol: msg.symbol },
            minter: msg.minter,
            tokens: Seq::empty(),
            token_index: Seq::empty(),
        },
        resp_empty(),
    )
}

/// The token-URI attribute of a mint confirmation; a placeholder stands in
/// when the token has none.
pub open spec fn uri_attr(token_uri: Option<Seq<char>>) -> Seq<char> {
    match token_uri {
        Some(u) => u,
        None => "zxc"@,
    }
}

/// Mint: only the minter may create a token, and only under a fresh id.
/// The insert is decided atomically on the primary table, so no two mints
/// of one id can both succeed.
pub open spec fn spec_mint(c: ContractV, sender: Seq<char>, msg: TokenMsgV) -> (
    ContractV,
    Result<ResponseV, ContractError>,
) {
    if sender != c.minter {
        (c, Err(ContractError::Unauthorized {}))
    } else if has_key(c.tokens, msg.token_id) {
        (c, Err(ContractError::TokenAlreadyExists {}))
    } else {
        let token = TokenV { owner: msg.owner, token_id: msg.token_id, token_uri: msg.token_uri };
        (
            ContractV {
                tokens: insert_val(c.tokens, msg.token_id, token),
                token_index: c.token_index.push((msg.owner, msg.token_id)),
                ..c
            },
            Ok(
                resp_attrs(
                    seq![
                        attr("action"@, "mint"@),
                        attr("token_id"@, msg.token_id),
                        attr("owner"@, msg.owner),
                        attr("token_uri"@, uri_attr(msg.token_uri)),
                    ],
                ),
            ),
        )
    }
}

/// Ownership transfer: only the current owner may move a token; the owner
/// field and the owner index change together, nothing else.
pub open spec fn spec_internal_transfer(
    c: ContractV,
    sender: Seq<char>,
    token_id: Seq<char>,
    to: Seq<char>,
) -> (ContractV, Result<TokenV, ContractError>) {
    match find_val(c.tokens, token_id) {
        None => (c, Err(ContractError::NotFound {})),
        Some(t) => if t.owner != sender {
            (c, Err(ContractError::Unauthorized {}))
        } else {
            let t2 = TokenV { owner: to, ..t };
            (
                ContractV {
                    tokens: update_val(c.tokens, token_id, t2),
                    token_index: remove_pair(c.token_index, (t.owner, token_id)).push(
                        (to, token_id),
                    ),
                    ..c
                },
                Ok(t2),
            )
        },
    }
}

/// A transfer reported to the caller.
pub open spec fn spec_transfer_nft(
    c: ContractV,
    sender: Seq<char>,
    token_id: Seq<char>,
    to: Seq<char>,
) -> (ContractV, Result<ResponseV, ContractError>) {
    let (c2, r) = spec_internal_transfer(c, sender, token_id, to);
    match r {
        Err(e) => (c2, Err(e)),
        Ok(_) => (
            c2,
            Ok(
                resp_attrs(
                    seq![
                        attr("action"@, "transfer"@),
                        attr("receiver"@, to),
                        attr("token_id"@, token_id),
                    ],
                ),
            ),
        ),
    }
}

/// A send: the destination contract becomes the owner, and a notification
/// carrying the payload goes out to it.
pub open spec fn spec_send_nft(
    c: ContractV,
    sender: Seq<char>,
    token_id: Seq<char>,
    contract: Seq<char>,
    payload: PayloadV,
) -> (ContractV, Result<ResponseV, ContractError>) {
    let (c2, r) = spec_internal_transfer(c, sender, token_id, contract);
    match r {
        Err(e) => (c2, Err(e)),
        Ok(_) => (
            c2,
            Ok(
                ResponseV {
                    messages: seq![
                        plain_msg(
                            CosmosMsgV::NotifyReceive {
                                contract_addr: contract,
                                msg: Cw721ReceiveMsgV {
                                    sender: sender,
                                    token_id: token_id,
                                    msg: payload,
                                },
                            },
                        ),
                    ],
                    attributes: seq![
                        attr("action"@, "transfer"@),
                        attr("receiver"@, contract),
                        attr("token_id"@, token_id),
                    ],
                },
            ),
        ),
    }
}

/// A received-token notification: the payload must decode to plain text,
/// which is re-emitted with the notification's data.
pub open spec fn spec_receive_nft(msg: Cw721ReceiveMsgV) -> Result<ResponseV, ContractError> {
    match msg.msg {
        PayloadV::Text(s) => Ok(
            resp_attrs(
                seq![
                    attr("action"@, "receive"@),
                    attr("sender"@, msg.sender),
                    attr("token_id"@, msg.token_id),
                    attr("msg"@, s),
                ],
            ),
        ),
        PayloadV::Sale(_) => Err(ContractError::DecodeError {}),
    }
}

/// Inserting a fresh token and its index pair in one step keeps the state
/// well formed.
pub proof fn lemma_wf_after_token_insert(c: ContractV, c2: ContractV, token: TokenV)
    requires
        wf_contract(c),
        !has_key(c.tokens, token.token_id),
        c2.tokens == insert_val(c.tokens, token.token_id, token),
        c2.token_index == c.token_index.push((token.owner, token.token_id)),
    ensures
        wf_contract(c2),
{
    let k = token.token_id;
    let pair = (token.owner, k);
    let p = lemma_insert_val_props(c.tokens, k, token);
    c.tokens.insert_ensures(p, (k, token));
    assert(c2.tokens =~= c.tokens.insert(p, (k, token)));
    assert forall|i: int| 0 <= i < c2.tokens.len() implies (#[trigger] c2.tokens[i]).1.token_id
        == c2.tokens[i].0 by {
        if i < p {
            assert(c2.tokens[i] == c.tokens[i]);
        } else if i > p {
            assert(c2.tokens[i] == c.tokens[i - 1]);
        }
    }
    if c.token_index.contains(pair) {
        let j = choose|j: int| 0 <= j < c.token_index.len() && c.token_index[j] == pair;
        assert(token_live(c.tokens, pair));
        assert(false);
    }
    lemma_push_no_dup(c.token_index, pair);
    assert forall|i: int| 0 <= i < c2.token_index.len() implies token_live(
        c2.tokens,
        #[trigger] c2.token_index[i],
    ) by {
        if i < c.token_index.len() {
            let q = c.token_index[i];
            assert(token_live(c.tokens, q));
            assert(q.1 != k);
            lemma_find_insert_other(c.tokens, k, token, q.1);
        } else {
            assert(c2.token_index[i] == pair);
            lemma_find_insert_same(c.tokens, k, token);
        }
    }
    assert forall|i: int| 0 <= i < c2.tokens.len() implies c2.token_index.contains(
        ((#[trigger] c2.tokens[i]).1.owner, c2.tokens[i].0),
    ) by {
        if i == p {
            lemma_push_contains(c.token_index, pair, pair);
        } else {
            let q0: int = if i < p { i } else { i - 1 };
            assert(c2.tokens[i] == c.tokens[q0]);
            lemma_push_contains(c.token_index, pair, (c.tokens[q0].1.owner, c.tokens[q0].0));
        }
    }
}

/// Re-owning a token and swapping its index pair in one step keeps the
/// state well formed.
pub proof fn lemma_wf_after_transfer(c: ContractV, c2: ContractV, k: Seq<char>, t: TokenV, to: Seq<char>)
    requires
        wf_contract(c),
        find_val(c.tokens, k) == Some(t),
        c2.tokens == update_val(c.tokens, k, (TokenV { owner: to, ..t })),
        c2.token_index == remove_pair(c.token_index, (t.owner, k)).push((to, k)),
    ensures
        wf_contract(c2),
{
    let t2 = TokenV { owner: to, ..t };
    let oldpair = (t.owner, k);
    let newpair = (to, k);
    let i = lemma_update_val_props(c.tokens, k, t2);
    assert(c.tokens[i].1 == t);
    assert(t.token_id == k);
    assert(c2.tokens =~= c.tokens.update(i, (k, t2)));
    let mid = remove_pair(c.token_index, oldpair);
    lemma_remove_pair_no_dup(c.token_index, oldpair);
    lemma_remove_pair_contains(c.token_index, oldpair, newpair);
    if mid.contains(newpair) {
        assert(newpair != oldpair && c.token_index.contains(newpair));
        let j = choose|j: int| 0 <= j < c.token_index.len() && c.token_index[j] == newpair;
        assert(token_live(c.tokens, newpair));
        assert(find_val(c.tokens, k) == Some(t));
        assert(t.owner == to);
        assert(false);
    }
    lemma_push_no_dup(mid, newpair);
    // each entry still records its own key
    assert forall|x: int| 0 <= x < c2.tokens.len() implies (#[trigger] c2.tokens[x]).1.token_id
        == c2.tokens[x].0 by {
        if x != i {
            assert(c2.tokens[x] == c.tokens[x]);
        }
    }
    // every index entry points at a live token
    assert forall|x: int| 0 <= x < c2.token_index.len() implies token_live(
        c2.tokens,
        #[trigger] c2.token_index[x],
    ) by {
        if x < mid.len() {
            let q = mid[x];
            assert(mid.contains(q));
            lemma_remove_pair_contains(c.token_index, oldpair, q);
            assert(q != oldpair && c.token_index.contains(q));
            let j = choose|j: int| 0 <= j < c.token_index.len() && c.token_index[j] == q;
            assert(token_live(c.tokens, q));
            if q.1 == k {
                assert(find_val(c.tokens, q.1) == Some(t));
                assert(q.0 == t.owner);
                assert(false);
            }
            lemma_find_update_other(c.tokens, k, t2, q.1);
            assert(c2.token_index[x] == q);
        } else {
            assert(c2.token_index[x] == newpair);
            lemma_find_update_same(c.tokens, k, t2);
        }
    }
    // every token is indexed
    assert forall|x: int| 0 <= x < c2.tokens.len() implies c2.token_index.contains(
        ((#[trigger] c2.tokens[x]).1.owner, c2.tokens[x].0),
    ) by {
        if x == i {
            lemma_push_contains(mid, newpair, newpair);
        } else {
            assert(c2.tokens[x] == c.tokens[x]);
            let q = (c.tokens[x].1.owner, c.tokens[x].0);
            assert(c.token_index.contains(q));
            assert(c.tokens[x].0 != k) by {
                crate::lex::lemma_lex_lt_irreflexive(c.tokens[i].0);
            }
            lemma_remove_pair_contains(c.token_index, oldpair, q);
            lemma_push_contains(mid, newpair, q);
        }
    }
}

impl Contract {
    /// Initialises the registry.  The caller becomes the administrative
    /// owner; the given (host-validated) address becomes the minter.
    pub fn instantiate(info: MessageInfo, msg: InstantiateMsg) -> (r: (Contract, Response))
        ensures
            r.0.wf(),
            (r.0@, r.1@) == spec_instantiate(info@.sender, msg@),
    {
        let ghost sv = info@.sender;
        let ghost mv = msg@;
        let contract = Contract {
            owner: info.sender,
            contract_info: ContractInfoResponse { name: msg.name, symbol: msg.symbol },
            minter: Addr::new(msg.minter),
            tokens: Table::new(),
            token_index: TokenIndex { owner: PairList::new() },
        };
        let resp = Response::new();
        proof {
            assert(contract@ =~= spec_instantiate(sv, mv).0);
            assert(resp@ =~= spec_instantiate(sv, mv).1);
        }
        (contract, resp)
    }

    /// Dispatches one operation.
    pub fn execute(&mut self, info: MessageInfo, msg: ExecuteMsg) -> (r: Result<
        Response,
        ContractError,
    >)
        requires
            old(self).wf(),
        ensures
            final(self).wf(),
            match msg {
                ExecuteMsg::Mint { token } => (final(self)@, res_to_view(&r)) == spec_mint(
                    old(self)@,
                    info@.sender,
                    token@,
                ),
                ExecuteMsg::TransferNft { token_id, to } => (final(self)@, res_to_view(&r))
                    == spec_transfer_nft(old(self)@, info@.sender, token_id@, to@),
                ExecuteMsg::SendNft { token_id, contract, msg } => (final(self)@, res_to_view(&r))
                    == spec_send_nft(old(self)@, info@.sender, token_id@, contract@, msg@),
                ExecuteMsg::ReceiveNft(m) => final(self)@ == old(self)@ && res_to_view(&r)
                    == spec_receive_nft(m@),
            },
    {
        match msg {
            ExecuteMsg::Mint { token } => self.mint(info, token),
            ExecuteMsg::TransferNft { token_id, to } => self.transfer_nft(info, token_id, to),
            ExecuteMsg::SendNft { token_id, contract, msg } => self.send_nft(
                info,
                token_id,
                contract,
                msg,
            ),
            ExecuteMsg::ReceiveNft(m) => self.receive_nft(m),
        }
    }

    /// Creates a token under a fresh id.  Only the minter may mint; a taken
    /// id is rejected atomically, leaving the existing token unchanged.
    pub fn mint(&mut self, info: MessageInfo, msg: TokenMsg) -> (r: Result<
        Response,
        ContractError,
    >)
        requires
            old(self).wf(),
        ensures
            final(self).wf(),
            (final(self)@, res_to_view(&r)) == spec_mint(old(self)@, info@.sender, msg@),
    {
        let ghost pre = self@;
        if !str_eq(info.sender.as_str(), self.minter.as_str()) {
            return Err(ContractError::Unauthorized {});
        }
        let token = Token {
            owner: Addr::new(msg.owner.clone()),
            token_id: msg.token_id.clone(),
            token_uri: match &msg.token_uri {
                Some(u) => Some(u.clone()),
                None => None,
            },
        };
        let ghost tokenv = token@;
        let inserted = self.tokens.try_insert(msg.token_id.as_str(), token);
        if !inserted {
            return Err(ContractError::TokenAlreadyExists {});
        }
        self.token_index.owner.add(msg.owner.as_str(), msg.token_id.as_str());
        proof {
            assert(self@ =~= (ContractV {
                tokens: insert_val(pre.tokens, msg.token_id@, tokenv),
                token_index: pre.token_index.push((msg.owner@, msg.token_id@)),
                ..pre
            }));
            lemma_wf_after_token_insert(pre, self@, tokenv);
        }
        let resp = match &msg.token_uri {
            Some(u) => Response::new()
                .add_attribute("action", "mint")
                .add_attribute("token_id", msg.token_id.as_str())
                .add_attribute("owner", msg.owner.as_str())
                .add_attribute("token_uri", u.as_str()),
            None => Response::new()
                .add_attribute("action", "mint")
                .add_attribute("token_id", msg.token_id.as_str())
                .add_attribute("owner", msg.owner.as_str())
                .add_attribute("token_uri", "zxc"),
        };
        proof {
            assert(resp@ =~~= spec_mint(pre, info@.sender, msg@).1.unwrap());
        }
        Ok(resp)
    }

    /// Moves a token to a new owner and reports the transfer.
    pub fn transfer_nft(&mut self, info: MessageInfo, token_id: String, to: String) -> (r: Result<
        Response,
        ContractError,
    >)
        requires
            old(self).wf(),
        ensures
            final(self).wf(),
            (final(self)@, res_to_view(&r)) == spec_transfer_nft(
                old(self)@,
                info@.sender,
                token_id@,
                to@,
            ),
    {
        match self.internal_transfer(&info, token_id.as_str(), to.as_str()) {
            Err(e) => Err(e),
            Ok(_) => {
                let resp = Response::new()
                    .add_attribute("action", "transfer")
                    .add_attribute("receiver", to.as_str())
                    .add_attribute("token_id", token_id.as_str());
                proof {
                    assert(resp@ =~~= spec_transfer_nft(
                        old(self)@,
                        info@.sender,
                        token_id@,
                        to@,
                    ).1.unwrap());
                }
                Ok(resp)
            },
        }
    }

    /// Moves a token into the custody of `contract` and notifies it,
    /// carrying the payload.
    pub fn send_nft(
        &mut self,
        info: MessageInfo,
        token_id: String,
        contract: String,
        msg: Payload,
    ) -> (r: Result<Response, ContractError>)
        requires
            old(self).wf(),
        ensures
            final(self).wf(),
            (final(self)@, res_to_view(&r)) == spec_send_nft(
                old(self)@,
                info@.sender,
                token_id@,
                contract@,
                msg@,
            ),
    {
        match self.internal_transfer(&info, token_id.as_str(), contract.as_str()) {
            Err(e) => Err(e),
            Ok(_) => {
                let send_msg = Cw721ReceiveMsg {
                    sender: info.sender.into_string(),
                    token_id: token_id.clone(),
                    msg,
                };
                let notify = CosmosMsg::NotifyReceive {
                    contract_addr: contract.clone(),
                    msg: send_msg,
                };
                let resp = Response::new()
                    .add_message(notify)
                    .add_attribute("action", "transfer")
                    .add_attribute("receiver", contract.as_str())
                    .add_attribute("token_id", token_id.as_str());
                proof {
                    assert(resp@ =~~= spec_send_nft(
                        old(self)@,
                        info@.sender,
                        token_id@,
                        contract@,
                        msg@,
                    ).1.unwrap());
                }
                Ok(resp)
            },
        }
    }

    /// A received-token notification: re-emits the decoded text payload.
    /// Leaves the registry unchanged.
    pub fn receive_nft(&self, msg: Cw721ReceiveMsg) -> (r: Result<Response, ContractError>)
        ensures
            res_to_view(&r) == spec_receive_nft(msg@),
    {
        let inner = match msg.msg {
            Payload::Text(s) => s,
            Payload::Sale(_) => {
                return Err(ContractError::DecodeError {});
            },
        };
        let resp = Response::new()
            .add_attribute("action", "receive")
            .add_attribute("sender", msg.sender.as_str())
            .add_attribute("token_id", msg.token_id.as_str())
            .add_attribute("msg", inner.as_str());
        proof {
            assert(resp@ =~~= spec_receive_nft(msg@).unwrap());
        }
        Ok(resp)
    }

    /// The shared transfer step: checks ownership, re-owns the token, and
    /// swaps the owner-index pair, all in one atomic unit.
    pub fn internal_transfer(&mut self, info: &MessageInfo, token_id: &str, to: &str) -> (r:
        Result<Token, ContractError>)
        requires
            old(self).wf(),
        ensures
            final(self).wf(),
            ({
                let (c2, sr) = spec_internal_transfer(old(self)@, info@.sender, token_id@, to@);
                final(self)@ == c2 && (match (&r, sr) {
                    (Ok(tok), Ok(tv)) => tok@ == tv,
                    (Err(e), Err(ev)) => *e == ev,
                    _ => false,
                })
            }),
    {
        let ghost pre = self@;
        let token = match self.tokens.load(token_id) {
            None => {
                return Err(ContractError::NotFound {});
            },
            Some(t) => t.clone(),
        };
        let ghost tv = token@;
        if !str_eq(token.owner.as_str(), info.sender.as_str()) {
            return Err(ContractError::Unauthorized {});
        }
        let updated = Token {
            owner: Addr::new(to.to_owned()),
            token_id: token.token_id,
            token_uri: token.token_uri,
        };
        let ghost t2 = updated@;
        let result = updated.clone();
        self.tokens.save(token_id, updated);
        let removed = self.token_index.owner.remove(token.owner.as_str(), token_id);
        proof {
            let i = lemma_update_val_props(pre.tokens, token_id@, t2);
            assert(pre.token_index.contains((tv.owner, token_id@))) by {
                assert(pre.tokens[i].1 == tv);
            }
            assert(removed);
        }
        self.token_index.owner.add(to, token_id);
        proof {
            assert(t2 =~= (TokenV { owner: to@, ..tv }));
            assert(self@ =~= (ContractV {
                tokens: update_val(pre.tokens, token_id@, t2),
                token_index: remove_pair(pre.token_index, (tv.owner, token_id@)).push(
                    (to@, token_id@),
                ),
                ..pre
            }));
            lemma_wf_after_transfer(pre, self@, token_id@, tv, to@);
        }
        Ok(result)
    }
}

} // verus!
