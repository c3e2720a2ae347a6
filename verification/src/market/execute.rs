//! Marketplace operations.
//!
//! Each operation is atomic: it either applies in full — the primary table
//! and its index move in one step — or it rejects the call and leaves the
//! state untouched.  The spec transition functions (`spec_receive_nft`,
//! `spec_purchase`, ...) state each outcome exactly; the executable methods
//! are proved to realise them.

use vstd::prelude::*;
use crate::types::{Coin, CoinV, coins_view, Addr, MessageInfo, InfoV, attr, dec_str, u128_to_dec};
use crate::shim::{Response, ResponseV, resp_empty, resp_attrs, res_to_view, CosmosMsg, CosmosMsgV,
    SubMsg, SubMsgV, ReplyOn, plain_msg, Reply, ReplyV, Event, EventV, ExecuteMsgCw721,
    ExecuteMsgCw721V};
use crate::store::{find_val, has_key, insert_val, remove_val, remove_pair,
    lemma_insert_val_props, lemma_remove_val_props, lemma_find_insert_same,
    lemma_find_insert_other, lemma_find_remove_other, lemma_push_contains, lemma_push_no_dup,
    lemma_remove_pair_contains, lemma_remove_pair_no_dup, lemma_find_exists, Table, PairList,
    KeyList, str_eq};
use crate::lex::lemma_lex_lt_irreflexive;
use crate::market::state::{Contract, Sale, SaleV, LazyNft, LazyNftV, SaleIndex,
    LazyNftIndex, MarketV, wf_market, sale_live};
use crate::market::msg::{InstantiateMsg, ExecuteMsg, Cw721ReceiveMsg, Cw721ReceiveMsgV,
    ReceiveLazyNftMsg};
use crate::market::error::ContractError;

verus! {

/// The correlation id tagging the mint request that `purchase_lazy` issues.
pub const MINT_RESPONSE_ID: u64 = 1;

/// The first attached coin of the wanted denomination.
pub open spec fn find_coin(funds: Seq<CoinV>, denom: Seq<char>) -> Option<CoinV>
    decreases funds.len(),
{
    if funds.len() == 0 {
        None
    } else if funds[0].denom == denom {
        Some(funds[0])
    } else {
        find_coin(funds.drop_first(), denom)
    }
}

/// Initialisation: records the administrative owner over empty tables.
pub open spec fn spec_instantiate(sender: Seq<char>) -> (MarketV, ResponseV) {
    (
        MarketV {
            owner: sender,
            sales: Seq::empty(),
            sale_index: Seq::empty(),
            lazy_sales: Seq::empty(),
            lazy_index: Seq::empty(),
        },
        resp_empty(),
    )
}

/// A token arrived in custody: record the sale, unless one already exists.
pub open spec fn spec_receive_nft(c: MarketV, sender: Seq<char>, msg: Cw721ReceiveMsgV) -> (
    MarketV,
    Result<ResponseV, ContractError>,
) {
    if has_key(c.sales, msg.token_id) {
        (c, Err(ContractError::AlreadyExists {}))
    } else {
        let sale = SaleV {
            token_id: msg.token_id,
            owner: msg.sender,
            contract: sender,
            price: msg.msg.price,
        };
        (
            MarketV {
                sales: insert_val(c.sales, msg.token_id, sale),
                sale_index: c.sale_index.push((msg.sender, msg.token_id)),
                ..c
            },
            Ok(
                resp_attrs(
                    seq![
                        attr("action"@, "receive"@),
                        attr("token_id"@, msg.token_id),
                        attr("owner"@, msg.sender),
                        attr("buy_token"@, msg.msg.price.denom),
                        attr("buy_price"@, dec_str(msg.msg.price.amount as nat)),
                    ],
                ),
            ),
        )
    }
}

/// Registers a lazy-mint promise, unless one already exists.
pub open spec fn spec_receive_lazy_nft(c: MarketV, contract: Seq<char>, token_id: Seq<char>) -> (
    MarketV,
    Result<ResponseV, ContractError>,
) {
    if has_key(c.lazy_sales, token_id) {
        (c, Err(ContractError::AlreadyExists {}))
    } else {
        let lazy = LazyNftV { token_id: token_id, contract: contract };
        (
            MarketV {
                lazy_sales: insert_val(c.lazy_sales, token_id, lazy),
                lazy_index: c.lazy_index.push(token_id),
                ..c
            },
            Ok(resp_empty()),
        )
    }
}

/// The lister cancels a sale: only the bookkeeping record is deleted; the
/// escrowed token itself stays in marketplace custody.
pub open spec fn spec_remove_sale(c: MarketV, sender: Seq<char>, token_id: Seq<char>) -> (
    MarketV,
    Result<ResponseV, ContractError>,
) {
    match find_val(c.sales, token_id) {
        None => (c, Err(ContractError::NotFound {})),
        Some(sale) => if sender != sale.owner {
            (c, Err(ContractError::Unauthorized {}))
        } else {
            (
                MarketV {
                    sales: remove_val(c.sales, token_id),
                    sale_index: remove_pair(c.sale_index, (sale.owner, token_id)),
                    ..c
                },
                Ok(
                    resp_attrs(
                        seq![attr("action"@, "remove_sale"@), attr("token_id"@, sale.token_id)],
                    ),
                ),
            )
        },
    }
}

/// Settlement: with attached funds matching the price exactly, the sale is
/// removed, the deposit goes to the lister, and a transfer instruction moves
/// the token to the buyer.  The record is gone before the effects go out, so
/// the sale can never settle twice.
pub open spec fn spec_purchase(c: MarketV, info: InfoV, token_id: Seq<char>) -> (
    MarketV,
    Result<ResponseV, ContractError>,
) {
    match find_val(c.sales, token_id) {
        None => (c, Err(ContractError::NotFound {})),
        Some(sale) => match find_coin(info.funds, sale.price.denom) {
            None => (c, Err(ContractError::InvalidDeposit {})),
            Some(coin) => if coin.amount != sale.price.amount {
                (c, Err(ContractError::InvalidDeposit {}))
            } else {
                (
                    MarketV {
                        sales: remove_val(c.sales, token_id),
                        sale_index: remove_pair(c.sale_index, (sale.owner, token_id)),
                        ..c
                    },
                    Ok(
                        ResponseV {
                            messages: seq![
                                plain_msg(
                                    CosmosMsgV::BankSend {
                                        to_address: sale.owner,
                                        amount: seq![coin],
                                    },
                                ),
                                plain_msg(
                                    CosmosMsgV::ExecuteCw721 {
                                        contract_addr: sale.contract,
                                        msg: ExecuteMsgCw721V::TransferNft {
                                            to: info.sender,
                                            token_id: token_id,
                                        },
                                    },
                                ),
                            ],
                            attributes: seq![
                                attr("action"@, "purchase"@),
                                attr("buyer"@, info.sender),
                                attr("token_id"@, token_id),
                                attr("buy_token"@, coin.denom),
                                attr("buy_price"@, dec_str(coin.amount as nat)),
                            ],
                        },
                    ),
                )
            },
        },
    }
}

/// A lazy purchase issues a mint request tagged `MINT_RESPONSE_ID`, with a
/// completion callback requested whatever the outcome.  The state does not
/// change; the promise itself stays listed.
pub open spec fn spec_purchase_lazy(c: MarketV, sender: Seq<char>, token_id: Seq<char>) -> Result<
    ResponseV,
    ContractError,
> {
    match find_val(c.lazy_sales, token_id) {
        None => Err(ContractError::NotFound {}),
        Some(lazy) => Ok(
            ResponseV {
                messages: seq![
                    SubMsgV {
                        id: MINT_RESPONSE_ID,
                        reply_on: ReplyOn::Always,
                        msg: CosmosMsgV::ExecuteCw721 {
                            contract_addr: lazy.contract,
                            msg: ExecuteMsgCw721V::Mint {
                                token_id: token_id,
                                owner: sender,
                                token_uri: None,
                            },
                        },
                    },
                ],
                attributes: seq![attr("action"@, "lazy_mint"@)],
            },
        ),
    }
}

/// Whether an event carries the confirmation attribute of a mint.
pub open spec fn has_mint_attr(e: EventV) -> bool {
    exists|i: int| 0 <= i < e.attributes.len() && e.attributes[i] == attr("action"@, "mint"@)
}

/// The first event carrying a mint confirmation.
pub open spec fn find_mint_event(events: Seq<EventV>) -> Option<EventV>
    decreases events.len(),
{
    if events.len() == 0 {
        None
    } else if has_mint_attr(events[0]) {
        Some(events[0])
    } else {
        find_mint_event(events.drop_first())
    }
}

/// The completion handler: an unrecognized tag, a failed call, or a result
/// without a mint confirmation is rejected; a confirmed mint has its
/// attributes re-emitted as this operation's own.
pub open spec fn spec_reply(r: ReplyV) -> Result<ResponseV, ContractError> {
    if r.id != MINT_RESPONSE_ID {
        Err(ContractError::InvalidReply {})
    } else {
        match r.result {
            Err(_) => Err(ContractError::InvalidReply {}),
            Ok(resp) => match find_mint_event(resp.events) {
                None => Err(ContractError::InvalidReply {}),
                Some(e) => Ok(resp_attrs(e.attributes)),
            },
        }
    }
}

/// Inserting a fresh sale and its index pair in one step keeps the state
/// well formed.
pub proof fn lemma_wf_after_sale_insert(c: MarketV, c2: MarketV, sale: SaleV)
    requires
        wf_market(c),
        !has_key(c.sales, sale.token_id),
        c2.sales == insert_val(c.sales, sale.token_id, sale),
        c2.sale_index == c.sale_index.push((sale.owner, sale.token_id)),
        c2.lazy_sales == c.lazy_sales,
        c2.lazy_index == c.lazy_index,
    ensures
        wf_market(c2),
{
    let k = sale.token_id;
    let pair = (sale.owner, k);
    let p = lemma_insert_val_props(c.sales, k, sale);
    c.sales.insert_ensures(p, (k, sale));
    assert(c2.sales =~= c.sales.insert(p, (k, sale)));
    assert forall|i: int| 0 <= i < c2.sales.len() implies (#[trigger] c2.sales[i]).1.token_id
        == c2.sales[i].0 by {
        if i < p {
            assert(c2.sales[i] == c.sales[i]);
        } else if i > p {
            assert(c2.sales[i] == c.sales[i - 1]);
        }
    }
    if c.sale_index.contains(pair) {
        let j = choose|j: int| 0 <= j < c.sale_index.len() && c.sale_index[j] == pair;
        assert(sale_live(c.sales, pair));
        assert(false);
    }
    lemma_push_no_dup(c.sale_index, pair);
    assert forall|i: int| 0 <= i < c2.sale_index.len() implies sale_live(
        c2.sales,
        #[trigger] c2.sale_index[i],
    ) by {
        if i < c.sale_index.len() {
            let q = c.sale_index[i];
            assert(sale_live(c.sales, q));
            assert(q.1 != k);
            lemma_find_insert_other(c.sales, k, sale, q.1);
        } else {
            assert(c2.sale_index[i] == pair);
            lemma_find_insert_same(c.sales, k, sale);
        }
    }
    assert forall|i: int| 0 <= i < c2.sales.len() implies c2.sale_index.contains(
        ((#[trigger] c2.sales[i]).1.owner, c2.sales[i].0),
    ) by {
        if i == p {
            lemma_push_contains(c.sale_index, pair, pair);
        } else {
            let q0: int = if i < p { i } else { i - 1 };
            assert(c2.sales[i] == c.sales[q0]);
            lemma_push_contains(c.sale_index, pair, (c.sales[q0].1.owner, c.sales[q0].0));
        }
    }
}

/// Removing a sale and its index pair in one step keeps the state well
/// formed.
pub proof fn lemma_wf_after_sale_remove(c: MarketV, c2: MarketV, k: Seq<char>, sale: SaleV)
    requires
        wf_market(c),
        find_val(c.sales, k) == Some(sale),
        c2.sales == remove_val(c.sales, k),
        c2.sale_index == remove_pair(c.sale_index, (sale.owner, k)),
        c2.lazy_sales == c.lazy_sales,
        c2.lazy_index == c.lazy_index,
    ensures
        wf_market(c2),
{
    let pair = (sale.owner, k);
    let i = lemma_remove_val_props(c.sales, k);
    c.sales.remove_ensures(i);
    assert(c2.sales =~= c.sales.remove(i));
    assert(c.sales[i].1 == sale);
    assert(sale.token_id == k);
    assert forall|x: int| 0 <= x < c2.sales.len() implies (#[trigger] c2.sales[x]).1.token_id
        == c2.sales[x].0 by {
        if x < i {
            assert(c2.sales[x] == c.sales[x]);
        } else {
            assert(c2.sales[x] == c.sales[x + 1]);
        }
    }
    lemma_remove_pair_no_dup(c.sale_index, pair);
    assert forall|x: int| 0 <= x < c2.sale_index.len() implies sale_live(
        c2.sales,
        #[trigger] c2.sale_index[x],
    ) by {
        let q = c2.sale_index[x];
        assert(c2.sale_index.contains(q));
        lemma_remove_pair_contains(c.sale_index, pair, q);
        assert(q != pair && c.sale_index.contains(q));
        let j = choose|j: int| 0 <= j < c.sale_index.len() && c.sale_index[j] == q;
        assert(sale_live(c.sales, q));
        if q.1 == k {
            assert(find_val(c.sales, q.1) == Some(sale));
            assert(q.0 == sale.owner);
            assert(false);
        }
        lemma_find_remove_other(c.sales, k, q.1);
    }
    assert forall|x: int| 0 <= x < c2.sales.len() implies c2.sale_index.contains(
        ((#[trigger] c2.sales[x]).1.owner, c2.sales[x].0),
    ) by {
        let y: int = if x < i { x } else { x + 1 };
        assert(c2.sales[x] == c.sales[y]);
        let q = (c.sales[y].1.owner, c.sales[y].0);
        assert(c.sale_index.contains(q));
        assert(c.sales[y].0 != k) by {
            lemma_lex_lt_irreflexive(c.sales[i].0);
        }
        lemma_remove_pair_contains(c.sale_index, pair, q);
    }
}

impl Contract {
    /// Initialises the marketplace, recording the caller as its
    /// administrative owner.
    pub fn instantiate(info: MessageInfo, _msg: InstantiateMsg) -> (r: (Contract, Response))
        ensures
            r.0.wf(),
            (r.0@, r.1@) == spec_instantiate(info@.sender),
    {
        let contract = Contract {
            owner: info.sender,
            sales: Table::new(),
            sale_index: SaleIndex { owner: PairList::new() },
            lazy_sales: Table::new(),
            lazy_index: LazyNftIndex { owner: KeyList::new() },
        };
        let resp = Response::new();
        proof {
            assert(contract@ =~= spec_instantiate(info@.sender).0);
            assert(resp@ =~= spec_instantiate(info@.sender).1);
        }
        (contract, resp)
    }

    /// Dispatches one operation.
    pub fn execute(&mut self, info: MessageInfo, msg: ExecuteMsg) -> (r: Result<
        Response,
        ContractError,
    >)
        requires
            old(self).wf(),
        ensures
            final(self).wf(),
            match msg {
                ExecuteMsg::ReceiveNft(m) => (final(self)@, res_to_view(&r)) == spec_receive_nft(
                    old(self)@,
                    info@.sender,
                    m@,
                ),
                ExecuteMsg::ReceiveLazyNft(m) => (final(self)@, res_to_view(&r))
                    == spec_receive_lazy_nft(old(self)@, m.contract@, m.token_id@),
                ExecuteMsg::RemoveSale { token_id } => (final(self)@, res_to_view(&r))
                    == spec_remove_sale(old(self)@, info@.sender, token_id@),
                ExecuteMsg::Purchase { token_id } => (final(self)@, res_to_view(&r))
                    == spec_purchase(old(self)@, info@, token_id@),
                ExecuteMsg::PurchaseLazy { token_id } => final(self)@ == old(self)@
                    && res_to_view(&r) == spec_purchase_lazy(old(self)@, info@.sender, token_id@),
            },
    {
        match msg {
            ExecuteMsg::ReceiveNft(m) => self.receive_nft(info, m),
            ExecuteMsg::ReceiveLazyNft(m) => self.receive_lazy_nft(info, m),
            ExecuteMsg::RemoveSale { token_id } => self.remove_sale(info, token_id),
            ExecuteMsg::Purchase { token_id } => self.purchase(info, token_id),
            ExecuteMsg::PurchaseLazy { token_id } => self.purchase_lazy(info, token_id),
        }
    }

    /// A token moved into custody: record the escrowed sale under its id.
    pub fn receive_nft(&mut self, info: MessageInfo, msg: Cw721ReceiveMsg) -> (r: Result<
        Response,
        ContractError,
    >)
        requires
            old(self).wf(),
        ensures
            final(self).wf(),
            (final(self)@, res_to_view(&r)) == spec_receive_nft(old(self)@, info@.sender, msg@),
    {
        let ghost pre = self@;
        let sale = Sale {
            contract: info.sender,
            token_id: msg.token_id.clone(),
            owner: Addr::new(msg.sender.clone()),
            price: msg.msg.price.clone(),
        };
        let ghost salev = sale@;
        let inserted = self.sales.try_insert(msg.token_id.as_str(), sale);
        if !inserted {
            return Err(ContractError::AlreadyExists {});
        }
        self.sale_index.owner.add(msg.sender.as_str(), msg.token_id.as_str());
        proof {
            assert(self@ =~= (MarketV {
                sales: insert_val(pre.sales, msg.token_id@, salev),
                sale_index: pre.sale_index.push((msg.sender@, msg.token_id@)),
                ..pre
            }));
            lemma_wf_after_sale_insert(pre, self@, salev);
        }
        let price = u128_to_dec(msg.msg.price.amount);
        let resp = Response::new()
            .add_attribute("action", "receive")
            .add_attribute("token_id", msg.token_id.as_str())
            .add_attribute("owner", msg.sender.as_str())
            .add_attribute("buy_token", msg.msg.price.denom.as_str())
            .add_attribute("buy_price", price.as_str());
        proof {
            assert(resp@ =~~= spec_receive_nft(pre, info@.sender, msg@).1.unwrap());
        }
        Ok(resp)
    }

    /// Registers a lazy-mint promise for a token that does not exist yet.
    pub fn receive_lazy_nft(&mut self, _info: MessageInfo, msg: ReceiveLazyNftMsg) -> (r: Result<
        Response,
        ContractError,
    >)
        requires
            old(self).wf(),
        ensures
            final(self).wf(),
            (final(self)@, res_to_view(&r)) == spec_receive_lazy_nft(
                old(self)@,
                msg.contract@,
                msg.token_id@,
            ),
    {
        let ghost pre = self@;
        // the insert-if-absent is decided atomically on the uniqueness index
        if self.lazy_index.owner.contains_key(msg.token_id.as_str()) {
            proof {
                let j = choose|j: int| 0 <= j < pre.lazy_index.len() && pre.lazy_index[j]
                    == msg.token_id@;
            }
            return Err(ContractError::AlreadyExists {});
        }
        let lazy = LazyNft {
            contract: Addr::new(msg.contract),
            token_id: msg.token_id.clone(),
        };
        let ghost lazyv = lazy@;
        proof {
            if has_key(pre.lazy_sales, msg.token_id@) {
                lemma_find_exists(pre.lazy_sales, msg.token_id@);
                let j = choose|j: int| 0 <= j < pre.lazy_sales.len() && pre.lazy_sales[j].0
                    == msg.token_id@;
                assert(pre.lazy_index.contains(pre.lazy_sales[j].0));
                assert(false);
            }
        }
        let inserted = self.lazy_sales.try_insert(msg.token_id.as_str(), lazy);
        proof {
            assert(inserted);
        }
        self.lazy_index.owner.add(msg.token_id.as_str());
        proof {
            assert(self@ =~= (MarketV {
                lazy_sales: insert_val(pre.lazy_sales, msg.token_id@, lazyv),
                lazy_index: pre.lazy_index.push(msg.token_id@),
                ..pre
            }));
            let p = lemma_insert_val_props(pre.lazy_sales, msg.token_id@, lazyv);
            pre.lazy_sales.insert_ensures(p, (msg.token_id@, lazyv));
            assert forall|i: int| 0 <= i < self@.lazy_sales.len() implies (
            #[trigger] self@.lazy_sales[i]).1.token_id == self@.lazy_sales[i].0 by {
                if i < p {
                    assert(self@.lazy_sales[i] == pre.lazy_sales[i]);
                } else if i > p {
                    assert(self@.lazy_sales[i] == pre.lazy_sales[i - 1]);
                }
            }
            lemma_push_no_dup(pre.lazy_index, msg.token_id@);
            assert forall|i: int| 0 <= i < self@.lazy_index.len() implies has_key(
                self@.lazy_sales,
                #[trigger] self@.lazy_index[i],
            ) by {
                if i < pre.lazy_index.len() {
                    let q = pre.lazy_index[i];
                    if q != msg.token_id@ {
                        lemma_find_insert_other(pre.lazy_sales, msg.token_id@, lazyv, q);
                    } else {
                        lemma_find_insert_same(pre.lazy_sales, msg.token_id@, lazyv);
                    }
                } else {
                    lemma_find_insert_same(pre.lazy_sales, msg.token_id@, lazyv);
                }
            }
            assert forall|i: int| 0 <= i < self@.lazy_sales.len() implies self@.lazy_index.contains(
                (#[trigger] self@.lazy_sales[i]).0,
            ) by {
                if i == p {
                    lemma_push_contains(pre.lazy_index, msg.token_id@, msg.token_id@);
                } else {
                    let q0: int = if i < p { i } else { i - 1 };
                    assert(self@.lazy_sales[i] == pre.lazy_sales[q0]);
                    lemma_push_contains(pre.lazy_index, msg.token_id@, pre.lazy_sales[q0].0);
                }
            }
        }
        let resp = Response::new();
        proof {
            assert(resp@ =~= resp_empty());
        }
        Ok(resp)
    }

    /// The lister cancels a sale.  Only the lister may; only the record is
    /// deleted — the escrowed token stays in custody.
    pub fn remove_sale(&mut self, info: MessageInfo, token_id: String) -> (r: Result<
        Response,
        ContractError,
    >)
        requires
            old(self).wf(),
        ensures
            final(self).wf(),
            (final(self)@, res_to_view(&r)) == spec_remove_sale(
                old(self)@,
                info@.sender,
                token_id@,
            ),
    {
        let ghost pre = self@;
        let sale = match self.sales.load(token_id.as_str()) {
            None => {
                return Err(ContractError::NotFound {});
            },
            Some(s) => s.clone(),
        };
        if !str_eq(info.sender.as_str(), sale.owner.as_str()) {
            return Err(ContractError::Unauthorized {});
        }
        let ghost salev = sale@;
        self.sales.delete(token_id.as_str());
        let removed = self.sale_index.owner.remove(sale.owner.as_str(), token_id.as_str());
        proof {
            let i = lemma_remove_val_props(pre.sales, token_id@);
            assert(pre.sale_index.contains((salev.owner, token_id@))) by {
                assert(pre.sales[i].1 == salev);
            }
            assert(removed);
            assert(self@ =~= (MarketV {
                sales: remove_val(pre.sales, token_id@),
                sale_index: remove_pair(pre.sale_index, (salev.owner, token_id@)),
                ..pre
            }));
            lemma_wf_after_sale_remove(pre, self@, token_id@, salev);
        }
        let resp = Response::new()
            .add_attribute("action", "remove_sale")
            .add_attribute("token_id", sale.token_id.as_str());
        proof {
            assert(resp@ =~~= spec_remove_sale(pre, info@.sender, token_id@).1.unwrap());
        }
        Ok(resp)
    }

    /// Settles a purchase against the attached funds.
    pub fn purchase(&mut self, info: MessageInfo, token_id: String) -> (r: Result<
        Response,
        ContractError,
    >)
        requires
            old(self).wf(),
        ensures
            final(self).wf(),
            (final(self)@, res_to_view(&r)) == spec_purchase(old(self)@, info@, token_id@),
    {
        let ghost pre = self@;
        let sale = match self.sales.load(token_id.as_str()) {
            None => {
                return Err(ContractError::NotFound {});
            },
            Some(s) => s.clone(),
        };
        let ghost salev = sale@;
        let ghost fundsv = info@.funds;
        // the first attached coin of the asked denomination
        let found = find_coin_index(&info.funds, sale.price.denom.as_str());
        let ci = match found {
            None => {
                proof {
                    assert(find_coin(fundsv, salev.price.denom) is None);
                }
                return Err(ContractError::InvalidDeposit {});
            },
            Some(ci) => ci,
        };
        let coin = info.funds[ci].clone();
        proof {
            assert(coin@ == fundsv[ci as int]);
            assert(find_coin(fundsv, salev.price.denom) == Some(coin@));
        }
        if coin.amount != sale.price.amount {
            return Err(ContractError::InvalidDeposit {});
        }
        self.sales.delete(token_id.as_str());
        let removed = self.sale_index.owner.remove(sale.owner.as_str(), token_id.as_str());
        proof {
            let i = lemma_remove_val_props(pre.sales, token_id@);
            assert(pre.sale_index.contains((salev.owner, token_id@))) by {
                assert(pre.sales[i].1 == salev);
            }
            assert(removed);
            assert(self@ =~= (MarketV {
                sales: remove_val(pre.sales, token_id@),
                sale_index: remove_pair(pre.sale_index, (salev.owner, token_id@)),
                ..pre
            }));
            lemma_wf_after_sale_remove(pre, self@, token_id@, salev);
        }
        let mut bank_amount: Vec<Coin> = Vec::new();
        bank_amount.push(coin.clone());
        let funds_transfer = CosmosMsg::BankSend {
            to_address: sale.owner.into_string(),
            amount: bank_amount,
        };
        let transfer_msg = CosmosMsg::ExecuteCw721 {
            contract_addr: sale.contract.into_string(),
            msg: ExecuteMsgCw721::TransferNft {
                to: info.sender.as_str().to_owned(),
                token_id: token_id.clone(),
            },
        };
        let price = u128_to_dec(coin.amount);
        let resp = Response::new()
            .add_message(funds_transfer)
            .add_message(transfer_msg)
            .add_attribute("action", "purchase")
            .add_attribute("buyer", info.sender.as_str())
            .add_attribute("token_id", token_id.as_str())
            .add_attribute("buy_token", coin.denom.as_str())
            .add_attribute("buy_price", price.as_str());
        proof {
            assert(resp@ =~~= spec_purchase(pre, info@, token_id@).1.unwrap());
        }
        Ok(resp)
    }

    /// Requests an on-demand mint for a lazily listed token.  The request is
    /// tagged and a completion callback is delivered whatever the outcome;
    /// `reply` finishes the purchase.
    pub fn purchase_lazy(&mut self, info: MessageInfo, token_id: String) -> (r: Result<
        Response,
        ContractError,
    >)
        requires
            old(self).wf(),
        ensures
            final(self).wf(),
            final(self)@ == old(self)@,
            res_to_view(&r) == spec_purchase_lazy(old(self)@, info@.sender, token_id@),
    {
        let lazy = match self.lazy_sales.load(token_id.as_str()) {
            None => {
                return Err(ContractError::NotFound {});
            },
            Some(l) => l.clone(),
        };
        let mint_msg = CosmosMsg::ExecuteCw721 {
            contract_addr: lazy.contract.into_string(),
            msg: ExecuteMsgCw721::Mint {
                token_id: token_id.clone(),
                owner: info.sender.into_string(),
                token_uri: None,
            },
        };
        let resp = Response::new()
            .add_attribute("action", "lazy_mint")
            .add_submessage(SubMsg { id: MINT_RESPONSE_ID, msg: mint_msg, reply_on: ReplyOn::Always });
        proof {
            assert(resp@ =~~= spec_purchase_lazy(self@, info@.sender, token_id@).unwrap());
        }
        Ok(resp)
    }

    /// Routes a completion callback by its correlation id.
    pub fn reply(&self, reply: Reply) -> (r: Result<Response, ContractError>)
        ensures
            res_to_view(&r) == spec_reply(reply@),
    {
        if reply.id == MINT_RESPONSE_ID {
            self.mint_reply(reply)
        } else {
            Err(ContractError::InvalidReply {})
        }
    }

    /// Confirms a lazy mint: on a successful completion carrying the mint
    /// confirmation, its attributes are re-emitted as this operation's own.
    pub fn mint_reply(&self, reply: Reply) -> (r: Result<Response, ContractError>)
        requires
            reply.id == MINT_RESPONSE_ID,
        ensures
            res_to_view(&r) == spec_reply(reply@),
    {
        let msg = match reply.result {
            Ok(m) => m,
            Err(_) => {
                return Err(ContractError::InvalidReply {});
            },
        };
        let ghost eventsv = msg@.events;
        let n = msg.events.len();
        let mut i: usize = 0;
        while i < n
            invariant
                0 <= i <= n,
                n == msg.events@.len(),
                eventsv == msg@.events,
                eventsv.len() == n,
                forall|j: int| 0 <= j < i ==> !has_mint_attr(#[trigger] eventsv[j]),
            decreases n - i,
        {
            let e = &msg.events[i];
            proof {
                assert(eventsv[i as int] == e@);
            }
            if event_has_mint(e) {
                proof {
                    lemma_find_mint_event_at(eventsv, i as int);
                }
                let resp = Response::new().add_attributes(&e.attributes);
                proof {
                    assert(resp@ =~~= resp_attrs(e@.attributes));
                }
                return Ok(resp);
            }
            i = i + 1;
        }
        proof {
            lemma_find_mint_event_absent(eventsv);
        }
        Err(ContractError::InvalidReply {})
    }
}

/// Whether this event carries the mint confirmation attribute.
fn event_has_mint(e: &Event) -> (b: bool)
    ensures
        b == has_mint_attr(e@),
{
    let n = e.attributes.len();
    let mut i: usize = 0;
    while i < n
        invariant
            0 <= i <= n,
            n == e.attributes@.len(),
            forall|j: int| 0 <= j < i ==> e@.attributes[j] != attr("action"@, "mint"@),
        decreases n - i,
    {
        let a = &e.attributes[i];
        if str_eq(a.key.as_str(), "action") && str_eq(a.value.as_str(), "mint") {
            proof {
                assert(e@.attributes[i as int] =~= attr("action"@, "mint"@));
            }
            return true;
        }
        proof {
            assert(e@.attributes[i as int] != attr("action"@, "mint"@));
        }
        i = i + 1;
    }
    proof {
        if has_mint_attr(e@) {
            let j = choose|j: int| 0 <= j < e@.attributes.len() && e@.attributes[j] == attr(
                "action"@,
                "mint"@,
            );
            assert(false);
        }
    }
    false
}

/// If no event before `i` confirms a mint and event `i` does, the scan
/// stops at `i`.
proof fn lemma_find_mint_event_at(events: Seq<EventV>, i: int)
    requires
        0 <= i < events.len(),
        has_mint_attr(events[i]),
        forall|j: int| 0 <= j < i ==> !has_mint_attr(events[j]),
    ensures
        find_mint_event(events) == Some(events[i]),
    decreases events.len(),
{
    if i > 0 {
        assert(events.drop_first()[i - 1] == events[i]);
        assert(forall|j: int| 0 <= j < i - 1 ==> !has_mint_attr(events.drop_first()[j]));
        lemma_find_mint_event_at(events.drop_first(), i - 1);
    }
}

proof fn lemma_find_mint_event_absent(events: Seq<EventV>)
    requires
        forall|j: int| 0 <= j < events.len() ==> !has_mint_attr(events[j]),
    ensures
        find_mint_event(events) is None,
    decreases events.len(),
{
    if events.len() > 0 {
        assert(forall|j: int| 0 <= j < events.drop_first().len()
            ==> !has_mint_attr(events.drop_first()[j]));
        lemma_find_mint_event_absent(events.drop_first());
    }
}

/// The index of the first attached coin of the wanted denomination.
fn find_coin_index(funds: &Vec<Coin>, denom: &str) -> (r: Option<usize>)
    ensures
        match r {
            Some(i) => i < funds@.len() && find_coin(coins_view(funds@), denom@)
                == Some(coins_view(funds@)[i as int]),
            None => find_coin(coins_view(funds@), denom@) is None,
        },
{
    let ghost fundsv = coins_view(funds@);
    let n = funds.len();
    let mut i: usize = 0;
    while i < n
        invariant
            0 <= i <= n,
            n == funds@.len(),
            fundsv == coins_view(funds@),
            fundsv.len() == n,
            forall|j: int| 0 <= j < i ==> (#[trigger] fundsv[j]).denom != denom@,
        decreases n - i,
    {
        proof {
            assert(fundsv[i as int] == funds@[i as int]@);
        }
        if str_eq(funds[i].denom.as_str(), denom) {
            proof {
                lemma_find_coin_prefix(fundsv, denom@, i as int);
            }
            return Some(i);
        }
        i = i + 1;
    }
    proof {
        lemma_find_coin_prefix(fundsv, denom@, n as int);
    }
    None
}

/// If the first `p` coins miss the denomination, the spec search starts at `p`.
proof fn lemma_find_coin_prefix(funds: Seq<CoinV>, denom: Seq<char>, p: int)
    requires
        0 <= p <= funds.len(),
        forall|j: int| 0 <= j < p ==> (#[trigger] funds[j]).denom != denom,
    ensures
        p == funds.len() ==> find_coin(funds, denom) is None,
        p < funds.len() && funds[p].denom == denom ==> find_coin(funds, denom) == Some(funds[p]),
    decreases p,
{
    if p > 0 {
        assert(funds[0].denom != denom);
        assert(forall|j: int| 0 <= j < p - 1 ==> funds.drop_first()[j].denom != denom);
        lemma_find_coin_prefix(funds.drop_first(), denom, p - 1);
        if p < funds.len() {
            assert(funds.drop_first()[p - 1] == funds[p]);
        }
    }
}

} // verus!
