//! The cross-contract invocation shim.
//!
//! An operation never calls another contract directly: it returns a
//! `Response` carrying outbound messages, and the host delivers them.  A
//! submessage tagged with a correlation id and `ReplyOn::Always` asks the
//! host to report the outcome back through a `Reply`.  Payloads travel as
//! typed values; the adapter encodes and decodes them at the transport
//! boundary.

use vstd::prelude::*;
use crate::types::{Coin, CoinV, coins_view, Attribute, AttrV, attr, attrs_view};

verus! {

/// The view of sale terms.
#[verifier::ext_equal]
pub struct SaleDataV {
    pub price: CoinV,
}

/// Sale terms carried in the payload of a token transfer: the asked price.
#[derive(Debug, PartialEq)]
pub struct SaleData {
    pub price: Coin,
}

impl View for SaleData {
    type V = SaleDataV;

    open spec fn view(&self) -> SaleDataV {
        SaleDataV { price: self.price@ }
    }
}

impl Clone for SaleData {
    fn clone(&self) -> (r: Self)
        ensures
            r@ == self@,
    {
        SaleData { price: self.price.clone() }
    }
}

/// The view of an instruction sent to a registry.
#[verifier::ext_equal]
pub enum ExecuteMsgCw721V {
    TransferNft { to: Seq<char>, token_id: Seq<char> },
    Mint { token_id: Seq<char>, owner: Seq<char>, token_uri: Option<Seq<char>> },
}

/// An instruction the marketplace sends to a registry contract.
#[derive(Debug, PartialEq)]
pub enum ExecuteMsgCw721 {
    TransferNft { to: String, token_id: String },
    Mint { token_id: String, owner: String, token_uri: Option<String> },
}

impl View for ExecuteMsgCw721 {
    type V = ExecuteMsgCw721V;

    open spec fn view(&self) -> ExecuteMsgCw721V {
        match self {
            ExecuteMsgCw721::TransferNft { to, token_id } => ExecuteMsgCw721V::TransferNft {
                to: to@,
                token_id: token_id@,
            },
            ExecuteMsgCw721::Mint { token_id, owner, token_uri } => ExecuteMsgCw721V::Mint {
                token_id: token_id@,
                owner: owner@,
                token_uri: match token_uri {
                    Some(u) => Some(u@),
                    None => None,
                },
            },
        }
    }
}

/// The view of a payload carried with a token transfer.
#[verifier::ext_equal]
pub enum PayloadV {
    Text(Seq<char>),
    Sale(SaleDataV),
}

/// What a `SendNft` payload decodes to: free text, or sale terms.
#[derive(Debug, PartialEq)]
pub enum Payload {
    Text(String),
    Sale(SaleData),
}

impl View for Payload {
    type V = PayloadV;

    open spec fn view(&self) -> PayloadV {
        match self {
            Payload::Text(s) => PayloadV::Text(s@),
            Payload::Sale(d) => PayloadV::Sale(d@),
        }
    }
}

impl Clone for Payload {
    fn clone(&self) -> (r: Self)
        ensures
            r@ == self@,
    {
        match self {
            Payload::Text(s) => Payload::Text(s.clone()),
            Payload::Sale(d) => Payload::Sale(d.clone()),
        }
    }
}

/// The view of a received-token notification.
#[verifier::ext_equal]
pub struct Cw721ReceiveMsgV {
    pub sender: Seq<char>,
    pub token_id: Seq<char>,
    pub msg: PayloadV,
}

/// The notification a registry sends to the contract that received a token.
#[derive(Debug, PartialEq)]
pub struct Cw721ReceiveMsg {
    pub sender: String,
    pub token_id: String,
    pub msg: Payload,
}

impl View for Cw721ReceiveMsg {
    type V = Cw721ReceiveMsgV;

    open spec fn view(&self) -> Cw721ReceiveMsgV {
        Cw721ReceiveMsgV { sender: self.sender@, token_id: self.token_id@, msg: self.msg@ }
    }
}

/// The view of an outbound message.
#[verifier::ext_equal]
pub enum CosmosMsgV {
    BankSend { to_address: Seq<char>, amount: Seq<CoinV> },
    ExecuteCw721 { contract_addr: Seq<char>, msg: ExecuteMsgCw721V },
    NotifyReceive { contract_addr: Seq<char>, msg: Cw721ReceiveMsgV },
}

/// An outbound effect addressed to the host or to another contract.
#[derive(Debug, PartialEq)]
pub enum CosmosMsg {
    /// A native fund transfer.
    BankSend { to_address: String, amount: Vec<Coin> },
    /// An instruction to a registry: transfer or mint a token.
    ExecuteCw721 { contract_addr: String, msg: ExecuteMsgCw721 },
    /// A received-token notification to the destination contract.
    NotifyReceive { contract_addr: String, msg: Cw721ReceiveMsg },
}

impl View for CosmosMsg {
    type V = CosmosMsgV;

    open spec fn view(&self) -> CosmosMsgV {
        match self {
            CosmosMsg::BankSend { to_address, amount } => CosmosMsgV::BankSend {
                to_address: to_address@,
                amount: coins_view(amount@),
            },
            CosmosMsg::ExecuteCw721 { contract_addr, msg } => CosmosMsgV::ExecuteCw721 {
                contract_addr: contract_addr@,
                msg: msg@,
            },
            CosmosMsg::NotifyReceive { contract_addr, msg } => CosmosMsgV::NotifyReceive {
                contract_addr: contract_addr@,
                msg: msg@,
            },
        }
    }
}

/// Whether the host must report the submessage's outcome back.
#[derive(Debug, PartialEq, Eq, Clone, Copy, Structural)]
pub enum ReplyOn {
    Always,
    Never,
}

/// The view of a submessage.
#[verifier::ext_equal]
pub struct SubMsgV {
    pub id: u64,
    pub msg: CosmosMsgV,
    pub reply_on: ReplyOn,
}

/// An outbound message together with its correlation id and reply mode.
#[derive(Debug, PartialEq)]
pub struct SubMsg {
    pub id: u64,
    pub msg: CosmosMsg,
    pub reply_on: ReplyOn,
}

impl View for SubMsg {
    type V = SubMsgV;

    open spec fn view(&self) -> SubMsgV {
        SubMsgV { id: self.id, msg: self.msg@, reply_on: self.reply_on }
    }
}

/// A plain message: no reply requested, correlation id zero.
pub open spec fn plain_msg(m: CosmosMsgV) -> SubMsgV {
    SubMsgV { id: 0, msg: m, reply_on: ReplyOn::Never }
}

/// The view of a response.
#[verifier::ext_equal]
pub struct ResponseV {
    pub messages: Seq<SubMsgV>,
    pub attributes: Seq<AttrV>,
}

/// What an operation reports back: outbound messages and attributes.
#[derive(Debug, PartialEq)]
pub struct Response {
    pub messages: Vec<SubMsg>,
    pub attributes: Vec<Attribute>,
}

/// The view of an empty response.
pub open spec fn resp_empty() -> ResponseV {
    ResponseV { messages: Seq::empty(), attributes: Seq::empty() }
}

/// A response with attributes only.
pub open spec fn resp_attrs(attributes: Seq<AttrV>) -> ResponseV {
    ResponseV { messages: Seq::empty(), attributes }
}

impl View for Response {
    type V = ResponseV;

    open spec fn view(&self) -> ResponseV {
        ResponseV { messages: self.messages@.map_values(|m: SubMsg| m@), attributes: attrs_view(self.attributes@) }
    }
}

impl Response {
    pub fn new() -> (r: Response)
        ensures
            r@ =~= resp_empty(),
    {
        Response { messages: Vec::new(), attributes: Vec::new() }
    }

    pub fn add_attribute(self, key: &str, value: &str) -> (r: Response)
        ensures
            r@.messages == self@.messages,
            r@.attributes =~= self@.attributes.push(attr(key@, value@)),
    {
        let ghost pre = self@.attributes;
        let Response { messages, mut attributes } = self;
        attributes.push(Attribute::new(key, value));
        proof {
            assert(attrs_view(attributes@) =~= pre.push(attr(key@, value@)));
        }
        Response { messages, attributes }
    }

    /// Appends copies of the given attributes.
    pub fn add_attributes(self, attrs: &Vec<Attribute>) -> (r: Response)
        ensures
            r@.messages == self@.messages,
            r@.attributes =~= self@.attributes + attrs_view(attrs@),
    {
        let ghost pre = self@.attributes;
        let Response { messages, mut attributes } = self;
        let mut i: usize = 0;
        while i < attrs.len()
            invariant
                i <= attrs@.len(),
                attrs_view(attributes@) =~= pre + attrs_view(attrs@).take(i as int),
            decreases attrs@.len() - i,
        {
            let ghost before = attributes@;
            let c = attrs[i].clone();
            let ghost cv = c@;
            attributes.push(c);
            i = i + 1;
            proof {
                assert(cv == attrs_view(attrs@)[i - 1]);
                assert(attrs_view(before.push(c)) =~= attrs_view(before).push(cv));
                assert(attrs_view(attrs@).take(i as int) =~= attrs_view(attrs@).take(i - 1).push(
                    attrs_view(attrs@)[i - 1],
                ));
                assert(attrs_view(attributes@) =~= pre + attrs_view(attrs@).take(i as int));
            }
        }
        proof {
            assert(attrs_view(attrs@).take(attrs@.len() as int) =~= attrs_view(attrs@));
        }
        Response { messages, attributes }
    }

    /// Adds a plain outbound message: no reply, correlation id zero.
    pub fn add_message(self, msg: CosmosMsg) -> (r: Response)
        ensures
            r@.attributes == self@.attributes,
            r@.messages =~= self@.messages.push(plain_msg(msg@)),
    {
        let ghost pre = self@.messages;
        let ghost msgv = msg@;
        let Response { mut messages, attributes } = self;
        messages.push(SubMsg { id: 0, msg, reply_on: ReplyOn::Never });
        proof {
            assert(messages@.map_values(|m: SubMsg| m@) =~= pre.push(plain_msg(msgv)));
        }
        Response { messages, attributes }
    }

    pub fn add_submessage(self, sub: SubMsg) -> (r: Response)
        ensures
            r@.attributes == self@.attributes,
            r@.messages =~= self@.messages.push(sub@),
    {
        let ghost pre = self@.messages;
        let ghost subv = sub@;
        let Response { mut messages, attributes } = self;
        messages.push(sub);
        proof {
            assert(messages@.map_values(|m: SubMsg| m@) =~= pre.push(subv));
        }
        Response { messages, attributes }
    }
}

/// The view of an operation's outcome, for stating contracts.
pub open spec fn res_to_view<E>(r: &Result<Response, E>) -> Result<ResponseV, E> {
    match r {
        Ok(resp) => Ok(resp@),
        Err(e) => Err(*e),
    }
}

/// The view of an event in a completion report.
#[verifier::ext_equal]
pub struct EventV {
    pub ty: Seq<char>,
    pub attributes: Seq<AttrV>,
}

/// One event reported by a completed submessage.
#[derive(Debug, PartialEq)]
pub struct Event {
    pub ty: String,
    pub attributes: Vec<Attribute>,
}

impl View for Event {
    type V = EventV;

    open spec fn view(&self) -> EventV {
        EventV { ty: self.ty@, attributes: attrs_view(self.attributes@) }
    }
}

/// The view of a successful completion report.
#[verifier::ext_equal]
pub struct SubMsgResponseV {
    pub events: Seq<EventV>,
}

/// What a successfully completed submessage reports.
#[derive(Debug, PartialEq)]
pub struct SubMsgResponse {
    pub events: Vec<Event>,
}

impl View for SubMsgResponse {
    type V = SubMsgResponseV;

    open spec fn view(&self) -> SubMsgResponseV {
        SubMsgResponseV { events: self.events@.map_values(|e: Event| e@) }
    }
}

/// The view of a completion callback.
#[verifier::ext_equal]
pub struct ReplyV {
    pub id: u64,
    pub result: Result<SubMsgResponseV, Seq<char>>,
}

/// The asynchronous completion callback for a tagged submessage: the
/// correlation id, and the outcome of the call (an error text on failure).
#[derive(Debug, PartialEq)]
pub struct Reply {
    pub id: u64,
    pub result: Result<SubMsgResponse, String>,
}

impl View for Reply {
    type V = ReplyV;

    open spec fn view(&self) -> ReplyV {
        ReplyV {
            id: self.id,
            result: match &self.result {
                Ok(r) => Ok(r@),
                Err(e) => Err(e@),
            },
        }
    }
}

} // verus!
