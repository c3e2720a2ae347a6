//! A non-fungible-token registry and an escrow marketplace, modelled as
//! verified state machines.
//!
//! The registry (`state`, `execute`, `query`) keeps a table of uniquely
//! identified tokens, a minter role and contract metadata, and offers
//! mint / transfer / send operations together with paginated queries.
//! The marketplace (`market`) keeps escrowed sale listings and lazy-mint
//! promises, and settles purchases against attached funds.  Cross-contract
//! effects (fund transfers, transfer and mint instructions, asynchronous
//! completion callbacks) are modelled as plain outbound messages in `shim`.
//!
//! Host concerns — durable storage, address validation, message
//! encoding and decoding, and the delivery of outbound messages — stay
//! outside the library; an adapter hands the library plain values.

#![verifier::loop_isolation(false)]

pub mod lex;
pub mod store;
pub mod types;
pub mod shim;
pub mod error;
pub mod msg;
pub mod response;
pub mod state;
pub mod execute;
pub mod query;
pub mod utils;
pub mod market;
pub mod laws;

pub use crate::error::ContractError;
