//! The marketplace: escrowed sale listings, lazy-mint promises, purchase
//! settlement and the asynchronous mint confirmation.

pub mod error;
pub mod msg;
pub mod state;
pub mod execute;
pub mod query;

pub use error::ContractError;
