//! A fixed-supply token ledger with delegated transfers, and a small
//! per-account counter, both written against an explicit caller identity.

pub mod account;
pub mod ledger;
pub mod incrementer;
pub mod store;
pub mod table;

pub use account::AccountId;
pub use ledger::{Approval, Erc20, Event, Transfer};
pub use incrementer::Incrementer;
