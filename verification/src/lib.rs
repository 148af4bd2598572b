//! A quota-tracking engine for a token faucet.
//!
//! The engine decides, per requester and per chain identifier, whether a
//! token grant may proceed, based on a sliding time window since the
//! requester's last grant for that chain. It also keeps an owner-gated
//! registry of recognized chain identifiers and a configurable window
//! length. The host environment supplies the caller identity and the
//! current time as plain arguments.

pub mod contract;
pub mod ledger;
pub mod model;
pub mod normalize;
pub mod registry;

pub use contract::Contract;
pub use contract::ONE_DAY;
pub use model::Error;
