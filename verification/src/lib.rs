//! An access-controlled token platform: a role registry, a fungible token
//! whose every change the registry gates, a redemption contract that takes
//! each redemption request through its lifecycle exactly once, and two
//! guards against replay, a per-account nonce and single-use idempotency
//! keys.
//!
//! Each component is a plain value with a mathematical model (`view`); the
//! model's functions say what every call returns and changes, the methods
//! are proved to do just that, and `laws` states what follows for all
//! inputs. The ledger host stays outside: whoever embeds the library says
//! which principals authorized a call (`Authorization`), hands in the
//! collaborating contracts, and keeps the state between calls through the
//! snapshots.

pub mod address;
pub mod authorization;
pub mod balances;
pub mod digest;
pub mod error;
pub mod event;
pub mod laws;
pub mod ledger;
pub mod members;
pub mod mock;
pub mod nonce_manager;
pub mod permission_manager;
pub mod redemption;
pub mod role;
pub mod table;
pub mod token;
