//! Verified core of a token-locking, vesting and liquidity/farming proxy
//! system.
//!
//! The contracts themselves run inside a blockchain virtual machine that owns
//! persistence, token transfers and cross-contract dispatch.  This crate holds
//! the part that can be reasoned about: the milestone schedule engine, the
//! vesting and temporary-funds ledgers, and the orchestrator state machines
//! that decide, for every endpoint, which checks must pass and which balances
//! and tokens move.  Host effects (mints, burns, transfers) are returned as
//! plain action values; external pool and farm contracts are reached through
//! the `PairContract` and `FarmContract` traits that a deployment implements.

pub mod asset;
pub mod errors;
pub mod factory;
pub mod global_op;
pub mod kvmap;
pub mod locked_asset;
pub mod proxy_dex;
pub mod proxy_farm;
pub mod proxy_pair;
pub mod rewards_lock;
pub mod schedule;
pub mod vesting;
