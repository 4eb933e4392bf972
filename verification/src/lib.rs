//! A constant-product liquidity pool engine.
//!
//! The pool keeps two assets in custody, issues LP shares for them, prices
//! swaps by the constant-product rule with a fixed fee, and attributes the
//! collected fees to the holders of LP shares.  Every operation either
//! succeeds as a whole or leaves the pool exactly as it was.
//!
//! - [`arith`]: checked arithmetic on `i128` and the integer square root.
//! - [`identity`]: the identities of assets and holders.
//! - [`host`]: identities and texts from the values of the ledger host.
//! - [`book`]: a book of amounts, one per key, with its sum.
//! - [`ledger`]: the LP shares: balances, allowances, total supply.
//! - [`fees`], [`volume`]: what the pool has earned and traded.
//! - [`state`]: the pool as contracts see it.
//! - [`liquidity`], [`swap`], [`claims`]: what each operation comes to, and
//!   what holds of all of them.
//! - [`pool`]: the pool itself.
//! - [`factory`]: the directories of deployed pools and tokens.
//! - [`error`]: why the pool refuses an operation.
//!
//! The engine works on plain values.  It neither stores its state nor moves
//! an asset: its host keeps a [`pool::Snapshot`] between two operations and
//! carries out the [`state::Transfer`]s that an operation hands back.

pub mod arith;
pub mod book;
pub mod claims;
pub mod error;
pub mod factory;
pub mod fees;
pub mod host;
pub mod identity;
pub mod ledger;
pub mod liquidity;
pub mod pool;
pub mod state;
pub mod swap;
pub mod volume;
