//! The state-transition engine of a rollup ledger: an account tree, the
//! transactions that change it, and the log of updates that each of them
//! leaves.
//!
//! `state` holds the tree and `model` what it stands for; `transfer`,
//! `mint_nft` and `executor` apply transactions, one by one or as a batch
//! that is accepted or rejected as a whole; `laws` states what follows for
//! nonces, balances and token identifiers. `signer` decides what a client
//! signs. `amount` is the one place where code of another crate is trusted.

pub mod account;
pub mod amount;
pub mod error;
pub mod executor;
pub mod laws;
pub mod mint_nft;
pub mod model;
pub mod params;
pub mod primitives;
pub mod signer;
pub mod state;
pub mod text;
pub mod transfer;
pub mod tx;
pub mod update;
