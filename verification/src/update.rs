use crate::amount::{amount_clone, amount_value};
use crate::primitives::{AccountId, Address, Nonce, TokenId, H256};
use num::BigUint;
use vstd::prelude::*;

verus! {

/// The record of a non-fungible token.
#[derive(Clone, Copy, Debug, PartialEq, Eq)]
pub struct NFT {
    pub id: TokenId,
    pub serial_id: u32,
    pub creator_id: AccountId,
    pub address: Address,
    pub creator_override: Option<Address>,
    pub content_hash: H256,
}

impl NFT {
    /// The record with these fields.
    pub fn new(
        id: TokenId,
        serial_id: u32,
        creator_id: AccountId,
        address: Address,
        creator_override: Option<Address>,
        content_hash: H256,
    ) -> (r: NFT)
        ensures
            r == (NFT { id, serial_id, creator_id, address, creator_override, content_hash }),
    {
        NFT { id, serial_id, creator_id, address, creator_override, content_hash }
    }
}

/// One atomic change of the account tree, as a value of specifications.
pub enum UpdateSpec {
    Create { address: Address, nonce: u32 },
    UpdateBalance { old_nonce: u32, new_nonce: u32, token: u32, old_amount: nat, new_amount: nat },
    MintNFT { nft: NFT },
}

/// One atomic change of the account tree.
#[derive(Debug, PartialEq, Eq)]
pub enum AccountUpdate {
    /// A new account with its address and nonce.
    Create { address: Address, nonce: Nonce },
    /// The nonce before and after, and the token with its balance before
    /// and after.
    UpdateBalance { old_nonce: Nonce, new_nonce: Nonce, balance_update: (TokenId, BigUint, BigUint) },
    /// The token that the account has minted.
    MintNFT { token: NFT },
}

impl View for AccountUpdate {
    type V = UpdateSpec;

    open spec fn view(&self) -> UpdateSpec {
        match *self {
            AccountUpdate::Create { address, nonce } => UpdateSpec::Create {
                address,
                nonce: nonce.0,
            },
            AccountUpdate::UpdateBalance { old_nonce, new_nonce, balance_update } => {
                UpdateSpec::UpdateBalance {
                    old_nonce: old_nonce.0,
                    new_nonce: new_nonce.0,
                    token: balance_update.0.0,
                    old_amount: amount_value(balance_update.1),
                    new_amount: amount_value(balance_update.2),
                }
            },
            AccountUpdate::MintNFT { token } => UpdateSpec::MintNFT { nft: token },
        }
    }
}

impl Clone for AccountUpdate {
    fn clone(&self) -> (r: AccountUpdate)
        ensures
            r@ == self@,
    {
        match self {
            AccountUpdate::Create { address, nonce } => AccountUpdate::Create {
                address: *address,
                nonce: *nonce,
            },
            AccountUpdate::UpdateBalance { old_nonce, new_nonce, balance_update } => {
                AccountUpdate::UpdateBalance {
                    old_nonce: *old_nonce,
                    new_nonce: *new_nonce,
                    balance_update: (
                        balance_update.0,
                        amount_clone(&balance_update.1),
                        amount_clone(&balance_update.2),
                    ),
                }
            },
            AccountUpdate::MintNFT { token } => AccountUpdate::MintNFT { token: *token },
        }
    }
}

/// The updates of a log, each with the account that it changes.
pub type AccountUpdates = Vec<(AccountId, AccountUpdate)>;

/// The fee that a transaction has paid.
#[derive(Debug, PartialEq, Eq)]
pub struct CollectedFee {
    pub token: TokenId,
    pub amount: BigUint,
}

/// What an accepted transaction has done: the fee that it paid, and the
/// updates that it made, in order.
#[derive(Debug, PartialEq, Eq)]
pub struct OpSuccess {
    pub fee: Option<CollectedFee>,
    pub updates: AccountUpdates,
}

/// What an accepted batch has done: the fee that each member paid, and the
/// updates of all members, in order.
#[derive(Debug, PartialEq, Eq)]
pub struct BatchSuccess {
    pub fees: Vec<CollectedFee>,
    pub updates: AccountUpdates,
}

/// Fees as values of specifications: each a token and an amount.
pub open spec fn fees_view(fees: Seq<CollectedFee>) -> Seq<(u32, nat)> {
    Seq::new(fees.len(), |i: int| (fees[i].token.0, amount_value(fees[i].amount)))
}

/// A log as a value of specifications.
pub open spec fn log_view(log: Seq<(AccountId, AccountUpdate)>) -> Seq<(u32, UpdateSpec)> {
    Seq::new(log.len(), |i: int| (log[i].0.0, log[i].1@))
}

} // verus!
