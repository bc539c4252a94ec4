use crate::amount::amount_value;
use crate::primitives::{
    AccountId, Address, Nonce, PackedEthSignature, PubKeyHash, TokenId, H256,
};
use num::BigUint;
use vstd::prelude::*;

verus! {

/// A transfer as a value of specifications.
pub struct TransferSpec {
    pub account_id: u32,
    pub from: Address,
    pub to: Address,
    pub token: u32,
    pub amount: nat,
    pub fee: nat,
    pub nonce: u32,
}

/// Moves `amount` of `token` from the account `account_id` to the address
/// `to`, and pays `fee` in the same token.
#[derive(Debug)]
pub struct Transfer {
    pub account_id: AccountId,
    pub from: Address,
    pub to: Address,
    pub token: TokenId,
    pub amount: BigUint,
    pub fee: BigUint,
    pub nonce: Nonce,
}

impl View for Transfer {
    type V = TransferSpec;

    open spec fn view(&self) -> TransferSpec {
        TransferSpec {
            account_id: self.account_id.0,
            from: self.from,
            to: self.to,
            token: self.token.0,
            amount: amount_value(self.amount),
            fee: amount_value(self.fee),
            nonce: self.nonce.0,
        }
    }
}

impl Transfer {
    /// The transfer with these fields.
    pub fn new(
        account_id: AccountId,
        from: Address,
        to: Address,
        token: TokenId,
        amount: BigUint,
        fee: BigUint,
        nonce: Nonce,
    ) -> (r: Transfer)
        ensures
            r == (Transfer { account_id, from, to, token, amount, fee, nonce }),
    {
        Transfer { account_id, from, to, token, amount, fee, nonce }
    }
}

/// Takes `amount` of `token` out of the ledger, from the account
/// `account_id` to the address `to` of the base layer, and pays `fee`.
#[derive(Debug)]
pub struct Withdraw {
    pub account_id: AccountId,
    pub from: Address,
    pub to: Address,
    pub token: TokenId,
    pub amount: BigUint,
    pub fee: BigUint,
    pub nonce: Nonce,
}

/// Sets the signing key of the account `account_id`. Where the change is
/// not authorised on the base layer, a signature of the base layer comes
/// with it.
#[derive(Debug)]
pub struct ChangePubKey {
    pub account_id: AccountId,
    pub account: Address,
    pub new_pk_hash: PubKeyHash,
    pub nonce: Nonce,
    pub eth_signature: Option<PackedEthSignature>,
}

/// A token as the base layer knows it.
#[derive(Debug)]
pub struct Token {
    pub id: TokenId,
    pub address: Address,
    pub symbol: String,
    pub decimals: u8,
}

/// A mint as a value of specifications.
pub struct MintNFTSpec {
    pub creator_id: u32,
    pub creator_address: Address,
    pub content_hash: H256,
    pub recipient: Address,
    pub fee: nat,
    pub fee_token: u32,
    pub nonce: u32,
    pub creator_override: Option<Address>,
}

/// Creates a non-fungible token for `content_hash`, authored by the account
/// `creator_id` and delivered to the address `recipient`.
#[derive(Debug)]
pub struct MintNFT {
    pub creator_id: AccountId,
    pub creator_address: Address,
    pub content_hash: H256,
    pub recipient: Address,
    pub fee: BigUint,
    pub fee_token: TokenId,
    pub nonce: Nonce,
    /// The address to derive the token's address from, where it is not the
    /// creator's own.
    pub creator_override: Option<Address>,
}

impl View for MintNFT {
    type V = MintNFTSpec;

    open spec fn view(&self) -> MintNFTSpec {
        MintNFTSpec {
            creator_id: self.creator_id.0,
            creator_address: self.creator_address,
            content_hash: self.content_hash,
            recipient: self.recipient,
            fee: amount_value(self.fee),
            fee_token: self.fee_token.0,
            nonce: self.nonce.0,
            creator_override: self.creator_override,
        }
    }
}

impl MintNFT {
    /// The mint with these fields, whose token's address is derived from
    /// the creator's own.
    pub fn new(
        creator_id: AccountId,
        creator_address: Address,
        content_hash: H256,
        recipient: Address,
        fee: BigUint,
        fee_token: TokenId,
        nonce: Nonce,
    ) -> (r: MintNFT)
        ensures
            r == (MintNFT {
                creator_id,
                creator_address,
                content_hash,
                recipient,
                fee,
                fee_token,
                nonce,
                creator_override: None,
            }),
    {
        MintNFT {
            creator_id,
            creator_address,
            content_hash,
            recipient,
            fee,
            fee_token,
            nonce,
            creator_override: None,
        }
    }
}

/// A transaction as a value of specifications.
pub enum TxSpec {
    Transfer(TransferSpec),
    MintNFT(MintNFTSpec),
}

/// A transaction of one of the kinds that the engine applies.
#[derive(Debug)]
pub enum ZkSyncTx {
    Transfer(Box<Transfer>),
    MintNFT(Box<MintNFT>),
}

impl View for ZkSyncTx {
    type V = TxSpec;

    open spec fn view(&self) -> TxSpec {
        match *self {
            ZkSyncTx::Transfer(tx) => TxSpec::Transfer(tx@),
            ZkSyncTx::MintNFT(tx) => TxSpec::MintNFT(tx@),
        }
    }
}

/// A transaction with the signature of the base layer that came with it.
/// The engine takes both as already checked.
#[derive(Debug)]
pub struct SignedZkSyncTx {
    pub tx: ZkSyncTx,
    pub eth_sign_data: Option<PackedEthSignature>,
}

/// The transactions of a batch as values of specifications.
pub open spec fn batch_view(txs: Seq<SignedZkSyncTx>) -> Seq<TxSpec> {
    Seq::new(txs.len(), |i: int| txs[i].tx@)
}

/// What a token's digest is derived from.
#[derive(Clone, Copy, Debug, PartialEq, Eq)]
pub struct TokenSeed {
    pub creator_id: AccountId,
    /// The creator's address, or the one given in its place.
    pub creator_address: Address,
    pub serial_id: u32,
    pub content_hash: H256,
}

} // verus!
