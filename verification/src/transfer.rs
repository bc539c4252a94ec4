use crate::amount::{amount_add, amount_clone, amount_le, amount_sub, amount_value};
use crate::error::OpError;
use crate::model::{Staged, StateSpec};
use crate::params::{nft_storage_account_address, NFT_STORAGE_ACCOUNT_ID, NFT_TOKEN_ID};
use crate::primitives::Nonce;
use crate::state::{staged, ZkSyncState};
use crate::tx::{Transfer, TransferSpec};
use crate::update::{log_view, AccountUpdates, CollectedFee, OpSuccess};
use vstd::prelude::*;

verus! {

/// Why the tree rejects the transfer, if it does. The first of these that
/// holds decides: the transfer names the counter slot, the storage account
/// or its address; its author does not exist; the author has another
/// address than the transfer says; the author has no signing key; the
/// nonces differ; the author holds less than amount and fee together; the
/// author's nonce cannot grow; the recipient would be a new account and no
/// identifier is left.
pub open spec fn transfer_error(s: StateSpec, tx: TransferSpec) -> Option<OpError> {
    if tx.token == NFT_TOKEN_ID || tx.account_id == NFT_STORAGE_ACCOUNT_ID || tx.to
        == nft_storage_account_address() {
        Some(OpError::MalformedTransaction)
    } else if !s.accounts.contains_key(tx.account_id) {
        Some(OpError::UnknownAccount)
    } else if s.accounts[tx.account_id].address != tx.from {
        Some(OpError::MalformedTransaction)
    } else if s.accounts[tx.account_id].pub_key_hash is None {
        Some(OpError::LockedAccount)
    } else if s.accounts[tx.account_id].nonce != tx.nonce {
        Some(OpError::NonceMismatch)
    } else if s.accounts[tx.account_id].balance(tx.token) < tx.amount + tx.fee {
        Some(OpError::InsufficientBalance)
    } else if tx.nonce == u32::MAX {
        Some(OpError::CounterExhausted)
    } else if s.resolved_id(tx.to) is None {
        Some(OpError::CounterExhausted)
    } else {
        None
    }
}

/// The account that receives the transfer: the one at the address `to`, or
/// the next new account.
pub open spec fn transfer_recipient(s: StateSpec, tx: TransferSpec) -> u32 {
    s.resolved_id(tx.to)->0
}

/// What an accepted transfer does, update by update: it creates the
/// recipient where the address is new, takes amount and fee from the author
/// and raises its nonce by one, and gives the amount to the recipient.
pub open spec fn transfer_run(s: StateSpec, tx: TransferSpec) -> Staged {
    let recipient = transfer_recipient(s, tx);
    let resolved = Staged::start(s).resolve(tx.to);
    let debited = resolved.set_balance(
        tx.account_id,
        tx.token,
        (resolved.state.accounts[tx.account_id].balance(tx.token) - (tx.amount + tx.fee)) as nat,
        (tx.nonce + 1) as u32,
    );
    debited.set_amount(
        recipient,
        tx.token,
        debited.state.accounts[recipient].balance(tx.token) + tx.amount,
    )
}

impl ZkSyncState {
    /// Applies the transfer, or rejects it and leaves the tree as it is.
    pub fn apply_transfer(&mut self, tx: &Transfer) -> (r: Result<OpSuccess, OpError>)
        requires
            old(self).wf(),
        ensures
            final(self).wf(),
            match transfer_error(old(self)@, tx@) {
                Some(e) => r matches Err(reason) && reason == e && final(self)@ == old(self)@,
                None => {
                    &&& r matches Ok(done)
                    &&& final(self)@ == transfer_run(old(self)@, tx@).state
                    &&& log_view(done.updates@) == transfer_run(old(self)@, tx@).log
                    &&& done.fee matches Some(fee)
                    &&& fee.token == tx.token
                    &&& amount_value(fee.amount) == tx@.fee
                },
            },
    {
        if tx.token.0 == NFT_TOKEN_ID || tx.account_id.0 == NFT_STORAGE_ACCOUNT_ID || tx.to
            == nft_storage_account_address() {
            return Err(OpError::MalformedTransaction);
        }
        let sender = match self.account_ref(tx.account_id) {
            Some(account) => account,
            None => {
                return Err(OpError::UnknownAccount);
            },
        };
        if sender.address != tx.from {
            return Err(OpError::MalformedTransaction);
        }
        if sender.pub_key_hash.is_none() {
            return Err(OpError::LockedAccount);
        }
        if sender.nonce != tx.nonce {
            return Err(OpError::NonceMismatch);
        }
        let balance = sender.get_balance(tx.token);
        let total = amount_add(amount_clone(&tx.amount), &tx.fee);
        if !amount_le(&total, &balance) {
            return Err(OpError::InsufficientBalance);
        }
        if tx.nonce.0 == u32::MAX {
            return Err(OpError::CounterExhausted);
        }
        let mut log: AccountUpdates = Vec::new();
        let recipient = match self.resolve_or_create(&tx.to, &mut log) {
            Some(id) => id,
            None => {
                return Err(OpError::CounterExhausted);
            },
        };
        self.stage_balance(
            tx.account_id,
            tx.token,
            amount_sub(balance, &total),
            Nonce(tx.nonce.0 + 1),
            &mut log,
        );
        let held = self.account_ref(recipient).unwrap().get_balance(tx.token);
        self.stage_amount(recipient, tx.token, amount_add(held, &tx.amount), &mut log);
        Ok(
            OpSuccess {
                fee: Some(CollectedFee { token: tx.token, amount: amount_clone(&tx.fee) }),
                updates: log,
            },
        )
    }
}

} // verus!
