use crate::account::Account;
use crate::amount::{amount_clone, amount_le, amount_value};
use crate::error::StoreError;
use crate::model::{
    lemma_apply_keeps_wf, lemma_insert_keeps_wf, lemma_owner_is, lemma_replay_prefix,
    lemma_replay_stops, lemma_revert_undoes, lemma_without_keeps_wf, replay, Staged, StateSpec,
};
use crate::params::{nft_storage_account_address, MAX_ACCOUNT_ID, NFT_STORAGE_ACCOUNT_ID};
use crate::primitives::{AccountId, Address, Nonce, TokenId};
use crate::update::{log_view, AccountUpdate, AccountUpdates, UpdateSpec, NFT};
use num::BigUint;
use std::collections::HashMap;
use vstd::prelude::*;
use vstd::std_specs::hash::*;

verus! {

broadcast use group_hash_axioms;

/// The account tree: the accounts by their identifiers, a directory of the
/// addresses in use, and the identifier that the next new account gets.
pub struct ZkSyncState {
    accounts: HashMap<u32, Account>,
    directory: Vec<(Address, u32)>,
    next_free_id: u32,
}

impl View for ZkSyncState {
    type V = StateSpec;

    closed spec fn view(&self) -> StateSpec {
        StateSpec {
            accounts: Map::new(
                |id: u32| self.accounts@.contains_key(id),
                |id: u32| self.accounts@[id]@,
            ),
            next_free_id: self.next_free_id,
        }
    }
}

/// The tree and the log of a transaction that is under way.
pub open spec fn staged(state: &ZkSyncState, log: &AccountUpdates) -> Staged {
    Staged { state: state@, log: log_view(log@) }
}

impl Clone for ZkSyncState {
    fn clone(&self) -> (r: ZkSyncState)
        ensures
            r@ == self@,
            self.wf() ==> r.wf(),
    {
        let mut directory: Vec<(Address, u32)> = Vec::new();
        let mut i: usize = 0;
        while i < self.directory.len()
            invariant
                i <= self.directory@.len(),
                directory@ == self.directory@.take(i as int),
            decreases self.directory@.len() - i,
        {
            directory.push(self.directory[i]);
            i += 1;
        }
        let r = ZkSyncState {
            accounts: self.accounts.clone(),
            directory,
            next_free_id: self.next_free_id,
        };
        proof {
            if self.wf() {
                assert forall|k: u32| #[trigger] r@.accounts.contains_key(k) implies exists|i: int|
                    0 <= i < r.directory@.len() && (#[trigger] r.directory@[i]).1 == k by {
                    let i = choose|i: int|
                        0 <= i < self.directory@.len() && (#[trigger] self.directory@[i]).1 == k;
                    assert(r.directory@[i].1 == k);
                }
                assert forall|i: int| 0 <= i < r.directory@.len() implies r@.owned_by(
                    (#[trigger] r.directory@[i]).0,
                    r.directory@[i].1,
                ) by {}
            }
        }
        r
    }
}

impl ZkSyncState {
    /// The directory lists the accounts of the tree, each with its address.
    pub closed spec fn directory_wf(&self) -> bool {
        &&& forall|i: int|
            0 <= i < self.directory@.len() ==> self@.owned_by(
                (#[trigger] self.directory@[i]).0,
                self.directory@[i].1,
            )
        &&& forall|id: u32| #[trigger]
            self@.accounts.contains_key(id) ==> exists|i: int|
                0 <= i < self.directory@.len() && (#[trigger] self.directory@[i]).1 == id
        &&& forall|i: int, j: int|
            0 <= i < j < self.directory@.len() ==> (#[trigger] self.directory@[i]).1 != (
            #[trigger] self.directory@[j]).1
    }

    /// The invariant of the tree.
    pub open spec fn wf(&self) -> bool {
        &&& self@.wf()
        &&& self.directory_wf()
    }

    /// The tree without accounts.
    pub fn new() -> (r: ZkSyncState)
        ensures
            r.wf(),
            r@ == StateSpec::empty(),
    {
        let r = ZkSyncState { accounts: HashMap::new(), directory: Vec::new(), next_free_id: 0 };
        assert(r@.accounts =~= Map::empty());
        r
    }

    /// The identifier that the next new account gets.
    pub fn get_free_account_id(&self) -> (r: AccountId)
        ensures
            r.0 == self@.next_free_id,
    {
        AccountId(self.next_free_id)
    }

    /// The account `id`, where there is one.
    pub fn get_account(&self, id: AccountId) -> (r: Option<Account>)
        ensures
            match r {
                Some(account) => self@.accounts.contains_key(id.0) && account@
                    == self@.accounts[id.0],
                None => !self@.accounts.contains_key(id.0),
            },
    {
        match self.accounts.get(&id.0) {
            Some(account) => Some(account.clone()),
            None => None,
        }
    }

    /// The account `id`, where there is one, without a copy.
    pub(crate) fn account_ref(&self, id: AccountId) -> (r: Option<&Account>)
        ensures
            match r {
                Some(account) => self@.accounts.contains_key(id.0) && account@
                    == self@.accounts[id.0],
                None => !self@.accounts.contains_key(id.0),
            },
    {
        self.accounts.get(&id.0)
    }

    /// The identifier of the account at `address`, where there is one.
    pub fn get_account_id_by_address(&self, address: &Address) -> (r: Option<AccountId>)
        requires
            self.wf(),
        ensures
            match r {
                Some(id) => self@.owner(*address) == Some(id.0),
                None => self@.owner(*address) is None,
            },
    {
        let mut i: usize = 0;
        while i < self.directory.len()
            invariant
                self.wf(),
                i <= self.directory@.len(),
                forall|j: int| 0 <= j < i ==> (#[trigger] self.directory@[j]).0 != *address,
            decreases self.directory@.len() - i,
        {
            if self.directory[i].0 == *address {
                let id = self.directory[i].1;
                proof {
                    lemma_owner_is(self@, *address, id);
                }
                return Some(AccountId(id));
            }
            i += 1;
        }
        proof {
            assert forall|k: u32| !self@.owned_by(*address, k) by {
                if self@.owned_by(*address, k) {
                    let j = choose|j: int|
                        0 <= j < self.directory@.len() && (#[trigger] self.directory@[j]).1 == k;
                    assert(self.directory@[j].0 == *address);
                }
            }
        }
        None
    }

    /// The account at `address` with its identifier, where there is one.
    pub fn get_account_by_address(&self, address: &Address) -> (r: Option<(AccountId, Account)>)
        requires
            self.wf(),
        ensures
            match r {
                Some((id, account)) => self@.owner(*address) == Some(id.0) && account@
                    == self@.accounts[id.0],
                None => self@.owner(*address) is None,
            },
    {
        match self.get_account_id_by_address(address) {
            Some(id) => match self.get_account(id) {
                Some(account) => Some((id, account)),
                None => None,
            },
            None => None,
        }
    }

    /// Puts `account` at `id`, in place of the account that was there, if
    /// the tree's invariant allows it; else the tree stays as it is.
    pub fn insert_account(&mut self, id: AccountId, account: Account) -> (r: Result<
        (),
        StoreError,
    >)
        requires
            old(self).wf(),
        ensures
            final(self).wf(),
            match old(self)@.insert_error(id.0, account@) {
                Some(e) => r == Err::<(), StoreError>(e) && final(self)@ == old(self)@,
                None => r is Ok && final(self)@ == old(self)@.insert(id.0, account@),
            },
    {
        if id.0 > MAX_ACCOUNT_ID {
            return Err(StoreError::IdOutOfRange);
        }
        let reserved_address = account.address == nft_storage_account_address();
        if (id.0 == NFT_STORAGE_ACCOUNT_ID) != reserved_address {
            return Err(StoreError::ReservedAccount);
        }
        let known = match self.accounts.get(&id.0) {
            Some(present) => {
                if present.address != account.address {
                    return Err(StoreError::AddressTaken);
                }
                true
            },
            None => {
                if self.get_account_id_by_address(&account.address).is_some() {
                    return Err(StoreError::AddressTaken);
                }
                false
            },
        };
        proof {
            account.lemma_normal();
            lemma_insert_keeps_wf(self@, id.0, account@);
        }
        let ghost before = *self;
        let address = account.address;
        self.accounts.insert(id.0, account);
        if !known {
            self.directory.push((address, id.0));
            if id.0 != NFT_STORAGE_ACCOUNT_ID && id.0 >= self.next_free_id {
                self.next_free_id = id.0 + 1;
            }
        }
        proof {
            assert(self@.accounts =~= before@.insert(id.0, account@).accounts);
            Self::lemma_directory_after_insert(before, *self, id.0);
        }
        Ok(())
    }

    /// Creates the account `id` at `address` with the nonce `nonce`.
    fn create_account(&mut self, id: AccountId, address: Address, nonce: Nonce)
        requires
            old(self).wf(),
            old(self)@.applies(id.0, UpdateSpec::Create { address, nonce: nonce.0 }),
        ensures
            final(self).wf(),
            final(self)@ == old(self)@.apply_update(
                id.0,
                UpdateSpec::Create { address, nonce: nonce.0 },
            ),
    {
        let ghost before = *self;
        let ghost update = UpdateSpec::Create { address, nonce: nonce.0 };
        proof {
            lemma_apply_keeps_wf(self@, id.0, update);
        }
        let mut account = Account::default_with_address(&address);
        account.nonce = nonce;
        self.accounts.insert(id.0, account);
        self.directory.push((address, id.0));
        if id.0 != NFT_STORAGE_ACCOUNT_ID && id.0 >= self.next_free_id {
            self.next_free_id = id.0 + 1;
        }
        proof {
            assert(self@.accounts =~= before@.apply_update(id.0, update).accounts);
            Self::lemma_directory_after_insert(before, *self, id.0);
        }
    }

    /// Sets the balance of `token` on the account `id` to `amount` and the
    /// account's nonce to `nonce`. Returns the nonce and the balance that
    /// the account had.
    fn write_balance(&mut self, id: AccountId, token: TokenId, amount: BigUint, nonce: Nonce) -> (r:
        (Nonce, BigUint))
        requires
            old(self).wf(),
            old(self)@.accounts.contains_key(id.0),
        ensures
            final(self).wf(),
            r.0.0 == old(self)@.accounts[id.0].nonce,
            amount_value(r.1) == old(self)@.accounts[id.0].balance(token.0),
            final(self)@ == old(self)@.apply_update(
                id.0,
                UpdateSpec::UpdateBalance {
                    old_nonce: r.0.0,
                    new_nonce: nonce.0,
                    token: token.0,
                    old_amount: amount_value(r.1),
                    new_amount: amount_value(amount),
                },
            ),
    {
        let ghost before = *self;
        let mut account = self.accounts.remove(&id.0).unwrap();
        let old_nonce = account.nonce;
        let old_amount = account.get_balance(token);
        let ghost update = UpdateSpec::UpdateBalance {
            old_nonce: old_nonce.0,
            new_nonce: nonce.0,
            token: token.0,
            old_amount: amount_value(old_amount),
            new_amount: amount_value(amount),
        };
        proof {
            lemma_apply_keeps_wf(before@, id.0, update);
        }
        account.set_balance(token, amount);
        account.nonce = nonce;
        self.accounts.insert(id.0, account);
        proof {
            assert(self@.accounts =~= before@.apply_update(id.0, update).accounts);
            Self::lemma_directory_after_insert(before, *self, id.0);
        }
        (old_nonce, old_amount)
    }

    /// Creates the account `id` at `address` and records the update.
    fn stage_create(&mut self, id: AccountId, address: Address, log: &mut AccountUpdates)
        requires
            old(self).wf(),
            old(self)@.applies(id.0, UpdateSpec::Create { address, nonce: 0 }),
        ensures
            final(self).wf(),
            staged(final(self), final(log)) == staged(old(self), old(log)).create(id.0, address),
    {
        self.create_account(id, address, Nonce(0));
        log.push((id, AccountUpdate::Create { address, nonce: Nonce(0) }));
        assert(log_view(log@) =~= log_view(old(log)@).push(
            (id.0, UpdateSpec::Create { address, nonce: 0 }),
        ));
    }

    /// The account that stands for `address`. Where no account has the
    /// address, one is created and the update is recorded: the storage
    /// account for the storage account's address, the next new account for
    /// any other. Nothing happens, and nothing is returned, where no
    /// identifier is left.
    pub fn resolve_or_create(&mut self, address: &Address, log: &mut AccountUpdates) -> (r: Option<
        AccountId,
    >)
        requires
            old(self).wf(),
        ensures
            final(self).wf(),
            match old(self)@.resolved_id(*address) {
                Some(id) => r == Some(AccountId(id)),
                None => r is None,
            },
            staged(final(self), final(log)) == staged(old(self), old(log)).resolve(*address),
    {
        match self.get_account_id_by_address(address) {
            Some(id) => Some(id),
            None => {
                let id = if *address == nft_storage_account_address() {
                    AccountId(NFT_STORAGE_ACCOUNT_ID)
                } else if self.next_free_id < NFT_STORAGE_ACCOUNT_ID {
                    AccountId(self.next_free_id)
                } else {
                    return None;
                };
                proof {
                    let s = self@;
                    assert forall|k: u32| !s.owned_by(*address, k) by {}
                }
                self.stage_create(id, *address, log);
                Some(id)
            },
        }
    }

    /// Sets the balance of `token` on the account `id` to `amount` and the
    /// account's nonce to `nonce`, and records the update.
    pub(crate) fn stage_balance(
        &mut self,
        id: AccountId,
        token: TokenId,
        amount: BigUint,
        nonce: Nonce,
        log: &mut AccountUpdates,
    )
        requires
            old(self).wf(),
            old(self)@.accounts.contains_key(id.0),
        ensures
            final(self).wf(),
            staged(final(self), final(log)) == staged(old(self), old(log)).set_balance(
                id.0,
                token.0,
                amount_value(amount),
                nonce.0,
            ),
    {
        let recorded = amount_clone(&amount);
        let (old_nonce, old_amount) = self.write_balance(id, token, amount, nonce);
        let update = AccountUpdate::UpdateBalance {
            old_nonce,
            new_nonce: nonce,
            balance_update: (token, old_amount, recorded),
        };
        let ghost recorded_update = update@;
        log.push((id, update));
        assert(log_view(log@) =~= log_view(old(log)@).push((id.0, recorded_update)));
    }

    /// Sets the balance of `token` on the account `id` to `amount`, keeps
    /// the account's nonce, and records the update.
    pub(crate) fn stage_amount(
        &mut self,
        id: AccountId,
        token: TokenId,
        amount: BigUint,
        log: &mut AccountUpdates,
    )
        requires
            old(self).wf(),
            old(self)@.accounts.contains_key(id.0),
        ensures
            final(self).wf(),
            staged(final(self), final(log)) == staged(old(self), old(log)).set_amount(
                id.0,
                token.0,
                amount_value(amount),
            ),
    {
        let nonce = self.account_ref(id).unwrap().nonce;
        self.stage_balance(id, token, amount, nonce, log);
    }

    /// Records that the account `id` has minted `nft`.
    pub(crate) fn stage_mint(&self, id: AccountId, nft: NFT, log: &mut AccountUpdates)
        ensures
            staged(self, final(log)) == staged(self, old(log)).emit(
                id.0,
                UpdateSpec::MintNFT { nft },
            ),
    {
        log.push((id, AccountUpdate::MintNFT { token: nft }));
        assert(log_view(log@) =~= log_view(old(log)@).push((id.0, UpdateSpec::MintNFT { nft })));
    }

    /// Makes the change that `update` describes on the account `id`, if the
    /// update can be applied; else the tree stays as it is.
    pub fn apply_account_update(&mut self, id: AccountId, update: &AccountUpdate) -> (r: bool)
        requires
            old(self).wf(),
        ensures
            final(self).wf(),
            r == old(self)@.applies(id.0, update@),
            final(self)@ == if r {
                old(self)@.apply_update(id.0, update@)
            } else {
                old(self)@
            },
    {
        match update {
            AccountUpdate::Create { address, nonce } => {
                let reserved = *address == nft_storage_account_address();
                if self.accounts.get(&id.0).is_some() || id.0 > MAX_ACCOUNT_ID || (id.0
                    == NFT_STORAGE_ACCOUNT_ID) != reserved || self.get_account_id_by_address(
                    address,
                ).is_some() {
                    return false;
                }
                self.create_account(id, *address, *nonce);
                true
            },
            AccountUpdate::UpdateBalance { old_nonce, new_nonce, balance_update } => {
                let current = match self.accounts.get(&id.0) {
                    Some(account) => account,
                    None => {
                        return false;
                    },
                };
                let held = current.get_balance(balance_update.0);
                if current.nonce != *old_nonce || !amount_le(&held, &balance_update.1)
                    || !amount_le(&balance_update.1, &held) {
                    return false;
                }
                self.write_balance(
                    id,
                    balance_update.0,
                    amount_clone(&balance_update.2),
                    *new_nonce,
                );
                true
            },
            AccountUpdate::MintNFT { token } => self.accounts.get(&id.0).is_some(),
        }
    }

    /// Makes the changes of `updates` in order, if each can be applied when
    /// its turn comes; else the tree stays as it is.
    pub fn apply_account_updates(&mut self, updates: &AccountUpdates) -> (r: bool)
        requires
            old(self).wf(),
        ensures
            final(self).wf(),
            match replay(old(self)@, log_view(updates@)) {
                Some(after) => r && final(self)@ == after,
                None => !r && final(self)@ == old(self)@,
            },
    {
        let ghost all = log_view(updates@);
        let ghost start = self@;
        let first_free = self.get_free_account_id();
        let mut i: usize = 0;
        while i < updates.len()
            invariant
                i <= updates.len(),
                all == log_view(updates@),
                start == old(self)@,
                start.wf(),
                first_free.0 == start.next_free_id,
                self.wf(),
                replay(start, all.take(i as int)) == Some(self@),
            decreases updates.len() - i,
        {
            proof {
                assert(all.take(i + 1).drop_last() =~= all.take(i as int));
            }
            if !self.apply_account_update(updates[i].0, &updates[i].1) {
                proof {
                    lemma_replay_stops(start, all, i + 1);
                }
                self.revert_account_updates(updates, i, first_free, Ghost(start));
                return false;
            }
            i += 1;
        }
        assert(all.take(i as int) =~= all);
        true
    }

    /// Where the account `id` stands in the directory.
    fn directory_index(&self, id: AccountId) -> (r: usize)
        requires
            self.directory_wf(),
            self@.accounts.contains_key(id.0),
        ensures
            r < self.directory@.len(),
            self.directory@[r as int].1 == id.0,
    {
        let mut i: usize = self.directory.len() - 1;
        while self.directory[i].1 != id.0
            invariant
                i < self.directory@.len(),
                exists|j: int| 0 <= j <= i && (#[trigger] self.directory@[j]).1 == id.0,
            decreases i,
        {
            i -= 1;
        }
        i
    }

    /// Takes the account `id` out of the tree.
    fn remove_account(&mut self, id: AccountId)
        requires
            old(self).wf(),
            old(self)@.accounts.contains_key(id.0),
        ensures
            final(self).wf(),
            final(self)@ == old(self)@.without(id.0),
    {
        let ghost before = *self;
        let at = self.directory_index(id);
        self.accounts.remove(&id.0);
        self.directory.remove(at);
        proof {
            lemma_without_keeps_wf(before@, id.0);
            assert(self@.accounts =~= before@.without(id.0).accounts);
            assert forall|i: int| 0 <= i < self.directory@.len() implies self@.owned_by(
                (#[trigger] self.directory@[i]).0,
                self.directory@[i].1,
            ) by {
                let was = if i < at {
                    i
                } else {
                    i + 1
                };
                assert(before@.owned_by(before.directory@[was].0, before.directory@[was].1));
            }
            assert forall|k: u32| #[trigger] self@.accounts.contains_key(k) implies exists|i: int|
                0 <= i < self.directory@.len() && (#[trigger] self.directory@[i]).1 == k by {
                let was = choose|i: int|
                    0 <= i < before.directory@.len() && (#[trigger] before.directory@[i]).1 == k;
                let now = if was < at {
                    was
                } else {
                    was - 1
                };
                assert(self.directory@[now].1 == k);
            }
            assert forall|i: int, j: int| 0 <= i < j < self.directory@.len() implies (
            #[trigger] self.directory@[i]).1 != (#[trigger] self.directory@[j]).1 by {
                let was_i = if i < at {
                    i
                } else {
                    i + 1
                };
                let was_j = if j < at {
                    j
                } else {
                    j + 1
                };
                assert(before.directory@[was_i].1 != before.directory@[was_j].1);
            }
        }
    }

    /// Takes back the change that `update` made on the account `id`.
    fn revert_account_update(&mut self, id: AccountId, update: &AccountUpdate)
        requires
            old(self).wf(),
            !(update@ is MintNFT) ==> old(self)@.accounts.contains_key(id.0),
        ensures
            final(self).wf(),
            final(self)@ == old(self)@.revert_update(id.0, update@),
    {
        match update {
            AccountUpdate::Create { address, nonce } => {
                self.remove_account(id);
            },
            AccountUpdate::UpdateBalance { old_nonce, new_nonce, balance_update } => {
                self.write_balance(
                    id,
                    balance_update.0,
                    amount_clone(&balance_update.1),
                    *old_nonce,
                );
            },
            AccountUpdate::MintNFT { token } => {},
        }
    }

    /// Takes back the first `count` of `updates`, last first, on the tree
    /// that they have led to from `start`, and gives the next new account
    /// the identifier `first_free` again.
    pub(crate) fn revert_account_updates(
        &mut self,
        updates: &AccountUpdates,
        count: usize,
        first_free: AccountId,
        Ghost(start): Ghost<StateSpec>,
    )
        requires
            old(self).wf(),
            start.wf(),
            count <= updates.len(),
            first_free.0 == start.next_free_id,
            replay(start, log_view(updates@).take(count as int)) == Some(old(self)@),
        ensures
            final(self).wf(),
            final(self)@ == start,
    {
        let ghost all = log_view(updates@);
        let mut k: usize = count;
        while k > 0
            invariant
                k <= count <= updates.len(),
                all == log_view(updates@),
                start.wf(),
                self.wf(),
                replay(start, all.take(count as int)) is Some,
                replay(start, all.take(k as int)) is Some,
                self@.accounts == replay(start, all.take(k as int))->0.accounts,
            decreases k,
        {
            proof {
                assert(all.take(count as int).take(k - 1) =~= all.take(k - 1));
                lemma_replay_prefix(start, all.take(count as int), k - 1);
                assert(all.take(k as int).drop_last() =~= all.take(k - 1));
                let before = replay(start, all.take(k - 1))->0;
                lemma_revert_undoes(before, all[k - 1].0, all[k - 1].1);
            }
            k -= 1;
            self.revert_account_update(updates[k].0, &updates[k].1);
        }
        let ghost reverted = *self;
        self.next_free_id = first_free.0;
        proof {
            Self::lemma_directory_same_accounts(reverted, *self);
        }
    }

    /// The directory of a tree is right for any tree with the same accounts
    /// and the same directory.
    proof fn lemma_directory_same_accounts(before: ZkSyncState, after: ZkSyncState)
        requires
            before.directory_wf(),
            after@.accounts == before@.accounts,
            after.directory@ == before.directory@,
        ensures
            after.directory_wf(),
    {
        assert forall|i: int| 0 <= i < after.directory@.len() implies after@.owned_by(
            (#[trigger] after.directory@[i]).0,
            after.directory@[i].1,
        ) by {}
        assert forall|k: u32| #[trigger] after@.accounts.contains_key(k) implies exists|i: int|
            0 <= i < after.directory@.len() && (#[trigger] after.directory@[i]).1 == k by {
            let i = choose|i: int|
                0 <= i < before.directory@.len() && (#[trigger] before.directory@[i]).1 == k;
            assert(after.directory@[i].1 == k);
        }
    }

    /// The directory stays right where one account is put or replaced and
    /// the directory gains an entry exactly for a new account.
    proof fn lemma_directory_after_insert(before: ZkSyncState, after: ZkSyncState, id: u32)
        requires
            before.directory_wf(),
            after@.accounts.dom() == before@.accounts.dom().insert(id),
            forall|k: u32|
                k != id && before@.accounts.contains_key(k) ==> #[trigger] after@.accounts[k]
                    == before@.accounts[k],
            before@.accounts.contains_key(id) ==> after@.accounts[id].address
                == before@.accounts[id].address && after.directory@ == before.directory@,
            !before@.accounts.contains_key(id) ==> after.directory@ == before.directory@.push(
                (after@.accounts[id].address, id),
            ),
        ensures
            after.directory_wf(),
    {
        assert forall|i: int| 0 <= i < after.directory@.len() implies after@.owned_by(
            (#[trigger] after.directory@[i]).0,
            after.directory@[i].1,
        ) by {}
        assert forall|k: u32| #[trigger] after@.accounts.contains_key(k) implies exists|i: int|
            0 <= i < after.directory@.len() && (#[trigger] after.directory@[i]).1 == k by {
            if before@.accounts.contains_key(k) {
                let i = choose|i: int|
                    0 <= i < before.directory@.len() && (#[trigger] before.directory@[i]).1 == k;
                assert(after.directory@[i].1 == k);
            } else {
                let i = before.directory@.len() as int;
                assert(after.directory@[i].1 == k);
            }
        }
    }
}

} // verus!
