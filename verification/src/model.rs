use crate::account::AccountSpec;
use crate::error::StoreError;
use crate::params::{nft_storage_account_address, MAX_ACCOUNT_ID, NFT_STORAGE_ACCOUNT_ID};
use crate::primitives::Address;
use crate::update::UpdateSpec;
use vstd::prelude::*;

verus! {

/// The account tree as a value of specifications: the accounts by their
/// identifiers, and the identifier that the next new account gets.
pub struct StateSpec {
    pub accounts: Map<u32, AccountSpec>,
    pub next_free_id: u32,
}

impl StateSpec {
    /// The tree without accounts.
    pub open spec fn empty() -> StateSpec {
        StateSpec { accounts: Map::empty(), next_free_id: 0 }
    }

    /// The account `id` exists and has the address `address`.
    pub open spec fn owned_by(self, address: Address, id: u32) -> bool {
        self.accounts.contains_key(id) && self.accounts[id].address == address
    }

    /// The account that has the address `address`, where there is one.
    pub open spec fn owner(self, address: Address) -> Option<u32> {
        if exists|id: u32| self.owned_by(address, id) {
            Some(choose|id: u32| self.owned_by(address, id))
        } else {
            None
        }
    }

    /// The invariant of the tree: no identifier is out of range, every
    /// account but the storage account lies below `next_free_id`, no two
    /// accounts share an address, and the storage account's identifier and
    /// address go with each other and with no other.
    pub open spec fn wf(self) -> bool {
        &&& self.next_free_id <= NFT_STORAGE_ACCOUNT_ID
        &&& forall|id: u32| #[trigger]
            self.accounts.contains_key(id) ==> {
                &&& id <= MAX_ACCOUNT_ID
                &&& id != NFT_STORAGE_ACCOUNT_ID ==> id < self.next_free_id
                &&& (id == NFT_STORAGE_ACCOUNT_ID) == (self.accounts[id].address
                    == nft_storage_account_address())
                &&& self.accounts[id].normal()
            }
        &&& forall|i: u32, j: u32|
            #![trigger self.accounts.contains_key(i), self.accounts.contains_key(j)]
            self.accounts.contains_key(i) && self.accounts.contains_key(j)
                && self.accounts[i].address == self.accounts[j].address ==> i == j
    }

    /// The update can be applied to the account `id` of this tree: a new
    /// account takes a free identifier and a free address, and a change of
    /// balance names the nonce and the balance that the account has.
    pub open spec fn applies(self, id: u32, update: UpdateSpec) -> bool {
        match update {
            UpdateSpec::Create { address, nonce } => {
                &&& !self.accounts.contains_key(id)
                &&& self.owner(address) is None
                &&& id <= MAX_ACCOUNT_ID
                &&& (id == NFT_STORAGE_ACCOUNT_ID) == (address == nft_storage_account_address())
            },
            UpdateSpec::UpdateBalance { old_nonce, new_nonce, token, old_amount, new_amount } => {
                &&& self.accounts.contains_key(id)
                &&& self.accounts[id].nonce == old_nonce
                &&& self.accounts[id].balance(token) == old_amount
            },
            UpdateSpec::MintNFT { nft } => self.accounts.contains_key(id),
        }
    }

    /// The account that stands for `address`: the one that has it, or the
    /// one that would be created for it, which is the storage account for
    /// the storage account's address and the next new account for any
    /// other; nothing where no identifier is left.
    pub open spec fn resolved_id(self, address: Address) -> Option<u32> {
        if self.owner(address) is Some {
            self.owner(address)
        } else if address == nft_storage_account_address() {
            Some(NFT_STORAGE_ACCOUNT_ID)
        } else if self.next_free_id < NFT_STORAGE_ACCOUNT_ID {
            Some(self.next_free_id)
        } else {
            None
        }
    }

    /// Why the account cannot be put at `id`, if it cannot.
    pub open spec fn insert_error(self, id: u32, account: AccountSpec) -> Option<StoreError> {
        if id > MAX_ACCOUNT_ID {
            Some(StoreError::IdOutOfRange)
        } else if (id == NFT_STORAGE_ACCOUNT_ID) != (account.address
            == nft_storage_account_address()) {
            Some(StoreError::ReservedAccount)
        } else if self.accounts.contains_key(id) && self.accounts[id].address != account.address {
            Some(StoreError::AddressTaken)
        } else if !self.accounts.contains_key(id) && self.owner(account.address) is Some {
            Some(StoreError::AddressTaken)
        } else {
            None
        }
    }

    /// The identifier that the next new account gets, once `id` is taken.
    pub open spec fn next_free_after(self, id: u32) -> u32 {
        if id != NFT_STORAGE_ACCOUNT_ID && id >= self.next_free_id {
            (id + 1) as u32
        } else {
            self.next_free_id
        }
    }

    /// The tree with `account` at `id`.
    pub open spec fn insert(self, id: u32, account: AccountSpec) -> StateSpec {
        StateSpec {
            accounts: self.accounts.insert(id, account),
            next_free_id: self.next_free_after(id),
        }
    }

    /// The tree without the account `id`.
    pub open spec fn without(self, id: u32) -> StateSpec {
        StateSpec { accounts: self.accounts.remove(id), ..self }
    }

    /// The tree before the update, but for the identifier that the next new
    /// account gets: a created account is gone, and a changed balance and
    /// nonce are what the update names as the old ones.
    pub open spec fn revert_update(self, id: u32, update: UpdateSpec) -> StateSpec {
        match update {
            UpdateSpec::Create { address, nonce } => self.without(id),
            UpdateSpec::UpdateBalance { old_nonce, new_nonce, token, old_amount, new_amount } => {
                StateSpec {
                    accounts: self.accounts.insert(
                        id,
                        self.accounts[id].with_balance(token, old_amount).with_nonce(old_nonce),
                    ),
                    ..self
                }
            },
            UpdateSpec::MintNFT { nft } => self,
        }
    }

    /// The tree after the update.
    pub open spec fn apply_update(self, id: u32, update: UpdateSpec) -> StateSpec {
        match update {
            UpdateSpec::Create { address, nonce } => StateSpec {
                accounts: self.accounts.insert(id, AccountSpec::fresh(address).with_nonce(nonce)),
                next_free_id: self.next_free_after(id),
            },
            UpdateSpec::UpdateBalance { old_nonce, new_nonce, token, old_amount, new_amount } => {
                StateSpec {
                    accounts: self.accounts.insert(
                        id,
                        self.accounts[id].with_balance(token, new_amount).with_nonce(new_nonce),
                    ),
                    ..self
                }
            },
            UpdateSpec::MintNFT { nft } => self,
        }
    }
}

/// The tree after the updates of `log`, applied in order; nothing where one
/// of them cannot be applied when its turn comes.
pub open spec fn replay(s: StateSpec, log: Seq<(u32, UpdateSpec)>) -> Option<StateSpec>
    decreases log.len(),
{
    if log.len() == 0 {
        Some(s)
    } else {
        match replay(s, log.drop_last()) {
            Some(before) => if before.applies(log.last().0, log.last().1) {
                Some(before.apply_update(log.last().0, log.last().1))
            } else {
                None
            },
            None => None,
        }
    }
}

/// A tree in the course of a transaction, with the updates made so far.
pub struct Staged {
    pub state: StateSpec,
    pub log: Seq<(u32, UpdateSpec)>,
}

impl Staged {
    /// The tree `s` before the first update of a transaction.
    pub open spec fn start(s: StateSpec) -> Staged {
        Staged { state: s, log: Seq::empty() }
    }

    /// Applies the update and records it.
    pub open spec fn emit(self, id: u32, update: UpdateSpec) -> Staged {
        Staged { state: self.state.apply_update(id, update), log: self.log.push((id, update)) }
    }

    /// Creates the account `id` at `address`.
    pub open spec fn create(self, id: u32, address: Address) -> Staged {
        self.emit(id, UpdateSpec::Create { address, nonce: 0 })
    }

    /// Creates the account that stands for `address`, unless there is one
    /// or no identifier is left.
    pub open spec fn resolve(self, address: Address) -> Staged {
        if self.state.owner(address) is None && self.state.resolved_id(address) is Some {
            self.create(self.state.resolved_id(address)->0, address)
        } else {
            self
        }
    }

    /// Sets the balance of `token` on the account `id` to `amount` and the
    /// account's nonce to `nonce`.
    pub open spec fn set_balance(self, id: u32, token: u32, amount: nat, nonce: u32) -> Staged {
        self.emit(
            id,
            UpdateSpec::UpdateBalance {
                old_nonce: self.state.accounts[id].nonce,
                new_nonce: nonce,
                token,
                old_amount: self.state.accounts[id].balance(token),
                new_amount: amount,
            },
        )
    }

    /// Sets the balance of `token` on the account `id` to `amount`.
    pub open spec fn set_amount(self, id: u32, token: u32, amount: nat) -> Staged {
        self.set_balance(id, token, amount, self.state.accounts[id].nonce)
    }

    /// The second run, started where the first ended.
    pub open spec fn followed_by(self, next: Staged) -> Staged {
        Staged { state: next.state, log: self.log + next.log }
    }
}

/// An address belongs to the one account that has it.
pub proof fn lemma_owner_is(s: StateSpec, address: Address, id: u32)
    requires
        s.wf(),
        s.owned_by(address, id),
    ensures
        s.owner(address) == Some(id),
{
}

/// An address that belongs to an account is the address of that account,
/// and one that belongs to none is the address of none.
pub proof fn lemma_owner(s: StateSpec, address: Address)
    ensures
        s.owner(address) matches Some(id) ==> s.owned_by(address, id),
        s.owner(address) is None ==> forall|k: u32| !s.owned_by(address, k),
{
}

/// The storage account's address belongs to the storage account, if there
/// is one, and else to no account.
pub proof fn lemma_storage_owner(s: StateSpec)
    requires
        s.wf(),
    ensures
        s.owner(nft_storage_account_address()) == if s.accounts.contains_key(
            NFT_STORAGE_ACCOUNT_ID,
        ) {
            Some(NFT_STORAGE_ACCOUNT_ID)
        } else {
            None
        },
{
    if s.accounts.contains_key(NFT_STORAGE_ACCOUNT_ID) {
        lemma_owner_is(s, nft_storage_account_address(), NFT_STORAGE_ACCOUNT_ID);
    } else {
        assert forall|k: u32| !s.owned_by(nft_storage_account_address(), k) by {}
    }
}

/// A tree keeps its invariant when an account leaves it.
pub proof fn lemma_without_keeps_wf(s: StateSpec, id: u32)
    requires
        s.wf(),
    ensures
        s.without(id).wf(),
{
}

/// Reverting an update that was applied gives back the accounts that it
/// met.
pub proof fn lemma_revert_undoes(s: StateSpec, id: u32, update: UpdateSpec)
    requires
        s.wf(),
        s.applies(id, update),
    ensures
        s.apply_update(id, update).revert_update(id, update).accounts == s.accounts,
{
    let t = s.apply_update(id, update).revert_update(id, update);
    if let UpdateSpec::UpdateBalance { old_nonce, new_nonce, token, old_amount, new_amount } =
        update {
        assert(t.accounts[id].balances =~= s.accounts[id].balances);
    }
}

/// A log that can be replayed can be replayed up to each of its updates,
/// and every tree on the way keeps the invariant.
pub proof fn lemma_replay_prefix(s: StateSpec, log: Seq<(u32, UpdateSpec)>, k: int)
    requires
        s.wf(),
        0 <= k <= log.len(),
        replay(s, log) is Some,
    ensures
        replay(s, log.take(k)) is Some,
        replay(s, log.take(k))->0.wf(),
    decreases k,
{
    if replay(s, log.take(k)) is None {
        lemma_replay_stops(s, log, k);
    }
    if k > 0 {
        assert(log.take(k).drop_last() =~= log.take(k - 1));
        lemma_replay_prefix(s, log, k - 1);
        let before = replay(s, log.take(k - 1))->0;
        lemma_apply_keeps_wf(before, log[k - 1].0, log[k - 1].1);
    }
}

/// A log whose first `k` updates cannot be replayed cannot be replayed.
pub proof fn lemma_replay_stops(s: StateSpec, log: Seq<(u32, UpdateSpec)>, k: int)
    requires
        0 <= k <= log.len(),
        replay(s, log.take(k)) is None,
    ensures
        replay(s, log) is None,
    decreases log.len() - k,
{
    if k == log.len() {
        assert(log.take(k) =~= log);
    } else {
        assert(log.take(k + 1).drop_last() =~= log.take(k));
        lemma_replay_stops(s, log, k + 1);
    }
}

/// Replaying two logs one after the other is replaying the first and then,
/// from where it ends, the second.
pub proof fn lemma_replay_concat(
    s: StateSpec,
    first: Seq<(u32, UpdateSpec)>,
    second: Seq<(u32, UpdateSpec)>,
)
    ensures
        replay(s, first + second) == match replay(s, first) {
            Some(middle) => replay(middle, second),
            None => None,
        },
    decreases second.len(),
{
    if second.len() > 0 {
        assert((first + second).drop_last() =~= first + second.drop_last());
        lemma_replay_concat(s, first, second.drop_last());
    }
}

/// A run that replays to its tree still does so after one more update that
/// applies, and its tree keeps the invariant.
pub proof fn lemma_emit_replays(s: StateSpec, run: Staged, id: u32, update: UpdateSpec)
    requires
        replay(s, run.log) == Some(run.state),
        run.state.wf(),
        run.state.applies(id, update),
    ensures
        replay(s, run.emit(id, update).log) == Some(run.emit(id, update).state),
        run.emit(id, update).state.wf(),
{
    lemma_apply_keeps_wf(run.state, id, update);
    assert(run.emit(id, update).log.drop_last() =~= run.log);
}

/// An account that can be put into a tree keeps the tree's invariant.
pub proof fn lemma_insert_keeps_wf(s: StateSpec, id: u32, account: AccountSpec)
    requires
        s.wf(),
        account.normal(),
        s.insert_error(id, account) is None,
    ensures
        s.insert(id, account).wf(),
{
    let t = s.insert(id, account);
    assert forall|i: u32, j: u32|
        #![trigger t.accounts.contains_key(i), t.accounts.contains_key(j)]
        t.accounts.contains_key(i) && t.accounts.contains_key(j) && t.accounts[i].address
            == t.accounts[j].address implies i == j by {
        if i == id && j != id {
            assert(s.owned_by(account.address, j));
        }
        if j == id && i != id {
            assert(s.owned_by(account.address, i));
        }
    }
}

/// An update that applies to a tree keeps the tree's invariant.
pub proof fn lemma_apply_keeps_wf(s: StateSpec, id: u32, update: UpdateSpec)
    requires
        s.wf(),
        s.applies(id, update),
    ensures
        s.apply_update(id, update).wf(),
{
    let t = s.apply_update(id, update);
    if let UpdateSpec::Create { address, nonce } = update {
        assert forall|i: u32, j: u32|
            #![trigger t.accounts.contains_key(i), t.accounts.contains_key(j)]
            t.accounts.contains_key(i) && t.accounts.contains_key(j) && t.accounts[i].address
                == t.accounts[j].address implies i == j by {
            if i == id && j != id {
                assert(s.owned_by(address, j));
            }
            if j == id && i != id {
                assert(s.owned_by(address, i));
            }
        }
    }
}

} // verus!
