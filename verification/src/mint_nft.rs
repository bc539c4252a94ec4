use crate::account::Account;
use crate::amount::{
    amount_clone, amount_from_bytes_be, amount_from_u64, amount_le, amount_sub, amount_to_u64,
    amount_value, be_value,
};
use crate::error::OpError;
use crate::model::{lemma_owner, lemma_storage_owner, Staged, StateSpec};
use crate::params::{
    nft_storage_account_address, MIN_NFT_TOKEN_ID, NFT_STORAGE_ACCOUNT_ID, NFT_TOKEN_ID,
};
use crate::primitives::{AccountId, Address, Nonce, TokenId, H256};
use crate::state::{staged, ZkSyncState};
use crate::tx::{MintNFT, MintNFTSpec, TokenSeed};
use crate::update::{log_view, AccountUpdates, CollectedFee, OpSuccess, UpdateSpec, NFT};
use vstd::prelude::*;
use vstd::slice::slice_subrange;

verus! {

/// The identifier that the next minted token gets: what the storage account
/// holds in the counter slot, or the least identifier of all where that slot
/// was never written.
pub open spec fn nft_counter(s: StateSpec) -> nat {
    if s.accounts.contains_key(NFT_STORAGE_ACCOUNT_ID)
        && s.accounts[NFT_STORAGE_ACCOUNT_ID].balance(NFT_TOKEN_ID) != 0 {
        s.accounts[NFT_STORAGE_ACCOUNT_ID].balance(NFT_TOKEN_ID)
    } else {
        MIN_NFT_TOKEN_ID as nat
    }
}

/// How many tokens the account has minted.
pub open spec fn minted_count(s: StateSpec, id: u32) -> nat {
    if s.accounts.contains_key(id) {
        s.accounts[id].balance(NFT_TOKEN_ID)
    } else {
        0
    }
}

/// The account that receives the token: the one at the address `recipient`,
/// or the next new account.
pub open spec fn mint_recipient(s: StateSpec, tx: MintNFTSpec) -> u32 {
    s.resolved_id(tx.recipient)->0
}

/// A counter that the mint needs has no room: the author's nonce, its count
/// of minted tokens, the token identifiers or the account identifiers.
pub open spec fn mint_exhausted(s: StateSpec, tx: MintNFTSpec) -> bool {
    ||| tx.nonce == u32::MAX
    ||| minted_count(s, tx.creator_id) > u32::MAX
    ||| nft_counter(s) < MIN_NFT_TOKEN_ID
    ||| nft_counter(s) >= NFT_TOKEN_ID
    ||| s.resolved_id(tx.recipient) is None
}

/// The slot of the token `id` is taken: on the recipient, or on the storage
/// account.
pub open spec fn mint_slot_taken(s: StateSpec, tx: MintNFTSpec, id: u32) -> bool {
    ||| s.owner(tx.recipient) matches Some(recipient) && s.accounts[recipient].balance(id) != 0
    ||| s.accounts.contains_key(NFT_STORAGE_ACCOUNT_ID)
        && s.accounts[NFT_STORAGE_ACCOUNT_ID].balance(id) != 0
}

/// What stands against the mint before the slot of the new token is looked
/// at, if anything. The first of these that holds decides: the mint names
/// the counter slot, the storage account or its address; its author does not
/// exist; the author has another address than the mint says; the author has
/// no signing key; the nonces differ; the author holds less than the fee; a
/// counter has no room.
pub open spec fn mint_unfit(s: StateSpec, tx: MintNFTSpec) -> Option<OpError> {
    if tx.fee_token == NFT_TOKEN_ID || tx.creator_id == NFT_STORAGE_ACCOUNT_ID || tx.recipient
        == nft_storage_account_address() {
        Some(OpError::MalformedTransaction)
    } else if !s.accounts.contains_key(tx.creator_id) {
        Some(OpError::UnknownAccount)
    } else if s.accounts[tx.creator_id].address != tx.creator_address {
        Some(OpError::MalformedTransaction)
    } else if s.accounts[tx.creator_id].pub_key_hash is None {
        Some(OpError::LockedAccount)
    } else if s.accounts[tx.creator_id].nonce != tx.nonce {
        Some(OpError::NonceMismatch)
    } else if s.accounts[tx.creator_id].balance(tx.fee_token) < tx.fee {
        Some(OpError::InsufficientBalance)
    } else if mint_exhausted(s, tx) {
        Some(OpError::CounterExhausted)
    } else {
        None
    }
}

/// Why the tree rejects the mint, if it does: what stands against it
/// before the slot of the new token is looked at, or else that this slot is
/// taken.
pub open spec fn mint_error(s: StateSpec, tx: MintNFTSpec) -> Option<OpError> {
    match mint_unfit(s, tx) {
        Some(e) => Some(e),
        None => if mint_slot_taken(s, tx, nft_counter(s) as u32) {
            Some(OpError::TokenAlreadyPresent(TokenId(nft_counter(s) as u32)))
        } else {
            None
        },
    }
}

/// What the digest of the token that the mint creates is derived from.
pub open spec fn mint_seed(s: StateSpec, tx: MintNFTSpec) -> TokenSeed {
    TokenSeed {
        creator_id: AccountId(tx.creator_id),
        creator_address: match tx.creator_override {
            Some(address) => address,
            None => tx.creator_address,
        },
        serial_id: minted_count(s, tx.creator_id) as u32,
        content_hash: tx.content_hash,
    }
}

/// The address of a token: the last twenty bytes of its digest.
pub open spec fn digest_address(digest: H256) -> Address {
    choose|a: Address| a.bytes@ == digest.bytes@.subrange(12, 32)
}

/// What the storage account keeps of a token: the last sixteen bytes of its
/// digest, read as a number in big-endian order.
pub open spec fn digest_data(digest: H256) -> nat {
    be_value(digest.bytes@.subrange(16, 32))
}

/// The record of the token that the mint creates.
pub open spec fn minted_token(s: StateSpec, tx: MintNFTSpec, digest: H256) -> NFT {
    NFT {
        id: TokenId(nft_counter(s) as u32),
        serial_id: minted_count(s, tx.creator_id) as u32,
        creator_id: AccountId(tx.creator_id),
        address: digest_address(digest),
        creator_override: tx.creator_override,
        content_hash: tx.content_hash,
    }
}

/// What an accepted mint does, update by update: it creates the recipient
/// where the address is new and the storage account where there is none,
/// writes the least identifier into a counter slot that was never written,
/// raises that counter by one, takes the fee from the author, raises the
/// author's count of minted tokens and its nonce by one, records the token,
/// gives the token to the recipient and stores the token's data.
pub open spec fn mint_run(s: StateSpec, tx: MintNFTSpec, digest: H256) -> Staged {
    let recipient = mint_recipient(s, tx);
    let id = nft_counter(s) as u32;
    let opened = Staged::start(s).resolve(tx.recipient).resolve(nft_storage_account_address());
    let primed = if opened.state.accounts[NFT_STORAGE_ACCOUNT_ID].balance(NFT_TOKEN_ID) == 0 {
        opened.set_amount(NFT_STORAGE_ACCOUNT_ID, NFT_TOKEN_ID, MIN_NFT_TOKEN_ID as nat)
    } else {
        opened
    };
    primed.set_amount(NFT_STORAGE_ACCOUNT_ID, NFT_TOKEN_ID, nft_counter(s) + 1).set_amount(
        tx.creator_id,
        tx.fee_token,
        (s.accounts[tx.creator_id].balance(tx.fee_token) - tx.fee) as nat,
    ).set_balance(
        tx.creator_id,
        NFT_TOKEN_ID,
        minted_count(s, tx.creator_id) + 1,
        (tx.nonce + 1) as u32,
    ).emit(tx.creator_id, UpdateSpec::MintNFT { nft: minted_token(s, tx, digest) }).set_amount(
        recipient,
        id,
        1,
    ).set_amount(NFT_STORAGE_ACCOUNT_ID, id, digest_data(digest))
}

/// The result `r` and the tree `after` are those of the accepted mint.
pub open spec fn mint_done(
    s: StateSpec,
    tx: MintNFTSpec,
    digest: H256,
    after: StateSpec,
    r: Result<OpSuccess, OpError>,
) -> bool {
    &&& r matches Ok(done)
    &&& after == mint_run(s, tx, digest).state
    &&& log_view(done.updates@) == mint_run(s, tx, digest).log
    &&& done.fee matches Some(fee)
    &&& fee.token.0 == tx.fee_token
    &&& amount_value(fee.amount) == tx.fee
}

/// The address of a token with the digest `digest`.
pub fn token_address(digest: &H256) -> (r: Address)
    ensures
        r == digest_address(*digest),
{
    let mut bytes = [0u8; 20];
    let mut i: usize = 0;
    while i < 20
        invariant
            i <= 20,
            forall|j: int| 0 <= j < i ==> bytes@[j] == digest.bytes@[j + 12],
        decreases 20 - i,
    {
        bytes[i] = digest.bytes[i + 12];
        i += 1;
    }
    let r = Address { bytes };
    proof {
        assert(r.bytes@ =~= digest.bytes@.subrange(12, 32));
        assert(digest_address(*digest).bytes =~= r.bytes);
    }
    r
}

/// Whether the account's balance of `token` is zero.
fn holds_nothing(account: &Account, token: TokenId) -> (r: bool)
    ensures
        r == (account@.balance(token.0) == 0),
{
    match amount_to_u64(&account.get_balance(token)) {
        Some(n) => n == 0,
        None => false,
    }
}

impl ZkSyncState {
    /// Applies the mint, or rejects it and leaves the tree as it is. The
    /// digest of the new token is what `derive` makes of its seed; it is
    /// asked for once, when nothing stands against the mint any more.
    pub fn apply_mint_nft<F: Fn(TokenSeed) -> H256>(&mut self, tx: &MintNFT, derive: &F) -> (r:
        Result<OpSuccess, OpError>)
        requires
            old(self).wf(),
            forall|seed: TokenSeed| call_requires(*derive, (seed,)),
        ensures
            final(self).wf(),
            match mint_error(old(self)@, tx@) {
                Some(e) => r matches Err(reason) && reason == e && final(self)@ == old(self)@,
                None => exists|digest: H256|
                    {
                        &&& call_ensures(*derive, (mint_seed(old(self)@, tx@),), digest)
                        &&& #[trigger] mint_done(old(self)@, tx@, digest, final(self)@, r)
                    },
            },
    {
        let storage_id = AccountId(NFT_STORAGE_ACCOUNT_ID);
        let counter_slot = TokenId(NFT_TOKEN_ID);
        if tx.fee_token.0 == NFT_TOKEN_ID || tx.creator_id.0 == NFT_STORAGE_ACCOUNT_ID
            || tx.recipient == nft_storage_account_address() {
            return Err(OpError::MalformedTransaction);
        }
        let creator = match self.account_ref(tx.creator_id) {
            Some(account) => account,
            None => {
                return Err(OpError::UnknownAccount);
            },
        };
        if creator.address != tx.creator_address {
            return Err(OpError::MalformedTransaction);
        }
        if creator.pub_key_hash.is_none() {
            return Err(OpError::LockedAccount);
        }
        if creator.nonce != tx.nonce {
            return Err(OpError::NonceMismatch);
        }
        let balance = creator.get_balance(tx.fee_token);
        if !amount_le(&tx.fee, &balance) {
            return Err(OpError::InsufficientBalance);
        }
        let serial = match amount_to_u64(&creator.get_balance(counter_slot)) {
            Some(n) => n,
            None => {
                return Err(OpError::CounterExhausted);
            },
        };
        let storage = self.account_ref(storage_id);
        let stored = match storage {
            Some(account) => match amount_to_u64(&account.get_balance(counter_slot)) {
                Some(n) => n,
                None => {
                    return Err(OpError::CounterExhausted);
                },
            },
            None => 0,
        };
        let unwritten = stored == 0;
        let counter = if unwritten {
            MIN_NFT_TOKEN_ID as u64
        } else {
            stored
        };
        let known = self.get_account_id_by_address(&tx.recipient);
        if tx.nonce.0 == u32::MAX || serial > u32::MAX as u64 || counter < MIN_NFT_TOKEN_ID as u64
            || counter >= NFT_TOKEN_ID as u64 || (known.is_none()
            && self.get_free_account_id().0 >= NFT_STORAGE_ACCOUNT_ID) {
            return Err(OpError::CounterExhausted);
        }
        let token_id = TokenId(counter as u32);
        let on_recipient = match known {
            Some(id) => !holds_nothing(self.account_ref(id).unwrap(), token_id),
            None => false,
        };
        let on_storage = match storage {
            Some(account) => !holds_nothing(account, token_id),
            None => false,
        };
        if on_recipient || on_storage {
            return Err(OpError::TokenAlreadyPresent(token_id));
        }
        let seed = TokenSeed {
            creator_id: tx.creator_id,
            creator_address: match tx.creator_override {
                Some(address) => address,
                None => tx.creator_address,
            },
            serial_id: serial as u32,
            content_hash: tx.content_hash,
        };
        let digest = derive(seed);
        let nft = NFT {
            id: token_id,
            serial_id: serial as u32,
            creator_id: tx.creator_id,
            address: token_address(&digest),
            creator_override: tx.creator_override,
            content_hash: tx.content_hash,
        };
        let data = amount_from_bytes_be(slice_subrange(digest.bytes.as_slice(), 16, 32));

        let mut log: AccountUpdates = Vec::new();
        assert(log_view(log@) =~= Seq::empty());
        let recipient = self.resolve_or_create(&tx.recipient, &mut log).unwrap();
        proof {
            lemma_owner(old(self)@, tx.recipient);
            lemma_storage_owner(self@);
        }
        self.resolve_or_create(&nft_storage_account_address(), &mut log);
        if unwritten {
            self.stage_amount(
                storage_id,
                counter_slot,
                amount_from_u64(MIN_NFT_TOKEN_ID as u64),
                &mut log,
            );
        }
        self.stage_amount(storage_id, counter_slot, amount_from_u64(counter + 1), &mut log);
        self.stage_amount(tx.creator_id, tx.fee_token, amount_sub(balance, &tx.fee), &mut log);
        self.stage_balance(
            tx.creator_id,
            counter_slot,
            amount_from_u64(serial + 1),
            Nonce(tx.nonce.0 + 1),
            &mut log,
        );
        self.stage_mint(tx.creator_id, nft, &mut log);
        self.stage_amount(recipient, token_id, amount_from_u64(1), &mut log);
        self.stage_amount(storage_id, token_id, data, &mut log);
        let r = Ok(
            OpSuccess {
                fee: Some(CollectedFee { token: tx.fee_token, amount: amount_clone(&tx.fee) }),
                updates: log,
            },
        );
        assert(mint_done(old(self)@, tx@, digest, self@, r));
        r
    }
}

} // verus!
