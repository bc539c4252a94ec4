use crate::account::AccountSpec;
use crate::error::OpError;
use crate::executor::{batch_run, tx_error, tx_run};
use crate::mint_nft::{
    digest_data, mint_error, mint_recipient, mint_run, mint_unfit, minted_count, minted_token,
    nft_counter,
};
use crate::model::{
    lemma_emit_replays, lemma_owner, lemma_replay_concat, lemma_storage_owner, replay, Staged,
    StateSpec,
};
use crate::params::{
    nft_storage_account_address, MIN_NFT_TOKEN_ID, NFT_STORAGE_ACCOUNT_ID, NFT_TOKEN_ID,
};
use crate::primitives::{Address, TokenId, H256};
use crate::transfer::{transfer_error, transfer_recipient, transfer_run};
use crate::tx::{MintNFTSpec, TransferSpec, TxSpec};
use crate::update::{UpdateSpec, NFT};
use vstd::prelude::*;

verus! {

/// A run that replays to its tree still does so after an address is
/// resolved, and its tree keeps the invariant.
proof fn lemma_resolve_replays(s: StateSpec, run: Staged, address: Address)
    requires
        replay(s, run.log) == Some(run.state),
        run.state.wf(),
    ensures
        replay(s, run.resolve(address).log) == Some(run.resolve(address).state),
        run.resolve(address).state.wf(),
        run.state.resolved_id(address) matches Some(id) ==> {
            &&& run.resolve(address).state.accounts.dom() == run.state.accounts.dom().insert(id)
            &&& run.state.accounts.contains_key(id) ==> run.resolve(address).state == run.state
                && run.state.accounts[id].address == address
            &&& !run.state.accounts.contains_key(id) ==> run.resolve(address).state.accounts
                == run.state.accounts.insert(id, AccountSpec::fresh(address))
            &&& id != NFT_STORAGE_ACCOUNT_ID ==> address != nft_storage_account_address()
        },
{
    lemma_owner(run.state, address);
    lemma_storage_owner(run.state);
    if run.state.owner(address) is None && run.state.resolved_id(address) is Some {
        let id = run.state.resolved_id(address)->0;
        lemma_emit_replays(s, run, id, UpdateSpec::Create { address, nonce: 0 });
    }
}

/// A run that replays to its tree still does so after the balance of an
/// account that the tree holds is set.
proof fn lemma_set_replays(s: StateSpec, run: Staged, id: u32, token: u32, amount: nat)
    requires
        replay(s, run.log) == Some(run.state),
        run.state.wf(),
        run.state.accounts.contains_key(id),
    ensures
        replay(s, run.set_amount(id, token, amount).log) == Some(
            run.set_amount(id, token, amount).state,
        ),
        run.set_amount(id, token, amount).state.wf(),
        run.set_amount(id, token, amount).state.accounts.dom() == run.state.accounts.dom(),
{
    let update = UpdateSpec::UpdateBalance {
        old_nonce: run.state.accounts[id].nonce,
        new_nonce: run.state.accounts[id].nonce,
        token,
        old_amount: run.state.accounts[id].balance(token),
        new_amount: amount,
    };
    lemma_emit_replays(s, run, id, update);
}

/// The updates of an accepted transfer can be replayed on the tree that the
/// transfer met, and give the tree that it left; that tree keeps the
/// invariant.
pub proof fn law_transfer_replays(s: StateSpec, tx: TransferSpec)
    requires
        s.wf(),
        transfer_error(s, tx) is None,
    ensures
        replay(s, transfer_run(s, tx).log) == Some(transfer_run(s, tx).state),
        transfer_run(s, tx).state.wf(),
{
    let recipient = transfer_recipient(s, tx);
    let started = Staged::start(s);
    lemma_resolve_replays(s, started, tx.to);
    let resolved = started.resolve(tx.to);
    let debit = UpdateSpec::UpdateBalance {
        old_nonce: resolved.state.accounts[tx.account_id].nonce,
        new_nonce: (tx.nonce + 1) as u32,
        token: tx.token,
        old_amount: resolved.state.accounts[tx.account_id].balance(tx.token),
        new_amount: (resolved.state.accounts[tx.account_id].balance(tx.token) - (tx.amount
            + tx.fee)) as nat,
    };
    lemma_emit_replays(s, resolved, tx.account_id, debit);
    let debited = resolved.emit(tx.account_id, debit);
    lemma_set_replays(
        s,
        debited,
        recipient,
        tx.token,
        debited.state.accounts[recipient].balance(tx.token) + tx.amount,
    );
}

/// The nonce and the balances of the accounts after an accepted transfer:
/// the author's nonce has grown by one; the author has lost amount and fee
/// and the recipient has gained the amount, or, where the author sends to
/// itself, it has lost the fee; nothing else has changed.
pub proof fn law_transfer_effect(s: StateSpec, tx: TransferSpec)
    requires
        s.wf(),
        transfer_error(s, tx) is None,
    ensures
        ({
            let after = transfer_run(s, tx).state;
            let sender = tx.account_id;
            let recipient = transfer_recipient(s, tx);
            let held = if s.accounts.contains_key(recipient) {
                s.accounts[recipient].balance(tx.token)
            } else {
                0
            };
            &&& after.accounts.dom() == s.accounts.dom().insert(recipient)
            &&& after.accounts[sender].nonce == s.accounts[sender].nonce + 1
            &&& sender != recipient ==> {
                &&& after.accounts[sender].balance(tx.token) == s.accounts[sender].balance(
                    tx.token,
                ) - (tx.amount + tx.fee)
                &&& after.accounts[recipient].balance(tx.token) == held + tx.amount
                &&& s.accounts.contains_key(recipient) ==> after.accounts[recipient].nonce
                    == s.accounts[recipient].nonce
                &&& !s.accounts.contains_key(recipient) ==> after.accounts[recipient].nonce == 0
            }
            &&& sender == recipient ==> after.accounts[sender].balance(tx.token)
                == s.accounts[sender].balance(tx.token) - tx.fee
            &&& forall|id: u32|
                id != sender && id != recipient && s.accounts.contains_key(id)
                    ==> #[trigger] after.accounts[id] == s.accounts[id]
            &&& forall|token: u32|
                token != tx.token ==> #[trigger] after.accounts[sender].balance(token)
                    == s.accounts[sender].balance(token)
            &&& forall|token: u32|
                token != tx.token && s.accounts.contains_key(recipient)
                    ==> #[trigger] after.accounts[recipient].balance(token)
                    == s.accounts[recipient].balance(token)
        }),
{
    lemma_resolve_replays(s, Staged::start(s), tx.to);
}

/// What an accepted transfer takes from its author, the recipient and the
/// fee get: the balances of the token on the two accounts and the fee add
/// up to what the two accounts held before.
pub proof fn law_transfer_conserves(s: StateSpec, tx: TransferSpec)
    requires
        s.wf(),
        transfer_error(s, tx) is None,
        tx.account_id != transfer_recipient(s, tx),
    ensures
        ({
            let after = transfer_run(s, tx).state;
            let sender = tx.account_id;
            let recipient = transfer_recipient(s, tx);
            let held = if s.accounts.contains_key(recipient) {
                s.accounts[recipient].balance(tx.token)
            } else {
                0
            };
            &&& after.accounts[sender].balance(tx.token) == s.accounts[sender].balance(tx.token)
                - (tx.amount + tx.fee)
            &&& after.accounts[recipient].balance(tx.token) == held + tx.amount
            &&& after.accounts[sender].balance(tx.token) + after.accounts[recipient].balance(
                tx.token,
            ) + tx.fee == s.accounts[sender].balance(tx.token) + held
        }),
{
    law_transfer_effect(s, tx);
}

/// The updates of an accepted mint can be replayed on the tree that the
/// mint met, and give the tree that it left; that tree keeps the invariant.
pub proof fn law_mint_replays(s: StateSpec, tx: MintNFTSpec, digest: H256)
    requires
        s.wf(),
        mint_error(s, tx) is None,
    ensures
        replay(s, mint_run(s, tx, digest).log) == Some(mint_run(s, tx, digest).state),
        mint_run(s, tx, digest).state.wf(),
{
    let storage = NFT_STORAGE_ACCOUNT_ID;
    let recipient = mint_recipient(s, tx);
    let id = nft_counter(s) as u32;
    let started = Staged::start(s);
    lemma_resolve_replays(s, started, tx.recipient);
    let resolved = started.resolve(tx.recipient);
    lemma_resolve_replays(s, resolved, nft_storage_account_address());
    lemma_storage_owner(resolved.state);
    let opened = resolved.resolve(nft_storage_account_address());
    let primed = if opened.state.accounts[storage].balance(NFT_TOKEN_ID) == 0 {
        opened.set_amount(storage, NFT_TOKEN_ID, MIN_NFT_TOKEN_ID as nat)
    } else {
        opened
    };
    if opened.state.accounts[storage].balance(NFT_TOKEN_ID) == 0 {
        lemma_set_replays(s, opened, storage, NFT_TOKEN_ID, MIN_NFT_TOKEN_ID as nat);
    }
    lemma_set_replays(s, primed, storage, NFT_TOKEN_ID, nft_counter(s) + 1);
    let counted = primed.set_amount(storage, NFT_TOKEN_ID, nft_counter(s) + 1);
    let charge = (s.accounts[tx.creator_id].balance(tx.fee_token) - tx.fee) as nat;
    lemma_set_replays(s, counted, tx.creator_id, tx.fee_token, charge);
    let charged = counted.set_amount(tx.creator_id, tx.fee_token, charge);
    let serial = UpdateSpec::UpdateBalance {
        old_nonce: charged.state.accounts[tx.creator_id].nonce,
        new_nonce: (tx.nonce + 1) as u32,
        token: NFT_TOKEN_ID,
        old_amount: charged.state.accounts[tx.creator_id].balance(NFT_TOKEN_ID),
        new_amount: minted_count(s, tx.creator_id) + 1,
    };
    lemma_emit_replays(s, charged, tx.creator_id, serial);
    let numbered = charged.emit(tx.creator_id, serial);
    let record = UpdateSpec::MintNFT { nft: minted_token(s, tx, digest) };
    lemma_emit_replays(s, numbered, tx.creator_id, record);
    let recorded = numbered.emit(tx.creator_id, record);
    lemma_set_replays(s, recorded, recipient, id, 1);
    let delivered = recorded.set_amount(recipient, id, 1);
    lemma_set_replays(s, delivered, storage, id, digest_data(digest));
}

/// The tree after an accepted mint: the token has the identifier that the
/// counter showed and the serial number that the author's count showed, and
/// both have grown by one; the author's nonce has grown by one and it has
/// paid the fee; the recipient holds the token, and the storage account
/// holds its data, and both found the slot of the token empty; no other
/// nonce and no other count has changed.
pub proof fn law_mint_effect(s: StateSpec, tx: MintNFTSpec, digest: H256)
    requires
        s.wf(),
        mint_error(s, tx) is None,
    ensures
        ({
            let after = mint_run(s, tx, digest).state;
            let creator = tx.creator_id;
            let recipient = mint_recipient(s, tx);
            let id = nft_counter(s) as u32;
            &&& MIN_NFT_TOKEN_ID <= nft_counter(s) < NFT_TOKEN_ID
            &&& nft_counter(after) == nft_counter(s) + 1
            &&& minted_count(after, creator) == minted_count(s, creator) + 1
            &&& forall|a: u32|
                a != creator && a != NFT_STORAGE_ACCOUNT_ID ==> #[trigger] minted_count(after, a)
                    == minted_count(s, a)
            &&& after.accounts.dom() == s.accounts.dom().insert(recipient).insert(
                NFT_STORAGE_ACCOUNT_ID,
            )
            &&& after.accounts[creator].nonce == s.accounts[creator].nonce + 1
            &&& forall|a: u32|
                a != creator && s.accounts.contains_key(a) ==> (#[trigger] after.accounts[a]).nonce
                    == s.accounts[a].nonce
            &&& tx.fee_token != id ==> after.accounts[creator].balance(tx.fee_token)
                == s.accounts[creator].balance(tx.fee_token) - tx.fee
            &&& after.accounts[recipient].balance(id) == 1
            &&& after.accounts[NFT_STORAGE_ACCOUNT_ID].balance(id) == digest_data(
                digest,
            )
            &&& mint_run(s, tx, digest).log.len() >= 6
            &&& mint_run(s, tx, digest).log[mint_run(s, tx, digest).log.len() - 2] == (
                recipient,
                UpdateSpec::UpdateBalance {
                    old_nonce: after.accounts[recipient].nonce,
                    new_nonce: after.accounts[recipient].nonce,
                    token: id,
                    old_amount: 0,
                    new_amount: 1,
                },
            )
            &&& mint_run(s, tx, digest).log.last() == (
                NFT_STORAGE_ACCOUNT_ID,
                UpdateSpec::UpdateBalance {
                    old_nonce: after.accounts[NFT_STORAGE_ACCOUNT_ID].nonce,
                    new_nonce: after.accounts[NFT_STORAGE_ACCOUNT_ID].nonce,
                    token: id,
                    old_amount: 0,
                    new_amount: digest_data(digest),
                },
            )
        }),
{
    let started = Staged::start(s);
    lemma_resolve_replays(s, started, tx.recipient);
    let resolved = started.resolve(tx.recipient);
    lemma_resolve_replays(s, resolved, nft_storage_account_address());
    lemma_storage_owner(resolved.state);
    lemma_storage_owner(s);
    let after = mint_run(s, tx, digest).state;
    assert(after.accounts.dom() =~= s.accounts.dom().insert(mint_recipient(s, tx)).insert(
        NFT_STORAGE_ACCOUNT_ID,
    ));
}

/// The updates of an accepted transaction can be replayed on the tree that
/// it met, and give the tree that it left; that tree keeps the invariant.
pub proof fn law_tx_replays(s: StateSpec, tx: TxSpec, digest: H256)
    requires
        s.wf(),
        tx_error(s, tx) is None,
    ensures
        replay(s, tx_run(s, tx, digest).log) == Some(tx_run(s, tx, digest).state),
        tx_run(s, tx, digest).state.wf(),
{
    match tx {
        TxSpec::Transfer(transfer) => law_transfer_replays(s, transfer),
        TxSpec::MintNFT(mint) => law_mint_replays(s, mint, digest),
    }
}

/// The updates of an accepted batch can be replayed on the tree that the
/// batch met, and give the tree that it left; that tree keeps the invariant.
pub proof fn law_batch_replays(s: StateSpec, txs: Seq<TxSpec>, digests: Seq<H256>)
    requires
        s.wf(),
        digests.len() == txs.len(),
        batch_run(s, txs, digests) is Ok,
    ensures
        replay(s, batch_run(s, txs, digests)->Ok_0.log) == Some(
            batch_run(s, txs, digests)->Ok_0.state,
        ),
        batch_run(s, txs, digests)->Ok_0.state.wf(),
    decreases txs.len(),
{
    if txs.len() > 0 {
        law_batch_replays(s, txs.drop_last(), digests.drop_last());
        let before = batch_run(s, txs.drop_last(), digests.drop_last())->Ok_0;
        let step = tx_run(before.state, txs.last(), digests.last());
        law_tx_replays(before.state, txs.last(), digests.last());
        lemma_replay_concat(s, before.log, step.log);
    }
}

/// The second tree has grown out of the first: it holds the accounts of
/// the first, each with the address and the signing key that it had, and
/// every other account of it, but for the storage account, has an
/// identifier that was free in the first.
pub open spec fn grown_from(s: StateSpec, after: StateSpec) -> bool {
    &&& s.next_free_id <= after.next_free_id
    &&& forall|id: u32| #[trigger]
        s.accounts.contains_key(id) ==> {
            &&& after.accounts.contains_key(id)
            &&& after.accounts[id].address == s.accounts[id].address
            &&& after.accounts[id].pub_key_hash == s.accounts[id].pub_key_hash
        }
    &&& forall|id: u32| #[trigger]
        after.accounts.contains_key(id) && !s.accounts.contains_key(id) ==> id
            == NFT_STORAGE_ACCOUNT_ID || s.next_free_id <= id
}

/// An accepted transaction takes no account away, moves no account to
/// another address, changes no signing key and gives no identifier out a
/// second time.
pub proof fn law_tx_keeps_accounts(s: StateSpec, tx: TxSpec, digest: H256)
    requires
        s.wf(),
        tx_error(s, tx) is None,
    ensures
        grown_from(s, tx_run(s, tx, digest).state),
{
    let started = Staged::start(s);
    match tx {
        TxSpec::Transfer(transfer) => {
            lemma_resolve_replays(s, started, transfer.to);
        },
        TxSpec::MintNFT(mint) => {
            lemma_resolve_replays(s, started, mint.recipient);
            lemma_resolve_replays(
                s,
                started.resolve(mint.recipient),
                nft_storage_account_address(),
            );
        },
    }
}

/// An accepted batch takes no account away, moves no account to another
/// address, changes no signing key and gives no identifier out a second
/// time.
pub proof fn law_batch_keeps_accounts(s: StateSpec, txs: Seq<TxSpec>, digests: Seq<H256>)
    requires
        s.wf(),
        digests.len() == txs.len(),
        batch_run(s, txs, digests) is Ok,
    ensures
        grown_from(s, batch_run(s, txs, digests)->Ok_0.state),
    decreases txs.len(),
{
    if txs.len() > 0 {
        let head = txs.drop_last();
        let seen = digests.drop_last();
        law_batch_keeps_accounts(s, head, seen);
        law_batch_replays(s, head, seen);
        let before = batch_run(s, head, seen)->Ok_0;
        law_tx_keeps_accounts(before.state, txs.last(), digests.last());
        let after = tx_run(before.state, txs.last(), digests.last()).state;
        assert forall|id: u32| #[trigger] s.accounts.contains_key(id) implies {
            &&& after.accounts.contains_key(id)
            &&& after.accounts[id].address == s.accounts[id].address
            &&& after.accounts[id].pub_key_hash == s.accounts[id].pub_key_hash
        } by {
            assert(before.state.accounts.contains_key(id));
        }
        assert forall|id: u32| #[trigger]
            after.accounts.contains_key(id) && !s.accounts.contains_key(id) implies id
            == NFT_STORAGE_ACCOUNT_ID || s.next_free_id <= id by {}
    }
}

/// The account that authors the transaction.
pub open spec fn tx_author(tx: TxSpec) -> u32 {
    match tx {
        TxSpec::Transfer(transfer) => transfer.account_id,
        TxSpec::MintNFT(mint) => mint.creator_id,
    }
}

/// The nonce that the transaction carries.
pub open spec fn tx_nonce(tx: TxSpec) -> u32 {
    match tx {
        TxSpec::Transfer(transfer) => transfer.nonce,
        TxSpec::MintNFT(mint) => mint.nonce,
    }
}

/// How many of the transactions the account `author` authors.
pub open spec fn authored(txs: Seq<TxSpec>, author: u32) -> nat
    decreases txs.len(),
{
    if txs.len() == 0 {
        0
    } else {
        authored(txs.drop_last(), author) + if tx_author(txs.last()) == author {
            1nat
        } else {
            0nat
        }
    }
}

/// An accepted transaction raises the nonce of its author by one and leaves
/// the nonce of every other account as it is.
pub proof fn law_tx_nonce(s: StateSpec, tx: TxSpec, digest: H256, account: u32)
    requires
        s.wf(),
        tx_error(s, tx) is None,
        s.accounts.contains_key(account),
    ensures
        tx_run(s, tx, digest).state.accounts.contains_key(account),
        tx_nonce(tx) == s.accounts[tx_author(tx)].nonce,
        tx_run(s, tx, digest).state.accounts[account].nonce == s.accounts[account].nonce
            + if tx_author(tx) == account {
            1int
        } else {
            0int
        },
{
    match tx {
        TxSpec::Transfer(transfer) => law_transfer_effect(s, transfer),
        TxSpec::MintNFT(mint) => law_mint_effect(s, mint, digest),
    }
}

/// Nonces count what their accounts author: after an accepted batch the
/// nonce of an account has grown by the number of transactions of the batch
/// that the account authors, and each of these carries the nonce that the
/// account had when its turn came.
pub proof fn law_nonce_counts_authored(
    s: StateSpec,
    txs: Seq<TxSpec>,
    digests: Seq<H256>,
    account: u32,
)
    requires
        s.wf(),
        digests.len() == txs.len(),
        s.accounts.contains_key(account),
        batch_run(s, txs, digests) is Ok,
    ensures
        batch_run(s, txs, digests)->Ok_0.state.accounts.contains_key(account),
        batch_run(s, txs, digests)->Ok_0.state.accounts[account].nonce == s.accounts[account].nonce
            + authored(txs, account),
        forall|k: int|
            0 <= k < txs.len() && tx_author(#[trigger] txs[k]) == account ==> tx_nonce(txs[k])
                == s.accounts[account].nonce + authored(txs.take(k), account),
    decreases txs.len(),
{
    if txs.len() > 0 {
        let head = txs.drop_last();
        let seen = digests.drop_last();
        law_nonce_counts_authored(s, head, seen, account);
        law_batch_replays(s, head, seen);
        let before = batch_run(s, head, seen)->Ok_0;
        law_tx_nonce(before.state, txs.last(), digests.last(), account);
        assert forall|k: int|
            0 <= k < txs.len() && tx_author(#[trigger] txs[k]) == account implies tx_nonce(txs[k])
            == s.accounts[account].nonce + authored(txs.take(k), account) by {
            if k < txs.len() - 1 {
                assert(head[k] == txs[k]);
                assert(head.take(k) =~= txs.take(k));
            }
        }
    }
}

/// The tokens that a log records as minted, in the order of the log.
pub open spec fn minted(log: Seq<(u32, UpdateSpec)>) -> Seq<NFT>
    decreases log.len(),
{
    if log.len() == 0 {
        Seq::empty()
    } else {
        match log.last().1 {
            UpdateSpec::MintNFT { nft } => minted(log.drop_last()).push(nft),
            _ => minted(log.drop_last()),
        }
    }
}

/// Those of the tokens that the account `creator` has minted, in order.
pub open spec fn by_creator(tokens: Seq<NFT>, creator: u32) -> Seq<NFT>
    decreases tokens.len(),
{
    if tokens.len() == 0 {
        Seq::empty()
    } else if tokens.last().creator_id.0 == creator {
        by_creator(tokens.drop_last(), creator).push(tokens.last())
    } else {
        by_creator(tokens.drop_last(), creator)
    }
}

/// The tokens that a log records as minted by the account `creator`, in the
/// order of the log.
pub open spec fn minted_by(log: Seq<(u32, UpdateSpec)>, creator: u32) -> Seq<NFT> {
    by_creator(minted(log), creator)
}

/// The tokens of one creator among two runs of tokens are its tokens among
/// the first, then its tokens among the second.
proof fn lemma_by_creator_concat(first: Seq<NFT>, second: Seq<NFT>, creator: u32)
    ensures
        by_creator(first + second, creator) == by_creator(first, creator) + by_creator(
            second,
            creator,
        ),
    decreases second.len(),
{
    if second.len() == 0 {
        assert(by_creator(first, creator) + by_creator(second, creator) =~= by_creator(
            first,
            creator,
        ));
    } else {
        assert((first + second).drop_last() =~= first + second.drop_last());
        lemma_by_creator_concat(first, second.drop_last(), creator);
        assert(by_creator(first + second, creator) =~= by_creator(first, creator) + by_creator(
            second,
            creator,
        ));
    }
}

/// Two logs one after the other record the tokens of the first, then the
/// tokens of the second.
proof fn lemma_minted_concat(first: Seq<(u32, UpdateSpec)>, second: Seq<(u32, UpdateSpec)>)
    ensures
        minted(first + second) == minted(first) + minted(second),
    decreases second.len(),
{
    if second.len() > 0 {
        assert((first + second).drop_last() =~= first + second.drop_last());
        lemma_minted_concat(first, second.drop_last());
    }
}

/// A run that sets a balance or creates an account records no token.
proof fn lemma_minted_unchanged(run: Staged, next: Staged)
    requires
        next.log.len() == run.log.len() + 1,
        next.log.drop_last() == run.log,
        !(next.log.last().1 is MintNFT),
    ensures
        minted(next.log) == minted(run.log),
{
}

/// A run that resolves an address records no token.
proof fn lemma_minted_resolve(run: Staged, address: Address)
    ensures
        minted(run.resolve(address).log) == minted(run.log),
{
    let next = run.resolve(address);
    if next.log.len() != run.log.len() {
        assert(next.log.drop_last() =~= run.log);
        lemma_minted_unchanged(run, next);
    }
}

/// An accepted transfer records no token, and an accepted mint records one:
/// the token that it creates.
pub proof fn lemma_minted_by_tx(s: StateSpec, tx: TxSpec, digest: H256)
    ensures
        minted(tx_run(s, tx, digest).log) == match tx {
            TxSpec::Transfer(transfer) => Seq::<NFT>::empty(),
            TxSpec::MintNFT(mint) => seq![minted_token(s, mint, digest)],
        },
{
    let started = Staged::start(s);
    match tx {
        TxSpec::Transfer(tx) => {
            let resolved = started.resolve(tx.to);
            lemma_minted_resolve(started, tx.to);
            let debited = resolved.set_balance(
                tx.account_id,
                tx.token,
                (resolved.state.accounts[tx.account_id].balance(tx.token) - (tx.amount
                    + tx.fee)) as nat,
                (tx.nonce + 1) as u32,
            );
            assert(debited.log.drop_last() =~= resolved.log);
            lemma_minted_unchanged(resolved, debited);
            let credited = transfer_run(s, tx);
            assert(credited.log.drop_last() =~= debited.log);
            lemma_minted_unchanged(debited, credited);
        },
        TxSpec::MintNFT(tx) => {
            let storage = NFT_STORAGE_ACCOUNT_ID;
            let recipient = mint_recipient(s, tx);
            let id = nft_counter(s) as u32;
            let resolved = started.resolve(tx.recipient);
            lemma_minted_resolve(started, tx.recipient);
            let opened = resolved.resolve(nft_storage_account_address());
            lemma_minted_resolve(resolved, nft_storage_account_address());
            let primed = if opened.state.accounts[storage].balance(NFT_TOKEN_ID) == 0 {
                opened.set_amount(storage, NFT_TOKEN_ID, MIN_NFT_TOKEN_ID as nat)
            } else {
                opened
            };
            if opened.state.accounts[storage].balance(NFT_TOKEN_ID) == 0 {
                assert(primed.log.drop_last() =~= opened.log);
                lemma_minted_unchanged(opened, primed);
            }
            let counted = primed.set_amount(storage, NFT_TOKEN_ID, nft_counter(s) + 1);
            assert(counted.log.drop_last() =~= primed.log);
            lemma_minted_unchanged(primed, counted);
            let charged = counted.set_amount(
                tx.creator_id,
                tx.fee_token,
                (s.accounts[tx.creator_id].balance(tx.fee_token) - tx.fee) as nat,
            );
            assert(charged.log.drop_last() =~= counted.log);
            lemma_minted_unchanged(counted, charged);
            let numbered = charged.set_balance(
                tx.creator_id,
                NFT_TOKEN_ID,
                minted_count(s, tx.creator_id) + 1,
                (tx.nonce + 1) as u32,
            );
            assert(numbered.log.drop_last() =~= charged.log);
            lemma_minted_unchanged(charged, numbered);
            let record = UpdateSpec::MintNFT { nft: minted_token(s, tx, digest) };
            let recorded = numbered.emit(tx.creator_id, record);
            assert(recorded.log.drop_last() =~= numbered.log);
            let delivered = recorded.set_amount(recipient, id, 1);
            assert(delivered.log.drop_last() =~= recorded.log);
            lemma_minted_unchanged(recorded, delivered);
            let stored = delivered.set_amount(storage, id, digest_data(digest));
            assert(stored.log.drop_last() =~= delivered.log);
            lemma_minted_unchanged(delivered, stored);
        },
    }
}

/// The identifier that the next token gets moves with the mints alone: an
/// accepted mint raises it by one, an accepted transfer leaves it.
pub proof fn law_tx_counter(s: StateSpec, tx: TxSpec, digest: H256)
    requires
        s.wf(),
        tx_error(s, tx) is None,
    ensures
        nft_counter(tx_run(s, tx, digest).state) == nft_counter(s) + minted(
            tx_run(s, tx, digest).log,
        ).len(),
        forall|k: int|
            0 <= k < minted(tx_run(s, tx, digest).log).len() ==> (#[trigger] minted(
                tx_run(s, tx, digest).log,
            )[k]).id.0 == nft_counter(s) + k,
{
    lemma_minted_by_tx(s, tx, digest);
    match tx {
        TxSpec::Transfer(transfer) => {
            law_transfer_effect(s, transfer);
            lemma_resolve_replays(s, Staged::start(s), transfer.to);
        },
        TxSpec::MintNFT(mint) => {
            law_mint_effect(s, mint, digest);
        },
    }
}

/// Token identifiers are handed out in sequence: the tokens that an
/// accepted batch mints have, in the order in which they are minted, the
/// identifier that was next when the batch began and the ones that follow
/// it, whoever mints them; on a tree without storage account the first of
/// them is the least identifier of all.
pub proof fn law_token_ids_in_sequence(s: StateSpec, txs: Seq<TxSpec>, digests: Seq<H256>)
    requires
        s.wf(),
        digests.len() == txs.len(),
        batch_run(s, txs, digests) is Ok,
    ensures
        ({
            let end = batch_run(s, txs, digests)->Ok_0;
            &&& nft_counter(end.state) == nft_counter(s) + minted(end.log).len()
            &&& forall|k: int|
                0 <= k < minted(end.log).len() ==> (#[trigger] minted(end.log)[k]).id.0
                    == nft_counter(s) + k
            &&& forall|j: int, k: int|
                0 <= j < k < minted(end.log).len() ==> minted(end.log)[j].id != minted(
                    end.log,
                )[k].id
            &&& !s.accounts.contains_key(NFT_STORAGE_ACCOUNT_ID) ==> nft_counter(s)
                == MIN_NFT_TOKEN_ID
        }),
    decreases txs.len(),
{
    if txs.len() > 0 {
        let head = txs.drop_last();
        let seen = digests.drop_last();
        law_token_ids_in_sequence(s, head, seen);
        law_batch_replays(s, head, seen);
        let before = batch_run(s, head, seen)->Ok_0;
        let step = tx_run(before.state, txs.last(), digests.last());
        law_tx_counter(before.state, txs.last(), digests.last());
        lemma_minted_concat(before.log, step.log);
        let end = batch_run(s, txs, digests)->Ok_0;
        assert forall|k: int| 0 <= k < minted(end.log).len() implies (#[trigger] minted(
            end.log,
        )[k]).id.0 == nft_counter(s) + k by {}
    }
}

/// The count of an account's minted tokens moves with its own mints alone.
pub proof fn law_tx_serial(s: StateSpec, tx: TxSpec, digest: H256, creator: u32)
    requires
        s.wf(),
        tx_error(s, tx) is None,
        creator != NFT_STORAGE_ACCOUNT_ID,
    ensures
        minted_count(tx_run(s, tx, digest).state, creator) == minted_count(s, creator) + minted_by(
            tx_run(s, tx, digest).log,
            creator,
        ).len(),
        forall|k: int|
            0 <= k < minted_by(tx_run(s, tx, digest).log, creator).len() ==> (#[trigger] minted_by(
                tx_run(s, tx, digest).log,
                creator,
            )[k]).serial_id == minted_count(s, creator) + k,
{
    lemma_minted_by_tx(s, tx, digest);
    let log = tx_run(s, tx, digest).log;
    match tx {
        TxSpec::Transfer(transfer) => {
            law_transfer_effect(s, transfer);
        },
        TxSpec::MintNFT(mint) => {
            law_mint_effect(s, mint, digest);
            assert(by_creator(minted(log).drop_last(), creator) =~= Seq::empty());
        },
    }
}

/// Serial numbers count an account's own mints: the tokens that an account
/// mints in an accepted batch have, in the order in which they are minted,
/// the number of tokens that it had minted when the batch began and the
/// numbers that follow it, so that the first token that an account ever
/// mints has the serial number zero.
pub proof fn law_serials_in_sequence(
    s: StateSpec,
    txs: Seq<TxSpec>,
    digests: Seq<H256>,
    creator: u32,
)
    requires
        s.wf(),
        digests.len() == txs.len(),
        creator != NFT_STORAGE_ACCOUNT_ID,
        batch_run(s, txs, digests) is Ok,
    ensures
        ({
            let end = batch_run(s, txs, digests)->Ok_0;
            &&& minted_count(end.state, creator) == minted_count(s, creator) + minted_by(
                end.log,
                creator,
            ).len()
            &&& forall|k: int|
                0 <= k < minted_by(end.log, creator).len() ==> (#[trigger] minted_by(
                    end.log,
                    creator,
                )[k]).serial_id == minted_count(s, creator) + k
        }),
    decreases txs.len(),
{
    if txs.len() > 0 {
        let head = txs.drop_last();
        let seen = digests.drop_last();
        law_serials_in_sequence(s, head, seen, creator);
        law_batch_replays(s, head, seen);
        let before = batch_run(s, head, seen)->Ok_0;
        let step = tx_run(before.state, txs.last(), digests.last());
        law_tx_serial(before.state, txs.last(), digests.last(), creator);
        lemma_minted_concat(before.log, step.log);
        lemma_by_creator_concat(minted(before.log), minted(step.log), creator);
        let end = batch_run(s, txs, digests)->Ok_0;
        assert forall|k: int| 0 <= k < minted_by(end.log, creator).len() implies (
        #[trigger] minted_by(end.log, creator)[k]).serial_id == minted_count(s, creator) + k by {
            if k >= minted_by(before.log, creator).len() {
                assert(minted_by(end.log, creator)[k] == minted_by(step.log, creator)[k
                    - minted_by(before.log, creator).len()]);
            }
        }
    }
}

/// A mint is never accepted while the recipient holds anything in the slot
/// of the token that would be minted; where nothing else stands against
/// the mint, it is rejected because the token is already there.
pub proof fn law_taken_slot_rejects(s: StateSpec, tx: MintNFTSpec)
    requires
        s.owner(tx.recipient) is Some,
        s.accounts[s.owner(tx.recipient)->0].balance(nft_counter(s) as u32) != 0,
    ensures
        mint_error(s, tx) is Some,
        mint_unfit(s, tx) is None ==> mint_error(s, tx) == Some(
            OpError::TokenAlreadyPresent(TokenId(nft_counter(s) as u32)),
        ),
{
}

} // verus!
