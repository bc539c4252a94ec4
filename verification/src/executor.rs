use crate::amount::amount_value;
use crate::error::{OpError, TxBatchError};
use crate::laws::law_batch_replays;
use crate::mint_nft::{mint_done, mint_error, mint_run, mint_seed};
use crate::model::{Staged, StateSpec};
use crate::primitives::H256;
use crate::state::{staged, ZkSyncState};
use crate::transfer::{transfer_error, transfer_run};
use crate::tx::{batch_view, SignedZkSyncTx, TokenSeed, TxSpec, ZkSyncTx};
use crate::update::{fees_view, log_view, AccountUpdates, BatchSuccess, CollectedFee, OpSuccess};
use vstd::prelude::*;

verus! {

/// Why the tree rejects the transaction, if it does.
pub open spec fn tx_error(s: StateSpec, tx: TxSpec) -> Option<OpError> {
    match tx {
        TxSpec::Transfer(transfer) => transfer_error(s, transfer),
        TxSpec::MintNFT(mint) => mint_error(s, mint),
    }
}

/// What the accepted transaction does, update by update. Only a mint has
/// use for the digest.
pub open spec fn tx_run(s: StateSpec, tx: TxSpec, digest: H256) -> Staged {
    match tx {
        TxSpec::Transfer(transfer) => transfer_run(s, transfer),
        TxSpec::MintNFT(mint) => mint_run(s, mint, digest),
    }
}

/// The fee that the transaction pays: the token and the amount.
pub open spec fn tx_fee(tx: TxSpec) -> (u32, nat) {
    match tx {
        TxSpec::Transfer(transfer) => (transfer.token, transfer.fee),
        TxSpec::MintNFT(mint) => (mint.fee_token, mint.fee),
    }
}

/// The digest is one that `derive` gives for the token of the transaction;
/// any digest will do for a transaction that mints nothing.
pub open spec fn digest_allowed<F: Fn(TokenSeed) -> H256>(
    derive: F,
    s: StateSpec,
    tx: TxSpec,
    digest: H256,
) -> bool {
    tx matches TxSpec::MintNFT(mint) ==> call_ensures(derive, (mint_seed(s, mint),), digest)
}

/// The result `r` and the tree `after` are those of the accepted
/// transaction.
pub open spec fn tx_done(
    s: StateSpec,
    tx: TxSpec,
    digest: H256,
    after: StateSpec,
    r: Result<OpSuccess, OpError>,
) -> bool {
    &&& r matches Ok(done)
    &&& after == tx_run(s, tx, digest).state
    &&& log_view(done.updates@) == tx_run(s, tx, digest).log
    &&& done.fee matches Some(fee)
    &&& (fee.token.0, amount_value(fee.amount)) == tx_fee(tx)
}

/// The transactions applied in order, each to the tree that the one before
/// it left, with the updates of all of them; or the first one that is
/// rejected, counted from zero, and why.
pub open spec fn batch_run(s: StateSpec, txs: Seq<TxSpec>, digests: Seq<H256>) -> Result<
    Staged,
    TxBatchError,
>
    decreases txs.len(),
{
    if txs.len() == 0 {
        Ok(Staged::start(s))
    } else {
        match batch_run(s, txs.drop_last(), digests.drop_last()) {
            Err(e) => Err(e),
            Ok(before) => match tx_error(before.state, txs.last()) {
                Some(reason) => Err(TxBatchError { index: (txs.len() - 1) as usize, reason }),
                None => Ok(before.followed_by(tx_run(before.state, txs.last(), digests.last()))),
            },
        }
    }
}

/// Where the transaction `k` of the batch is reached and accepted, its
/// digest is one that `derive` gives.
pub open spec fn step_allowed<F: Fn(TokenSeed) -> H256>(
    derive: F,
    s: StateSpec,
    txs: Seq<TxSpec>,
    digests: Seq<H256>,
    k: int,
) -> bool {
    match batch_run(s, txs.take(k), digests.take(k)) {
        Ok(before) => tx_error(before.state, txs[k]) is None ==> digest_allowed(
            derive,
            before.state,
            txs[k],
            digests[k],
        ),
        Err(_) => true,
    }
}

/// There is one digest for each transaction, and the digest of each
/// transaction that is accepted in its turn is one that `derive` gives.
pub open spec fn batch_digests_allowed<F: Fn(TokenSeed) -> H256>(
    derive: F,
    s: StateSpec,
    txs: Seq<TxSpec>,
    digests: Seq<H256>,
) -> bool {
    &&& digests.len() == txs.len()
    &&& forall|k: int| 0 <= k < txs.len() ==> #[trigger] step_allowed(derive, s, txs, digests, k)
}

/// The result `r` and the tree `after` are those of the batch.
pub open spec fn batch_done(
    s: StateSpec,
    txs: Seq<TxSpec>,
    digests: Seq<H256>,
    after: StateSpec,
    r: Result<BatchSuccess, TxBatchError>,
) -> bool {
    match batch_run(s, txs, digests) {
        Err(e) => r matches Err(failure) && failure == e && after == s,
        Ok(end) => {
            &&& r matches Ok(done)
            &&& after == end.state
            &&& log_view(done.updates@) == end.log
            &&& fees_view(done.fees@) == Seq::new(txs.len(), |k: int| tx_fee(txs[k]))
        },
    }
}

/// A batch whose first `k` transactions hold a rejected one is rejected
/// with that one, whatever follows.
pub proof fn lemma_batch_rejected_early(
    s: StateSpec,
    txs: Seq<TxSpec>,
    digests: Seq<H256>,
    k: int,
)
    requires
        0 <= k <= txs.len(),
        digests.len() == txs.len(),
        batch_run(s, txs.take(k), digests.take(k)) is Err,
    ensures
        batch_run(s, txs, digests) == batch_run(s, txs.take(k), digests.take(k)),
    decreases txs.len() - k,
{
    if k == txs.len() {
        assert(txs.take(k) =~= txs);
        assert(digests.take(k) =~= digests);
    } else {
        assert(txs.take(k + 1).drop_last() =~= txs.take(k));
        assert(digests.take(k + 1).drop_last() =~= digests.take(k));
        lemma_batch_rejected_early(s, txs, digests, k + 1);
    }
}

/// A batch whose transaction `i` is rejected in its turn is rejected with
/// it, whatever digests are put where the known ones end.
pub proof fn lemma_batch_rejected_at<F: Fn(TokenSeed) -> H256>(
    derive: F,
    s: StateSpec,
    txs: Seq<TxSpec>,
    seen: Seq<H256>,
    i: int,
) -> (digests: Seq<H256>)
    requires
        0 <= i < txs.len(),
        seen.len() == i,
        batch_run(s, txs.take(i), seen) is Ok,
        tx_error(batch_run(s, txs.take(i), seen)->Ok_0.state, txs[i]) is Some,
        forall|k: int| 0 <= k < i ==> #[trigger] step_allowed(derive, s, txs, seen, k),
    ensures
        batch_digests_allowed(derive, s, txs, digests),
        batch_run(s, txs, digests) == Err::<Staged, TxBatchError>(
            TxBatchError {
                index: i as usize,
                reason: tx_error(batch_run(s, txs.take(i), seen)->Ok_0.state, txs[i])->0,
            },
        ),
{
    let digests = seen + Seq::new((txs.len() - i) as nat, |k: int| arbitrary::<H256>());
    assert(digests.take(i) =~= seen);
    assert(txs.take(i + 1).drop_last() =~= txs.take(i));
    assert(digests.take(i + 1).drop_last() =~= seen);
    lemma_batch_rejected_early(s, txs, digests, i + 1);
    assert forall|k: int| 0 <= k < txs.len() implies #[trigger] step_allowed(
        derive,
        s,
        txs,
        digests,
        k,
    ) by {
        if k < i {
            assert(digests.take(k) =~= seen.take(k));
            assert(step_allowed(derive, s, txs, seen, k));
        } else if k > i {
            assert(txs.take(k).take(i + 1) =~= txs.take(i + 1));
            assert(digests.take(k).take(i + 1) =~= digests.take(i + 1));
            lemma_batch_rejected_early(s, txs.take(k), digests.take(k), i + 1);
        }
    }
    digests
}

/// A batch goes one transaction further where that transaction is accepted
/// in its turn, with a digest that `derive` gives.
pub proof fn lemma_batch_accepted_at<F: Fn(TokenSeed) -> H256>(
    derive: F,
    s: StateSpec,
    txs: Seq<TxSpec>,
    seen: Seq<H256>,
    i: int,
    digest: H256,
)
    requires
        0 <= i < txs.len(),
        seen.len() == i,
        batch_run(s, txs.take(i), seen) is Ok,
        tx_error(batch_run(s, txs.take(i), seen)->Ok_0.state, txs[i]) is None,
        digest_allowed(derive, batch_run(s, txs.take(i), seen)->Ok_0.state, txs[i], digest),
        forall|k: int| 0 <= k < i ==> #[trigger] step_allowed(derive, s, txs, seen, k),
    ensures
        batch_run(s, txs.take(i + 1), seen.push(digest)) == Ok::<Staged, TxBatchError>(
            batch_run(s, txs.take(i), seen)->Ok_0.followed_by(
                tx_run(batch_run(s, txs.take(i), seen)->Ok_0.state, txs[i], digest),
            ),
        ),
        forall|k: int|
            0 <= k < i + 1 ==> #[trigger] step_allowed(derive, s, txs, seen.push(digest), k),
{
    let digests = seen.push(digest);
    assert(txs.take(i + 1).drop_last() =~= txs.take(i));
    assert(digests.drop_last() =~= seen);
    assert forall|k: int| 0 <= k < i + 1 implies #[trigger] step_allowed(
        derive,
        s,
        txs,
        digests,
        k,
    ) by {
        if k < i {
            assert(digests.take(k) =~= seen.take(k));
            assert(step_allowed(derive, s, txs, seen, k));
        }
    }
}

impl ZkSyncState {
    /// Applies the transaction, or rejects it and leaves the tree as it is.
    pub fn execute_tx<F: Fn(TokenSeed) -> H256>(&mut self, tx: &ZkSyncTx, derive: &F) -> (r:
        Result<OpSuccess, OpError>)
        requires
            old(self).wf(),
            forall|seed: TokenSeed| call_requires(*derive, (seed,)),
        ensures
            final(self).wf(),
            match tx_error(old(self)@, tx@) {
                Some(e) => r matches Err(reason) && reason == e && final(self)@ == old(self)@,
                None => exists|digest: H256|
                    {
                        &&& digest_allowed(*derive, old(self)@, tx@, digest)
                        &&& #[trigger] tx_done(old(self)@, tx@, digest, final(self)@, r)
                    },
            },
    {
        match tx {
            ZkSyncTx::Transfer(transfer) => {
                let r = self.apply_transfer(transfer);
                proof {
                    if transfer_error(old(self)@, transfer@) is None {
                        let digest = arbitrary::<H256>();
                        assert(tx_done(old(self)@, tx@, digest, self@, r));
                    }
                }
                r
            },
            ZkSyncTx::MintNFT(mint) => {
                let r = self.apply_mint_nft(mint, derive);
                proof {
                    if mint_error(old(self)@, mint@) is None {
                        let digest = choose|digest: H256|
                            {
                                &&& call_ensures(*derive, (mint_seed(old(self)@, mint@),), digest)
                                &&& #[trigger] mint_done(
                                    old(self)@,
                                    mint@,
                                    digest,
                                    self@,
                                    r,
                                )
                            };
                        assert(tx_done(old(self)@, tx@, digest, self@, r));
                    }
                }
                r
            },
        }
    }

    /// Applies the transactions in order as one unit: all of them, or, where
    /// one is rejected, none.
    pub fn execute_txs_batch<F: Fn(TokenSeed) -> H256>(
        &mut self,
        txs: &Vec<SignedZkSyncTx>,
        derive: &F,
    ) -> (r: Result<BatchSuccess, TxBatchError>)
        requires
            old(self).wf(),
            forall|seed: TokenSeed| call_requires(*derive, (seed,)),
        ensures
            final(self).wf(),
            r is Err ==> final(self)@ == old(self)@,
            exists|digests: Seq<H256>|
                {
                    &&& batch_digests_allowed(*derive, old(self)@, batch_view(txs@), digests)
                    &&& #[trigger] batch_done(
                        old(self)@,
                        batch_view(txs@),
                        digests,
                        final(self)@,
                        r,
                    )
                },
    {
        let ghost all = batch_view(txs@);
        let ghost start = self@;
        let first_free = self.get_free_account_id();
        let mut log: AccountUpdates = Vec::new();
        let mut fees: Vec<CollectedFee> = Vec::new();
        let ghost mut digests: Seq<H256> = Seq::empty();
        let mut i: usize = 0;
        proof {
            assert(log_view(log@) =~= Seq::empty());
        }
        while i < txs.len()
            invariant
                i <= txs.len(),
                all == batch_view(txs@),
                start == old(self)@,
                start.wf(),
                first_free.0 == start.next_free_id,
                self.wf(),
                forall|seed: TokenSeed| call_requires(*derive, (seed,)),
                digests.len() == i,
                batch_run(start, all.take(i as int), digests) == Ok::<Staged, TxBatchError>(
                    staged(self, &log),
                ),
                forall|k: int|
                    0 <= k < i ==> #[trigger] step_allowed(*derive, start, all, digests, k),
                fees_view(fees@) == Seq::new(i as nat, |k: int| tx_fee(all[k])),
            decreases txs.len() - i,
        {
            let ghost before = staged(self, &log);
            match self.execute_tx(&txs[i].tx, derive) {
                Err(reason) => {
                    proof {
                        law_batch_replays(start, all.take(i as int), digests);
                        assert(log_view(log@).take(log@.len() as int) =~= log_view(log@));
                    }
                    self.revert_account_updates(&log, log.len(), first_free, Ghost(start));
                    proof {
                        let padded = lemma_batch_rejected_at(*derive, start, all, digests, i as int);
                        assert(batch_done(
                            start,
                            all,
                            padded,
                            self@,
                            Err::<BatchSuccess, TxBatchError>(TxBatchError { index: i, reason }),
                        ));
                    }
                    return Err(TxBatchError { index: i, reason });
                },
                Ok(done) => {
                    proof {
                        let digest = choose|digest: H256|
                            {
                                &&& digest_allowed(*derive, before.state, all[i as int], digest)
                                &&& #[trigger] tx_done(
                                    before.state,
                                    all[i as int],
                                    digest,
                                    self@,
                                    Ok::<OpSuccess, OpError>(done),
                                )
                            };
                        lemma_batch_accepted_at(*derive, start, all, digests, i as int, digest);
                        digests = digests.push(digest);
                    }
                    let OpSuccess { fee, updates } = done;
                    let mut updates = updates;
                    let ghost recorded = log_view(log@) + log_view(updates@);
                    let ghost paid = fees_view(fees@);
                    log.append(&mut updates);
                    fees.push(fee.unwrap());
                    proof {
                        assert(log_view(log@) =~= recorded);
                        assert(fees_view(fees@) =~= paid.push(tx_fee(all[i as int])));
                        assert(fees_view(fees@) =~= Seq::new(
                            (i + 1) as nat,
                            |k: int| tx_fee(all[k]),
                        ));
                    }
                },
            }
            i += 1;
        }
        proof {
            assert(all.take(i as int) =~= all);
            assert(batch_done(
                start,
                all,
                digests,
                self@,
                Ok::<BatchSuccess, TxBatchError>(BatchSuccess { fees, updates: log }),
            ));
        }
        Ok(BatchSuccess { fees, updates: log })
    }
}

} // verus!
