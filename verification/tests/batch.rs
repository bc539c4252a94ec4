use num::BigUint;

use zksync_state::account::Account;
use zksync_state::error::{OpError, TxBatchError};
use zksync_state::params::{MIN_NFT_TOKEN_ID, NFT_STORAGE_ACCOUNT_ID, NFT_TOKEN_ID};
use zksync_state::primitives::{AccountId, Address, Nonce, PubKeyHash, TokenId, H256};
use zksync_state::state::ZkSyncState;
use zksync_state::tx::{MintNFT, SignedZkSyncTx, TokenSeed, Transfer, ZkSyncTx};
use zksync_state::update::AccountUpdate;

fn address(tag: u8) -> Address {
    Address { bytes: [tag; 20] }
}

fn big(n: u64) -> BigUint {
    BigUint::from(n)
}

fn digest(seed: TokenSeed) -> H256 {
    let mut bytes = [0u8; 32];
    bytes[31] = seed.serial_id as u8 + 1;
    H256 { bytes }
}

fn tree() -> ZkSyncState {
    let mut state = ZkSyncState::new();
    let mut account = Account::default_with_address(&address(1));
    account.pub_key_hash = Some(PubKeyHash { data: [1u8; 20] });
    account.set_balance(TokenId(0), big(20));
    state.insert_account(AccountId(0), account).unwrap();
    state
}

fn transfer(to: Address, amount: u64, fee: u64, nonce: u32) -> SignedZkSyncTx {
    SignedZkSyncTx {
        tx: ZkSyncTx::Transfer(Box::new(Transfer::new(
            AccountId(0),
            address(1),
            to,
            TokenId(0),
            big(amount),
            big(fee),
            Nonce(nonce),
        ))),
        eth_sign_data: None,
    }
}

fn mint(recipient: Address, fee: u64, nonce: u32) -> SignedZkSyncTx {
    SignedZkSyncTx {
        tx: ZkSyncTx::MintNFT(Box::new(MintNFT::new(
            AccountId(0),
            address(1),
            H256::default(),
            recipient,
            big(fee),
            TokenId(0),
            Nonce(nonce),
        ))),
        eth_sign_data: None,
    }
}

fn balance(state: &ZkSyncState, id: u32, token: u32) -> BigUint {
    state.get_account(AccountId(id)).unwrap().get_balance(TokenId(token))
}

#[test]
fn empty_batch_does_nothing() {
    let mut state = tree();
    let done = state.execute_txs_batch(&Vec::new(), &digest).unwrap();
    assert!(done.updates.is_empty());
    assert!(done.fees.is_empty());
    assert_eq!(balance(&state, 0, 0), big(20));
}

#[test]
fn batch_members_see_what_the_earlier_ones_did() {
    let mut state = tree();
    let txs = vec![transfer(address(2), 0, 10, 0), mint(address(2), 10, 1)];
    let done = state.execute_txs_batch(&txs, &digest).unwrap();
    let creates: Vec<&(AccountId, AccountUpdate)> = done
        .updates
        .iter()
        .filter(|(_, update)| {
            matches!(update, AccountUpdate::Create { address: a, .. } if *a == address(2))
        })
        .collect();
    assert_eq!(creates.len(), 1);
    assert_eq!(creates[0].0, AccountId(1));
    assert_eq!(done.updates.len(), 11);
    assert_eq!(done.fees.len(), 2);
    assert_eq!(done.fees[0].amount, big(10));
    assert_eq!(done.fees[1].amount, big(10));
    assert_eq!(state.get_account(AccountId(0)).unwrap().nonce, Nonce(2));
    assert_eq!(balance(&state, 0, 0), big(0));
    assert_eq!(balance(&state, 1, MIN_NFT_TOKEN_ID), big(1));
    assert_eq!(balance(&state, NFT_STORAGE_ACCOUNT_ID, MIN_NFT_TOKEN_ID), big(1));
}

#[test]
fn batch_with_a_rejected_member_changes_nothing() {
    let mut state = tree();
    let txs = vec![
        transfer(address(2), 5, 1, 0),
        mint(address(3), 1, 1),
        transfer(address(4), 50, 1, 2),
        transfer(address(5), 1, 1, 3),
    ];
    let error = state.execute_txs_batch(&txs, &digest).unwrap_err();
    assert_eq!(error, TxBatchError { index: 2, reason: OpError::InsufficientBalance });
    assert_eq!(
        error.message(),
        "Batch execution failed, since tx #3 of batch failed with a reason: Not enough balance"
    );
    assert_eq!(state.get_free_account_id(), AccountId(1));
    assert!(state.get_account(AccountId(1)).is_none());
    assert!(state.get_account(AccountId(2)).is_none());
    assert!(state.get_account(AccountId(NFT_STORAGE_ACCOUNT_ID)).is_none());
    assert!(state.get_account_by_address(&address(2)).is_none());
    assert!(state.get_account_by_address(&address(3)).is_none());
    let author = state.get_account(AccountId(0)).unwrap();
    assert_eq!(author.nonce, Nonce(0));
    assert_eq!(author.get_balance(TokenId(0)), big(20));
    assert_eq!(author.get_balance(TokenId(NFT_TOKEN_ID)), big(0));
    // the tree is as good as before: the first two members alone go through
    let done = state
        .execute_txs_batch(&vec![transfer(address(2), 5, 1, 0), mint(address(3), 1, 1)], &digest)
        .unwrap();
    assert_eq!(done.fees.len(), 2);
    assert_eq!(balance(&state, 0, 0), big(13));
    assert_eq!(state.get_account_id_by_address(&address(2)), Some(AccountId(1)));
    assert_eq!(state.get_account_id_by_address(&address(3)), Some(AccountId(2)));
    assert_eq!(state.get_account_id_by_address(&address(4)), None);
    assert_eq!(state.get_free_account_id(), AccountId(3));
    assert_eq!(balance(&state, 2, MIN_NFT_TOKEN_ID), big(1));
}

#[test]
fn batch_is_rejected_with_its_first_bad_member() {
    let mut state = tree();
    let txs = vec![transfer(address(2), 1, 1, 5), transfer(address(2), 100, 1, 0)];
    let error = state.execute_txs_batch(&txs, &digest).unwrap_err();
    assert_eq!(error, TxBatchError { index: 0, reason: OpError::NonceMismatch });
    assert_eq!(
        error.message(),
        "Batch execution failed, since tx #1 of batch failed with a reason: Nonce mismatch"
    );
}

#[test]
fn batch_of_mints_hands_out_digests_by_serial() {
    let mut state = tree();
    let txs = vec![mint(address(2), 1, 0), mint(address(2), 1, 1), mint(address(3), 1, 2)];
    let done = state.execute_txs_batch(&txs, &digest).unwrap();
    let tokens: Vec<(u32, u32, u8)> = done
        .updates
        .iter()
        .filter_map(|(_, update)| match update {
            AccountUpdate::MintNFT { token } => {
                Some((token.id.0, token.serial_id, token.address.bytes[19]))
            }
            _ => None,
        })
        .collect();
    assert_eq!(tokens, vec![(65536, 0, 1), (65537, 1, 2), (65538, 2, 3)]);
    assert_eq!(balance(&state, NFT_STORAGE_ACCOUNT_ID, 65536), big(1));
    assert_eq!(balance(&state, NFT_STORAGE_ACCOUNT_ID, 65537), big(2));
    assert_eq!(balance(&state, NFT_STORAGE_ACCOUNT_ID, 65538), big(3));
    assert_eq!(balance(&state, NFT_STORAGE_ACCOUNT_ID, NFT_TOKEN_ID), big(65539));
}

#[test]
fn single_transactions_go_through_the_dispatcher() {
    let mut state = tree();
    let sent = state.execute_tx(&transfer(address(2), 3, 1, 0).tx, &digest).unwrap();
    assert_eq!(sent.updates.len(), 3);
    let made = state.execute_tx(&mint(address(2), 1, 1).tx, &digest).unwrap();
    assert_eq!(made.updates.len(), 8);
    let error = state.execute_tx(&mint(address(2), 1, 1).tx, &digest).unwrap_err();
    assert_eq!(error, OpError::NonceMismatch);
    assert_eq!(balance(&state, 0, 0), big(15));
    assert_eq!(balance(&state, 1, 0), big(3));
}

#[test]
fn batch_member_with_a_used_nonce_is_rejected() {
    let mut state = tree();
    let txs = vec![transfer(address(2), 0, 10, 0), mint(address(2), 10, 0)];
    let error = state.execute_txs_batch(&txs, &digest).unwrap_err();
    assert_eq!(error, TxBatchError { index: 1, reason: OpError::NonceMismatch });
    assert_eq!(state.get_account(AccountId(0)).unwrap().nonce, Nonce(0));
    assert_eq!(balance(&state, 0, 0), big(20));
    assert!(state.get_account_by_address(&address(2)).is_none());
    assert_eq!(state.get_free_account_id(), AccountId(1));
}
