use num::BigUint;

use zksync_state::account::Account;
use zksync_state::error::OpError;
use zksync_state::params::{nft_storage_account_address, NFT_STORAGE_ACCOUNT_ID, NFT_TOKEN_ID};
use zksync_state::primitives::{AccountId, Address, Nonce, PubKeyHash, TokenId};
use zksync_state::state::ZkSyncState;
use zksync_state::tx::Transfer;
use zksync_state::update::AccountUpdate;

fn address(tag: u8) -> Address {
    Address { bytes: [tag; 20] }
}

fn big(n: u64) -> BigUint {
    BigUint::from(n)
}

/// A tree with the unlocked account 0 at `address(1)`, which holds 100 of
/// the token 7, and the locked account 1 at `address(2)`, which holds 5.
fn two_accounts() -> ZkSyncState {
    let mut state = ZkSyncState::new();
    let mut sender = Account::default_with_address(&address(1));
    sender.pub_key_hash = Some(PubKeyHash { data: [9u8; 20] });
    sender.set_balance(TokenId(7), big(100));
    state.insert_account(AccountId(0), sender).unwrap();
    let mut recipient = Account::default_with_address(&address(2));
    recipient.set_balance(TokenId(7), big(5));
    state.insert_account(AccountId(1), recipient).unwrap();
    state
}

fn transfer(to: Address, amount: u64, fee: u64, nonce: u32) -> Transfer {
    Transfer::new(AccountId(0), address(1), to, TokenId(7), big(amount), big(fee), Nonce(nonce))
}

fn balance(state: &ZkSyncState, id: u32, token: u32) -> BigUint {
    state.get_account(AccountId(id)).unwrap().get_balance(TokenId(token))
}

#[test]
fn transfer_to_known_account_moves_amount_and_fee() {
    let mut state = two_accounts();
    let done = state.apply_transfer(&transfer(address(2), 30, 4, 0)).unwrap();
    assert_eq!(
        done.updates,
        vec![
            (
                AccountId(0),
                AccountUpdate::UpdateBalance {
                    old_nonce: Nonce(0),
                    new_nonce: Nonce(1),
                    balance_update: (TokenId(7), big(100), big(66)),
                },
            ),
            (
                AccountId(1),
                AccountUpdate::UpdateBalance {
                    old_nonce: Nonce(0),
                    new_nonce: Nonce(0),
                    balance_update: (TokenId(7), big(5), big(35)),
                },
            ),
        ]
    );
    let fee = done.fee.unwrap();
    assert_eq!(fee.token, TokenId(7));
    assert_eq!(fee.amount, big(4));
    assert_eq!(balance(&state, 0, 7), big(66));
    assert_eq!(balance(&state, 1, 7), big(35));
    assert_eq!(state.get_account(AccountId(0)).unwrap().nonce, Nonce(1));
    assert_eq!(state.get_account(AccountId(1)).unwrap().nonce, Nonce(0));
}

#[test]
fn transfer_conserves_the_token() {
    let mut state = two_accounts();
    let before = balance(&state, 0, 7) + balance(&state, 1, 7);
    let done = state.apply_transfer(&transfer(address(2), 41, 9, 0)).unwrap();
    let after = balance(&state, 0, 7) + balance(&state, 1, 7) + done.fee.unwrap().amount;
    assert_eq!(before, after);
    assert_eq!(balance(&state, 0, 7), big(50));
    assert_eq!(balance(&state, 1, 7), big(46));
}

#[test]
fn transfer_to_new_address_creates_the_account_first() {
    let mut state = two_accounts();
    let done = state.apply_transfer(&transfer(address(3), 10, 1, 0)).unwrap();
    assert_eq!(
        done.updates,
        vec![
            (AccountId(2), AccountUpdate::Create { address: address(3), nonce: Nonce(0) }),
            (
                AccountId(0),
                AccountUpdate::UpdateBalance {
                    old_nonce: Nonce(0),
                    new_nonce: Nonce(1),
                    balance_update: (TokenId(7), big(100), big(89)),
                },
            ),
            (
                AccountId(2),
                AccountUpdate::UpdateBalance {
                    old_nonce: Nonce(0),
                    new_nonce: Nonce(0),
                    balance_update: (TokenId(7), big(0), big(10)),
                },
            ),
        ]
    );
    assert_eq!(state.get_free_account_id(), AccountId(3));
    let (id, account) = state.get_account_by_address(&address(3)).unwrap();
    assert_eq!(id, AccountId(2));
    assert_eq!(account.pub_key_hash, None);
    assert_eq!(account.get_balance(TokenId(7)), big(10));
}

#[test]
fn transfer_to_oneself_costs_the_fee() {
    let mut state = two_accounts();
    let done = state.apply_transfer(&transfer(address(1), 30, 4, 0)).unwrap();
    assert_eq!(
        done.updates,
        vec![
            (
                AccountId(0),
                AccountUpdate::UpdateBalance {
                    old_nonce: Nonce(0),
                    new_nonce: Nonce(1),
                    balance_update: (TokenId(7), big(100), big(66)),
                },
            ),
            (
                AccountId(0),
                AccountUpdate::UpdateBalance {
                    old_nonce: Nonce(1),
                    new_nonce: Nonce(1),
                    balance_update: (TokenId(7), big(66), big(96)),
                },
            ),
        ]
    );
    assert_eq!(balance(&state, 0, 7), big(96));
}

#[test]
fn transfer_of_the_whole_balance_is_accepted() {
    let mut state = two_accounts();
    state.apply_transfer(&transfer(address(2), 90, 10, 0)).unwrap();
    assert_eq!(balance(&state, 0, 7), big(0));
    assert_eq!(balance(&state, 1, 7), big(95));
}

#[test]
fn transfer_of_more_than_the_balance_is_rejected() {
    let mut state = two_accounts();
    let error = state.apply_transfer(&transfer(address(2), 91, 10, 0)).unwrap_err();
    assert_eq!(error, OpError::InsufficientBalance);
    assert_eq!(error.message(), "Not enough balance");
    assert_eq!(balance(&state, 0, 7), big(100));
    assert_eq!(balance(&state, 1, 7), big(5));
    assert_eq!(state.get_account(AccountId(0)).unwrap().nonce, Nonce(0));
}

#[test]
fn transfer_with_another_nonce_is_rejected() {
    let mut state = two_accounts();
    let error = state.apply_transfer(&transfer(address(2), 1, 1, 1)).unwrap_err();
    assert_eq!(error, OpError::NonceMismatch);
    assert_eq!(error.message(), "Nonce mismatch");
    assert_eq!(balance(&state, 0, 7), big(100));
}

#[test]
fn transfer_from_a_locked_account_is_rejected() {
    let mut state = two_accounts();
    let tx = Transfer::new(
        AccountId(1),
        address(2),
        address(1),
        TokenId(7),
        big(1),
        big(1),
        Nonce(0),
    );
    let error = state.apply_transfer(&tx).unwrap_err();
    assert_eq!(error, OpError::LockedAccount);
    assert_eq!(error.message(), "Account is locked");
    assert_eq!(balance(&state, 1, 7), big(5));
}

#[test]
fn transfer_from_an_unknown_account_is_rejected() {
    let mut state = two_accounts();
    let tx = Transfer::new(
        AccountId(5),
        address(5),
        address(1),
        TokenId(7),
        big(1),
        big(1),
        Nonce(0),
    );
    let error = state.apply_transfer(&tx).unwrap_err();
    assert_eq!(error, OpError::UnknownAccount);
    assert_eq!(error.message(), "Account does not exist");
    assert!(state.get_account(AccountId(5)).is_none());
}

#[test]
fn transfer_that_names_a_reserved_slot_or_account_is_rejected() {
    let mut state = two_accounts();
    let of_counter = Transfer::new(
        AccountId(0),
        address(1),
        address(2),
        TokenId(NFT_TOKEN_ID),
        big(0),
        big(0),
        Nonce(0),
    );
    assert_eq!(state.apply_transfer(&of_counter).unwrap_err(), OpError::MalformedTransaction);
    let to_storage = transfer(nft_storage_account_address(), 1, 1, 0);
    assert_eq!(state.apply_transfer(&to_storage).unwrap_err(), OpError::MalformedTransaction);
    let from_storage = Transfer::new(
        AccountId(NFT_STORAGE_ACCOUNT_ID),
        nft_storage_account_address(),
        address(2),
        TokenId(7),
        big(0),
        big(0),
        Nonce(0),
    );
    let error = state.apply_transfer(&from_storage).unwrap_err();
    assert_eq!(error, OpError::MalformedTransaction);
    assert_eq!(error.message(), "Transaction is malformed");
    assert!(state.get_account(AccountId(NFT_STORAGE_ACCOUNT_ID)).is_none());
    assert_eq!(state.get_free_account_id(), AccountId(2));
}

#[test]
fn transfer_whose_author_has_another_address_is_rejected() {
    let mut state = two_accounts();
    let tx = Transfer::new(
        AccountId(0),
        address(2),
        address(2),
        TokenId(7),
        big(1),
        big(1),
        Nonce(0),
    );
    assert_eq!(state.apply_transfer(&tx).unwrap_err(), OpError::MalformedTransaction);
    assert_eq!(balance(&state, 0, 7), big(100));
}

#[test]
fn transfer_at_the_last_nonce_is_rejected() {
    let mut state = two_accounts();
    let mut sender = state.get_account(AccountId(0)).unwrap();
    sender.nonce = Nonce(u32::MAX);
    state.insert_account(AccountId(0), sender).unwrap();
    let error = state.apply_transfer(&transfer(address(2), 1, 1, u32::MAX)).unwrap_err();
    assert_eq!(error, OpError::CounterExhausted);
    assert_eq!(error.message(), "Counter is exhausted");
    assert_eq!(balance(&state, 0, 7), big(100));
}

#[test]
fn transfer_to_a_new_address_without_a_free_identifier_is_rejected() {
    let mut state = two_accounts();
    let last = Account::default_with_address(&address(4));
    state.insert_account(AccountId(NFT_STORAGE_ACCOUNT_ID - 1), last).unwrap();
    assert_eq!(state.get_free_account_id(), AccountId(NFT_STORAGE_ACCOUNT_ID));
    let error = state.apply_transfer(&transfer(address(3), 1, 1, 0)).unwrap_err();
    assert_eq!(error, OpError::CounterExhausted);
    state.apply_transfer(&transfer(address(4), 1, 1, 0)).unwrap();
    assert_eq!(balance(&state, NFT_STORAGE_ACCOUNT_ID - 1, 7), big(1));
}

#[test]
fn transfer_of_an_amount_beyond_64_bits() {
    let mut state = two_accounts();
    let huge = BigUint::from(u64::MAX) * BigUint::from(1000u32);
    let mut sender = state.get_account(AccountId(0)).unwrap();
    sender.set_balance(TokenId(7), huge.clone() + big(3));
    state.insert_account(AccountId(0), sender).unwrap();
    let tx = Transfer::new(
        AccountId(0),
        address(1),
        address(2),
        TokenId(7),
        huge.clone(),
        big(1),
        Nonce(0),
    );
    state.apply_transfer(&tx).unwrap();
    assert_eq!(balance(&state, 0, 7), big(2));
    assert_eq!(balance(&state, 1, 7), huge + big(5));
}

#[test]
fn transfers_in_a_row_raise_the_nonce_one_by_one() {
    let mut state = two_accounts();
    for n in 0..5u32 {
        assert_eq!(state.get_account(AccountId(0)).unwrap().nonce, Nonce(n));
        state.apply_transfer(&transfer(address(2), 1, 1, n)).unwrap();
    }
    assert_eq!(state.get_account(AccountId(0)).unwrap().nonce, Nonce(5));
    assert_eq!(state.get_account(AccountId(1)).unwrap().nonce, Nonce(0));
    assert_eq!(balance(&state, 0, 7), big(90));
    assert_eq!(balance(&state, 1, 7), big(10));
}
