use num::{BigUint, Zero};

use zksync_state::account::Account;
use zksync_state::params::{
    nft_storage_account_address, MIN_NFT_TOKEN_ID, NFT_STORAGE_ACCOUNT_ID, NFT_TOKEN_ID,
};
use zksync_state::primitives::{AccountId, Address, Nonce, PubKeyHash, TokenId, H256};
use zksync_state::state::ZkSyncState;
use zksync_state::tx::{MintNFT, SignedZkSyncTx, TokenSeed, Transfer, ZkSyncTx};
use zksync_state::update::{AccountUpdate, NFT};

#[derive(Clone, Copy, PartialEq)]
enum AccountState {
    Locked,
    Unlocked,
}

use AccountState::{Locked, Unlocked};

struct PlasmaTestBuilder {
    state: ZkSyncState,
    made: u8,
}

/// The digests of the tokens that the account 0 mints for the content hash
/// of zeros, by serial number.
fn token_hash(seed: TokenSeed) -> H256 {
    let first: [u8; 32] = [
        22, 150, 31, 94, 253, 41, 54, 65, 235, 128, 255, 236, 34, 19, 209, 244, 186, 158, 170, 230,
        95, 69, 89, 207, 183, 93, 214, 213, 45, 174, 51, 194,
    ];
    let second: [u8; 32] = [
        40, 111, 148, 133, 22, 50, 233, 206, 55, 114, 54, 47, 147, 227, 204, 20, 62, 91, 163, 18,
        248, 69, 144, 106, 242, 0, 60, 234, 75, 178, 210, 166,
    ];
    assert_eq!(seed.creator_id, AccountId(0));
    assert_eq!(seed.content_hash, H256::default());
    match seed.serial_id {
        0 => H256 { bytes: first },
        1 => H256 { bytes: second },
        other => panic!("no digest for serial {}", other),
    }
}

impl PlasmaTestBuilder {
    fn new() -> Self {
        PlasmaTestBuilder { state: ZkSyncState::new(), made: 0 }
    }

    fn fresh_address(&mut self) -> Address {
        self.made += 1;
        let mut bytes = [0x11u8; 20];
        bytes[19] = self.made;
        Address { bytes }
    }

    fn add_account(&mut self, kind: AccountState) -> (AccountId, Account) {
        let id = self.state.get_free_account_id();
        let address = self.fresh_address();
        let mut account = Account::default_with_address(&address);
        if kind == Unlocked {
            account.pub_key_hash = Some(PubKeyHash { data: [7u8; 20] });
        }
        self.state.insert_account(id, account.clone()).unwrap();
        (id, account)
    }

    fn set_balance(&mut self, id: AccountId, token: TokenId, amount: u32) {
        let mut account = self.state.get_account(id).unwrap();
        account.set_balance(token, BigUint::from(amount));
        self.state.insert_account(id, account).unwrap();
    }

    fn same_state(&self, other: &ZkSyncState, tokens: &[TokenId]) {
        assert_eq!(self.state.get_free_account_id(), other.get_free_account_id());
        let mut ids: Vec<u32> = (0..self.state.get_free_account_id().0 + 1).collect();
        ids.push(NFT_STORAGE_ACCOUNT_ID);
        for id in ids {
            let here = self.state.get_account(AccountId(id));
            let there = other.get_account(AccountId(id));
            match (here, there) {
                (None, None) => {}
                (Some(a), Some(b)) => {
                    assert_eq!(a.address, b.address);
                    assert_eq!(a.nonce, b.nonce);
                    assert_eq!(a.pub_key_hash, b.pub_key_hash);
                    for token in tokens {
                        assert_eq!(a.get_balance(*token), b.get_balance(*token));
                    }
                }
                _ => panic!("account {} is in one tree only", id),
            }
        }
    }

    fn test_tx_success(&mut self, tx: ZkSyncTx, expected: &[(AccountId, AccountUpdate)]) {
        let mut replayed = self.state.clone();
        let done = self.state.execute_tx(&tx, &token_hash).expect("transaction failed");
        assert_eq!(expected, done.updates.as_slice());
        assert!(replayed.apply_account_updates(&expected.to_vec()));
        self.same_state(
            &replayed,
            &[TokenId(0), TokenId(NFT_TOKEN_ID), TokenId(MIN_NFT_TOKEN_ID), TokenId(MIN_NFT_TOKEN_ID + 1)],
        );
    }

    fn test_txs_batch_success(
        &mut self,
        txs: Vec<SignedZkSyncTx>,
        expected: &[(AccountId, AccountUpdate)],
    ) {
        let mut replayed = self.state.clone();
        let done = self.state.execute_txs_batch(&txs, &token_hash).expect("batch failed");
        assert_eq!(expected, done.updates.as_slice());
        assert!(replayed.apply_account_updates(&expected.to_vec()));
        self.same_state(
            &replayed,
            &[TokenId(0), TokenId(NFT_TOKEN_ID), TokenId(MIN_NFT_TOKEN_ID), TokenId(MIN_NFT_TOKEN_ID + 1)],
        );
    }

    fn test_tx_fail(&mut self, tx: ZkSyncTx, expected_message: &str) {
        let before = self.state.clone();
        let error = self.state.execute_tx(&tx, &token_hash).expect_err("transaction succeeded");
        self.same_state(
            &before,
            &[TokenId(0), TokenId(NFT_TOKEN_ID), TokenId(MIN_NFT_TOKEN_ID), TokenId(MIN_NFT_TOKEN_ID + 1)],
        );
        assert_eq!(error.message(), expected_message);
    }
}

/// Check MintNFT operation
#[test]
fn mint_success() {
    let fee_token_id = TokenId(0);
    let fee = BigUint::from(10u32);

    let mut tb = PlasmaTestBuilder::new();

    let (creator_account_id, mut creator_account) = tb.add_account(Unlocked);
    tb.set_balance(creator_account_id, fee_token_id, 20u32);

    let (to_account_id, to_account) = tb.add_account(Locked);
    let content_hash = H256::default();
    let mint_nft = MintNFT::new(
        creator_account_id,
        creator_account.address,
        content_hash,
        to_account.address,
        fee.clone(),
        fee_token_id,
        creator_account.nonce,
    );

    let token_hash: Vec<u8> = vec![
        22, 150, 31, 94, 253, 41, 54, 65, 235, 128, 255, 236, 34, 19, 209, 244, 186, 158, 170, 230,
        95, 69, 89, 207, 183, 93, 214, 213, 45, 174, 51, 194,
    ];
    let token_address = Address::from_slice(&token_hash[12..]);
    let balance = BigUint::from(MIN_NFT_TOKEN_ID);
    let nft = NFT::new(
        TokenId(MIN_NFT_TOKEN_ID),
        0,
        creator_account_id,
        token_address,
        None,
        content_hash,
    );

    let token_data = BigUint::from_bytes_be(&token_hash[16..]);
    tb.test_tx_success(
        ZkSyncTx::MintNFT(Box::new(mint_nft)),
        &[
            // Create special nft storage account
            (
                AccountId(NFT_STORAGE_ACCOUNT_ID),
                AccountUpdate::Create {
                    address: nft_storage_account_address(),
                    nonce: Nonce(0),
                },
            ),
            // Add Minimum NFT token id to NFT storage account balance
            (
                AccountId(NFT_STORAGE_ACCOUNT_ID),
                AccountUpdate::UpdateBalance {
                    old_nonce: Nonce(0),
                    new_nonce: Nonce(0),
                    balance_update: (TokenId(NFT_TOKEN_ID), BigUint::zero(), balance),
                },
            ),
            // Increment NFT counter
            (
                AccountId(NFT_STORAGE_ACCOUNT_ID),
                AccountUpdate::UpdateBalance {
                    old_nonce: Nonce(0),
                    new_nonce: Nonce(0),
                    balance_update: (
                        TokenId(NFT_TOKEN_ID),
                        BigUint::from(MIN_NFT_TOKEN_ID),
                        BigUint::from(MIN_NFT_TOKEN_ID + 1),
                    ),
                },
            ),
            // Pay fee for minting nft
            (
                creator_account_id,
                AccountUpdate::UpdateBalance {
                    old_nonce: creator_account.nonce,
                    new_nonce: creator_account.nonce,
                    balance_update: (fee_token_id, BigUint::from(20u32), BigUint::from(10u32)),
                },
            ),
            // Increment counter of nft tokens for creator
            (
                creator_account_id,
                AccountUpdate::UpdateBalance {
                    old_nonce: creator_account.nonce,
                    new_nonce: Nonce(creator_account.nonce.0 + 1),
                    balance_update: (TokenId(NFT_TOKEN_ID), BigUint::zero(), BigUint::from(1u32)),
                },
            ),
            // Mint nft
            (
                creator_account_id,
                AccountUpdate::MintNFT { token: nft.clone() },
            ),
            // Deposit nft token to recipient account
            (
                to_account_id,
                AccountUpdate::UpdateBalance {
                    old_nonce: to_account.nonce,
                    new_nonce: to_account.nonce,
                    balance_update: (nft.id, BigUint::zero(), BigUint::from(1u32)),
                },
            ),
            // Store part of nft token hash as balance to NFT storage account id
            (
                AccountId(NFT_STORAGE_ACCOUNT_ID),
                AccountUpdate::UpdateBalance {
                    old_nonce: to_account.nonce,
                    new_nonce: to_account.nonce,
                    balance_update: (nft.id, BigUint::zero(), token_data),
                },
            ),
        ],
    );

    // Create another nft
    creator_account.nonce.0 += 1;
    let (to_account_id, to_account) = tb.add_account(Locked);
    let content_hash = H256::default();
    let mint_nft = MintNFT::new(
        creator_account_id,
        creator_account.address,
        content_hash,
        to_account.address,
        fee.clone(),
        fee_token_id,
        creator_account.nonce,
    );

    let token_hash: Vec<u8> = vec![
        40, 111, 148, 133, 22, 50, 233, 206, 55, 114, 54, 47, 147, 227, 204, 20, 62, 91, 163, 18,
        248, 69, 144, 106, 242, 0, 60, 234, 75, 178, 210, 166,
    ];
    let token_address = Address::from_slice(&token_hash[12..]);
    let nft = NFT::new(
        TokenId(MIN_NFT_TOKEN_ID + 1),
        1,
        creator_account_id,
        token_address,
        None,
        content_hash,
    );

    let token_data = BigUint::from_bytes_be(&token_hash[16..]);
    tb.test_tx_success(
        ZkSyncTx::MintNFT(Box::new(mint_nft)),
        &[
            // Increment NFT counter
            (
                AccountId(NFT_STORAGE_ACCOUNT_ID),
                AccountUpdate::UpdateBalance {
                    old_nonce: Nonce(0),
                    new_nonce: Nonce(0),
                    balance_update: (
                        TokenId(NFT_TOKEN_ID),
                        BigUint::from(MIN_NFT_TOKEN_ID + 1),
                        BigUint::from(MIN_NFT_TOKEN_ID + 2),
                    ),
                },
            ),
            // Pay fee for minting nft
            (
                creator_account_id,
                AccountUpdate::UpdateBalance {
                    old_nonce: creator_account.nonce,
                    new_nonce: creator_account.nonce,
                    balance_update: (fee_token_id, fee, BigUint::zero()),
                },
            ),
            // Increment counter of nft tokens for creator
            (
                creator_account_id,
                AccountUpdate::UpdateBalance {
                    old_nonce: creator_account.nonce,
                    new_nonce: Nonce(creator_account.nonce.0 + 1),
                    balance_update: (TokenId(NFT_TOKEN_ID), BigUint::from(1u32), BigUint::from(2u32)),
                },
            ),
            // Mint nft
            (
                creator_account_id,
                AccountUpdate::MintNFT { token: nft.clone() },
            ),
            // Deposit nft token to recipient account
            (
                to_account_id,
                AccountUpdate::UpdateBalance {
                    old_nonce: to_account.nonce,
                    new_nonce: to_account.nonce,
                    balance_update: (nft.id, BigUint::zero(), BigUint::from(1u32)),
                },
            ),
            // Store part of nft token hash as balance to NFT storage account id
            (
                AccountId(NFT_STORAGE_ACCOUNT_ID),
                AccountUpdate::UpdateBalance {
                    old_nonce: to_account.nonce,
                    new_nonce: to_account.nonce,
                    balance_update: (nft.id, BigUint::zero(), token_data),
                },
            ),
        ],
    )
}

#[test]
fn mint_token_to_new_account() {
    let fee_token_id = TokenId(0);
    let fee = BigUint::from(10u32);
    let zero_amount = BigUint::from(0u32);

    let balance_from = BigUint::from(20u32);

    let balance_to = BigUint::from(0u64);

    let mut tb = PlasmaTestBuilder::new();

    let (creator_account_id, creator_account) = tb.add_account(Unlocked);
    tb.set_balance(creator_account_id, fee_token_id, 20u32);

    let new_address = Address { bytes: [0xabu8; 20] };

    let transfer_1 = Transfer::new(
        creator_account_id,
        creator_account.address,
        new_address,
        fee_token_id,
        zero_amount,
        fee.clone(),
        creator_account.nonce,
    );

    let signed_zk_sync_tx1 = SignedZkSyncTx {
        tx: ZkSyncTx::Transfer(Box::new(transfer_1)),
        eth_sign_data: None,
    };

    let new_id = tb.state.get_free_account_id();

    let content_hash = H256::default();
    // the mint comes after the transfer, so it carries the next nonce
    let mint_nft = MintNFT::new(
        creator_account_id,
        creator_account.address,
        content_hash,
        new_address,
        fee.clone(),
        fee_token_id,
        Nonce(creator_account.nonce.0 + 1),
    );

    let token_hash: Vec<u8> = vec![
        22, 150, 31, 94, 253, 41, 54, 65, 235, 128, 255, 236, 34, 19, 209, 244, 186, 158, 170, 230,
        95, 69, 89, 207, 183, 93, 214, 213, 45, 174, 51, 194,
    ];
    let token_address = Address::from_slice(&token_hash[12..]);
    let balance = BigUint::from(MIN_NFT_TOKEN_ID);
    let nft = NFT::new(
        TokenId(MIN_NFT_TOKEN_ID),
        0,
        creator_account_id,
        token_address,
        None,
        content_hash,
    );

    let token_data = BigUint::from_bytes_be(&token_hash[16..]);

    let signed_zk_sync_mint = SignedZkSyncTx {
        tx: ZkSyncTx::MintNFT(Box::new(mint_nft)),
        eth_sign_data: None,
    };

    tb.test_txs_batch_success(
        vec![signed_zk_sync_tx1, signed_zk_sync_mint],
        &[
            // Create new account
            (
                new_id,
                AccountUpdate::Create {
                    address: new_address,
                    nonce: Nonce(0),
                },
            ),
            // Pay for for creating account
            (
                creator_account_id,
                AccountUpdate::UpdateBalance {
                    old_nonce: creator_account.nonce,
                    new_nonce: Nonce(creator_account.nonce.0 + 1),
                    balance_update: (fee_token_id, balance_from, fee),
                },
            ),
            // Transfer zero token to new account (TransferToNew operation)
            (
                new_id,
                AccountUpdate::UpdateBalance {
                    old_nonce: Nonce(0),
                    new_nonce: Nonce(0),
                    balance_update: (fee_token_id, balance_to.clone(), balance_to),
                },
            ),
            // Create special nft storage account
            (
                AccountId(NFT_STORAGE_ACCOUNT_ID),
                AccountUpdate::Create {
                    address: nft_storage_account_address(),
                    nonce: Nonce(0),
                },
            ),
            // Add Minimum NFT token id to NFT storage account balance
            (
                AccountId(NFT_STORAGE_ACCOUNT_ID),
                AccountUpdate::UpdateBalance {
                    old_nonce: Nonce(0),
                    new_nonce: Nonce(0),
                    balance_update: (TokenId(NFT_TOKEN_ID), BigUint::zero(), balance),
                },
            ),
            // Increment NFT counter
            (
                AccountId(NFT_STORAGE_ACCOUNT_ID),
                AccountUpdate::UpdateBalance {
                    old_nonce: Nonce(0),
                    new_nonce: Nonce(0),
                    balance_update: (
                        TokenId(NFT_TOKEN_ID),
                        BigUint::from(MIN_NFT_TOKEN_ID),
                        BigUint::from(MIN_NFT_TOKEN_ID + 1),
                    ),
                },
            ),
            // Pay fee for minting nft
            (
                creator_account_id,
                AccountUpdate::UpdateBalance {
                    old_nonce: Nonce(creator_account.nonce.0 + 1),
                    new_nonce: Nonce(creator_account.nonce.0 + 1),
                    balance_update: (fee_token_id, BigUint::from(10u32), BigUint::from(0u32)),
                },
            ),
            // Increment counter of nft tokens for creator
            (
                creator_account_id,
                AccountUpdate::UpdateBalance {
                    old_nonce: Nonce(creator_account.nonce.0 + 1),
                    new_nonce: Nonce(creator_account.nonce.0 + 2),
                    balance_update: (TokenId(NFT_TOKEN_ID), BigUint::zero(), BigUint::from(1u32)),
                },
            ),
            // Mint nft
            (
                creator_account_id,
                AccountUpdate::MintNFT { token: nft.clone() },
            ),
            // Deposit nft token to recipient account
            (
                new_id,
                AccountUpdate::UpdateBalance {
                    old_nonce: Nonce(0),
                    new_nonce: Nonce(0),
                    balance_update: (nft.id, BigUint::zero(), BigUint::from(1u32)),
                },
            ),
            // Store part of nft token hash as balance to NFT storage account id
            (
                AccountId(NFT_STORAGE_ACCOUNT_ID),
                AccountUpdate::UpdateBalance {
                    old_nonce: Nonce(0),
                    new_nonce: Nonce(0),
                    balance_update: (nft.id, BigUint::zero(), token_data),
                },
            ),
        ],
    );
}

/// Check MINT NFT failure if the token is already on the recipient's account
#[test]
fn mint_already_created_nft() {
    let fee_token_id = TokenId(0);
    let fee = BigUint::from(10u32);

    let mut tb = PlasmaTestBuilder::new();

    let (creator_account_id, creator_account) = tb.add_account(Unlocked);
    tb.set_balance(creator_account_id, fee_token_id, 20u32);

    let (to_account_id, mut to_account) = tb.add_account(Locked);

    let nft_token_id = TokenId(MIN_NFT_TOKEN_ID);
    to_account.set_balance(nft_token_id, BigUint::from(1u32));
    tb.state.insert_account(to_account_id, to_account.clone()).unwrap();
    let content_hash = H256::default();
    let mint_nft = MintNFT::new(
        creator_account_id,
        creator_account.address,
        content_hash,
        to_account.address,
        fee,
        fee_token_id,
        creator_account.nonce,
    );

    tb.test_tx_fail(
        ZkSyncTx::MintNFT(Box::new(mint_nft)),
        format!("Token {} is already in account", nft_token_id.0).as_str(),
    )
}
