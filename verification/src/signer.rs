use crate::primitives::{AccountId, Address, Nonce, PackedEthSignature, PubKeyHash};
use crate::tx::{ChangePubKey, Token, Transfer, Withdraw};
use num::BigUint;
use vstd::prelude::*;
use vstd::string::*;

verus! {

/// Why nothing was signed.
#[derive(Debug, PartialEq, Eq)]
pub enum SignerError {
    /// The signer has no key of the base layer.
    MissingEthPrivateKey,
    /// The signing backend failed, with its own words.
    SigningFailed(String),
    /// The signer does not know the account that it signs for.
    NoSigningKey,
}

impl SignerError {
    /// What `message` says.
    pub open spec fn message_text(self) -> Seq<char> {
        match self {
            SignerError::MissingEthPrivateKey => {
                "Ethereum private key required to perform an operation"@
            },
            SignerError::SigningFailed(words) => "Signing failed: "@ + words@,
            SignerError::NoSigningKey => "Signing key is not set in account"@,
        }
    }

    /// The failure in words.
    pub fn message(&self) -> (r: String)
        ensures
            r@ == self.message_text(),
    {
        match self {
            SignerError::MissingEthPrivateKey => String::from_str(
                "Ethereum private key required to perform an operation",
            ),
            SignerError::SigningFailed(words) => {
                let mut text = String::from_str("Signing failed: ");
                text.append(words.as_str());
                text
            },
            SignerError::NoSigningKey => String::from_str("Signing key is not set in account"),
        }
    }
}

/// What a signing backend of the base layer hands back.
#[derive(Debug, PartialEq, Eq)]
pub enum TxEthSignature {
    /// A signature made with a private key.
    EthereumSignature(PackedEthSignature),
    /// A signature that a contract vouches for.
    EIP1271Signature(Vec<u8>),
}

/// The failure of a signing backend, with the words that it gave.
pub fn signing_failed_error(err: String) -> (r: SignerError)
    ensures
        r == SignerError::SigningFailed(err),
{
    SignerError::SigningFailed(err)
}

/// What decides how an account's transactions are signed: the account's
/// address and identifier, the hash of its signing key, and whether a
/// signing backend of the base layer is at hand. The keys themselves stay
/// with the caller.
#[derive(Debug)]
pub struct Signer {
    pub pubkey_hash: PubKeyHash,
    pub address: Address,
    pub eth_signer: bool,
    pub account_id: Option<AccountId>,
}

impl Signer {
    /// A signer for the account at `address`, whose identifier is not known
    /// yet.
    pub fn new(pubkey_hash: PubKeyHash, address: Address, eth_signer: bool) -> (r: Signer)
        ensures
            r == (Signer { pubkey_hash, address, eth_signer, account_id: None }),
    {
        Signer { pubkey_hash, address, eth_signer, account_id: None }
    }

    /// The hash of the signer's public key.
    pub fn pubkey_hash(&self) -> (r: &PubKeyHash)
        ensures
            *r == self.pubkey_hash,
    {
        &self.pubkey_hash
    }

    /// Tells the signer which account it signs for, or that none is known.
    pub fn set_account_id(&mut self, account_id: Option<AccountId>)
        ensures
            *final(self) == (Signer { account_id, ..*old(self) }),
    {
        self.account_id = account_id;
    }

    /// The account that the signer signs for, if it knows one.
    pub fn get_account_id(&self) -> (r: Option<AccountId>)
        ensures
            r == self.account_id,
    {
        self.account_id
    }

    /// Whether a change of the signing key needs a signature of the base
    /// layer: none where the change is authorised on the base layer. Fails
    /// where the account is not known, or where the signature is needed and
    /// no backend is at hand.
    pub fn change_pubkey_needs_eth_signature(&self, auth_onchain: bool) -> (r: Result<
        bool,
        SignerError,
    >)
        ensures
            r == if self.account_id is None {
                Err::<bool, SignerError>(SignerError::NoSigningKey)
            } else if auth_onchain {
                Ok(false)
            } else if !self.eth_signer {
                Err(SignerError::MissingEthPrivateKey)
            } else {
                Ok(true)
            },
    {
        if self.account_id.is_none() {
            Err(SignerError::NoSigningKey)
        } else if auth_onchain {
            Ok(false)
        } else if !self.eth_signer {
            Err(SignerError::MissingEthPrivateKey)
        } else {
            Ok(true)
        }
    }

    /// What goes into a change of the signing key of what a backend handed
    /// back: a signature made with a private key, and nothing of any other.
    /// A failure of the backend is a failure to sign, with its words.
    pub fn change_pubkey_eth_signature(outcome: Result<TxEthSignature, String>) -> (r: Result<
        Option<PackedEthSignature>,
        SignerError,
    >)
        ensures
            r == match outcome {
                Ok(TxEthSignature::EthereumSignature(packed)) => Ok::<
                    Option<PackedEthSignature>,
                    SignerError,
                >(Some(packed)),
                Ok(TxEthSignature::EIP1271Signature(_)) => Ok(None),
                Err(words) => Err(SignerError::SigningFailed(words)),
            },
    {
        match outcome {
            Ok(TxEthSignature::EthereumSignature(packed)) => Ok(Some(packed)),
            Ok(TxEthSignature::EIP1271Signature(_)) => Ok(None),
            Err(words) => Err(signing_failed_error(words)),
        }
    }

    /// The change of the account's signing key to the signer's own. Where
    /// the change is authorised on the base layer it carries no signature.
    /// Where it is not, it carries `eth_signature`, and fails without a
    /// backend of the base layer. `recovered` is the address that the
    /// signature recovers to. A change that is not authorised on the base
    /// layer and has no signature, or one that recovers to another address
    /// than the signer's, is never handed out: those inputs are left out.
    pub fn sign_change_pubkey_tx(
        &self,
        nonce: Nonce,
        auth_onchain: bool,
        eth_signature: Option<PackedEthSignature>,
        recovered: Option<Address>,
    ) -> (r: Result<ChangePubKey, SignerError>)
        requires
            self.account_id is Some && !auth_onchain && self.eth_signer ==> eth_signature is Some
                && recovered == Some(self.address),
        ensures
            r == match self.account_id {
                None => Err::<ChangePubKey, SignerError>(SignerError::NoSigningKey),
                Some(account_id) => if !auth_onchain && !self.eth_signer {
                    Err(SignerError::MissingEthPrivateKey)
                } else {
                    Ok(
                        ChangePubKey {
                            account_id,
                            account: self.address,
                            new_pk_hash: self.pubkey_hash,
                            nonce,
                            eth_signature: if auth_onchain {
                                None
                            } else {
                                eth_signature
                            },
                        },
                    )
                },
            },
            r matches Ok(change) ==> auth_onchain || (change.eth_signature is Some && recovered
                == Some(change.account)),
    {
        let account_id = match self.account_id {
            Some(id) => id,
            None => {
                return Err(SignerError::NoSigningKey);
            },
        };
        if !auth_onchain && !self.eth_signer {
            return Err(SignerError::MissingEthPrivateKey);
        }
        Ok(
            ChangePubKey {
                account_id,
                account: self.address,
                new_pk_hash: self.pubkey_hash,
                nonce,
                eth_signature: if auth_onchain {
                    None
                } else {
                    eth_signature
                },
            },
        )
    }

    /// What goes with a transfer or a withdrawal of what a backend handed
    /// back: a signature made with a private key; any other signature is
    /// refused, and a failure of the backend is handed on.
    pub fn eth_signature(outcome: Result<TxEthSignature, SignerError>) -> (r: Result<
        PackedEthSignature,
        SignerError,
    >)
        ensures
            r == match outcome {
                Ok(TxEthSignature::EthereumSignature(packed)) => Ok::<
                    PackedEthSignature,
                    SignerError,
                >(packed),
                Ok(TxEthSignature::EIP1271Signature(_)) => Err(SignerError::MissingEthPrivateKey),
                Err(e) => Err(e),
            },
    {
        match outcome {
            Ok(TxEthSignature::EthereumSignature(packed)) => Ok(packed),
            Ok(TxEthSignature::EIP1271Signature(_)) => Err(SignerError::MissingEthPrivateKey),
            Err(e) => Err(e),
        }
    }

    /// The transfer of `amount` of `token` from the signer's account to
    /// `to`, and whether a signature of the base layer is to go with it.
    pub fn sign_transfer(
        &self,
        token: &Token,
        amount: BigUint,
        fee: BigUint,
        to: Address,
        nonce: Nonce,
    ) -> (r: Result<(Transfer, bool), SignerError>)
        ensures
            r == match self.account_id {
                None => Err::<(Transfer, bool), SignerError>(SignerError::NoSigningKey),
                Some(account_id) => Ok(
                    (
                        Transfer {
                            account_id,
                            from: self.address,
                            to,
                            token: token.id,
                            amount,
                            fee,
                            nonce,
                        },
                        self.eth_signer,
                    ),
                ),
            },
    {
        let account_id = match self.account_id {
            Some(id) => id,
            None => {
                return Err(SignerError::NoSigningKey);
            },
        };
        Ok((Transfer::new(account_id, self.address, to, token.id, amount, fee, nonce), self.eth_signer))
    }

    /// The withdrawal of `amount` of `token` from the signer's account to
    /// the address `eth_address` of the base layer, and whether a signature
    /// of the base layer is to go with it.
    pub fn sign_withdraw(
        &self,
        token: &Token,
        amount: BigUint,
        fee: BigUint,
        eth_address: Address,
        nonce: Nonce,
    ) -> (r: Result<(Withdraw, bool), SignerError>)
        ensures
            r == match self.account_id {
                None => Err::<(Withdraw, bool), SignerError>(SignerError::NoSigningKey),
                Some(account_id) => Ok(
                    (
                        Withdraw {
                            account_id,
                            from: self.address,
                            to: eth_address,
                            token: token.id,
                            amount,
                            fee,
                            nonce,
                        },
                        self.eth_signer,
                    ),
                ),
            },
    {
        let account_id = match self.account_id {
            Some(id) => id,
            None => {
                return Err(SignerError::NoSigningKey);
            },
        };
        Ok(
            (
                Withdraw {
                    account_id,
                    from: self.address,
                    to: eth_address,
                    token: token.id,
                    amount,
                    fee,
                    nonce,
                },
                self.eth_signer,
            ),
        )
    }
}

} // verus!
