use crate::primitives::TokenId;
use crate::text::{decimal_digits, push_decimal};
use vstd::prelude::*;
use vstd::string::*;

verus! {

/// Why a transaction was rejected. A rejected transaction changes nothing.
#[derive(Clone, Copy, Debug, PartialEq, Eq, Structural)]
pub enum OpError {
    /// The nonce of the transaction is not the nonce of its author.
    NonceMismatch,
    /// The author holds less than the transaction takes from it.
    InsufficientBalance,
    /// The author has no signing key.
    LockedAccount,
    /// The slot that the minted token would go to is not empty.
    TokenAlreadyPresent(TokenId),
    /// No account has the author's identifier.
    UnknownAccount,
    /// The transaction names a reserved account, address or slot, or its
    /// author's identifier and address do not belong together.
    MalformedTransaction,
    /// A counter has reached the end of its fixed-width range: the author's
    /// nonce, its count of minted tokens, the token identifiers or the
    /// account identifiers.
    CounterExhausted,
}

impl OpError {
    /// What `message` says.
    pub open spec fn message_text(self) -> Seq<char> {
        match self {
            OpError::NonceMismatch => "Nonce mismatch"@,
            OpError::InsufficientBalance => "Not enough balance"@,
            OpError::LockedAccount => "Account is locked"@,
            OpError::TokenAlreadyPresent(token) => "Token "@ + decimal_digits(token.0 as nat)
                + " is already in account"@,
            OpError::UnknownAccount => "Account does not exist"@,
            OpError::MalformedTransaction => "Transaction is malformed"@,
            OpError::CounterExhausted => "Counter is exhausted"@,
        }
    }

    /// The reason in words.
    pub fn message(&self) -> (r: String)
        ensures
            r@ == self.message_text(),
    {
        match self {
            OpError::NonceMismatch => String::from_str("Nonce mismatch"),
            OpError::InsufficientBalance => String::from_str("Not enough balance"),
            OpError::LockedAccount => String::from_str("Account is locked"),
            OpError::TokenAlreadyPresent(token) => {
                let mut text = String::from_str("Token ");
                push_decimal(&mut text, token.0 as u128);
                text.append(" is already in account");
                text
            },
            OpError::UnknownAccount => String::from_str("Account does not exist"),
            OpError::MalformedTransaction => String::from_str("Transaction is malformed"),
            OpError::CounterExhausted => String::from_str("Counter is exhausted"),
        }
    }
}

/// Why an account was not put into the tree.
#[derive(Clone, Copy, Debug, PartialEq, Eq, Structural)]
pub enum StoreError {
    /// The identifier is greater than any account can have.
    IdOutOfRange,
    /// The storage account's identifier or address, one without the other.
    ReservedAccount,
    /// The address belongs to another account, or the account that has the
    /// identifier has another address.
    AddressTaken,
}

/// The member of a batch that was rejected, counted from zero, and why.
#[derive(Clone, Copy, Debug, PartialEq, Eq, Structural)]
pub struct TxBatchError {
    pub index: usize,
    pub reason: OpError,
}

impl TxBatchError {
    /// What `message` says. It counts the members of the batch from one.
    pub open spec fn message_text(self) -> Seq<char> {
        "Batch execution failed, since tx #"@ + decimal_digits((self.index + 1) as nat)
            + " of batch failed with a reason: "@ + self.reason.message_text()
    }

    /// The failure in words.
    pub fn message(&self) -> (r: String)
        ensures
            r@ == self.message_text(),
    {
        let mut text = String::from_str("Batch execution failed, since tx #");
        push_decimal(&mut text, self.index as u128 + 1);
        text.append(" of batch failed with a reason: ");
        let reason = self.reason.message();
        text.append(reason.as_str());
        text
    }
}

} // verus!
