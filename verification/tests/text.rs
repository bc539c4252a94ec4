use zksync_state::error::{OpError, TxBatchError};
use zksync_state::primitives::TokenId;
use zksync_state::text::push_decimal;

fn decimal(n: u128) -> String {
    let mut text = String::new();
    push_decimal(&mut text, n);
    text
}

#[test]
fn decimal_digits_of_numbers() {
    assert_eq!(decimal(0), "0");
    assert_eq!(decimal(7), "7");
    assert_eq!(decimal(10), "10");
    assert_eq!(decimal(65536), "65536");
    assert_eq!(decimal(4294967295), "4294967295");
    assert_eq!(decimal(u128::MAX), "340282366920938463463374607431768211455");
    let mut text = String::from("id ");
    push_decimal(&mut text, 1203);
    assert_eq!(text, "id 1203");
}

#[test]
fn messages_of_errors() {
    assert_eq!(OpError::NonceMismatch.message(), "Nonce mismatch");
    assert_eq!(OpError::InsufficientBalance.message(), "Not enough balance");
    assert_eq!(OpError::LockedAccount.message(), "Account is locked");
    assert_eq!(
        OpError::TokenAlreadyPresent(TokenId(0)).message(),
        "Token 0 is already in account"
    );
    assert_eq!(
        OpError::TokenAlreadyPresent(TokenId(2147483646)).message(),
        "Token 2147483646 is already in account"
    );
    assert_eq!(OpError::UnknownAccount.message(), "Account does not exist");
    assert_eq!(OpError::MalformedTransaction.message(), "Transaction is malformed");
    assert_eq!(OpError::CounterExhausted.message(), "Counter is exhausted");
    let failure = TxBatchError { index: 9, reason: OpError::TokenAlreadyPresent(TokenId(65536)) };
    assert_eq!(
        failure.message(),
        "Batch execution failed, since tx #10 of batch failed with a reason: Token 65536 is already in account"
    );
    let last = TxBatchError { index: usize::MAX, reason: OpError::LockedAccount };
    assert!(last.message().ends_with("Account is locked"));
}
