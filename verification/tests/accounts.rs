use octopus::accounts::Accounts;
use octopus::tx::Tx;

#[test]
fn test_missing_account() {
    let mut ledger = Accounts::new();
    let result = ledger.withdraw("non existing", 20);
    assert!(result.is_err());
}

#[test]
fn test_over_funded_account() {
    let mut ledger = Accounts::new();
    let deposit = ledger.deposit("new account", 20);
    assert!(deposit.is_ok());
    let deposit = ledger.deposit("new account", u64::MAX);
    assert!(deposit.is_err());
}

#[test]
fn test_underfunded_account() {
    let mut ledger = Accounts::new();
    let deposit = ledger.deposit("new account", 20);
    assert!(deposit.is_ok());
    let withdraw = ledger.withdraw("new account", 21);
    assert!(withdraw.is_err());
}

#[test]
fn test_transaction_type_is_correct() {
    let mut ledger = Accounts::new();
    let result = ledger.deposit("new account", 20);
    assert!(matches!(
        result.unwrap(),
        Tx::Deposit {
            account: _,
            amount: _
        }
    ));
}
