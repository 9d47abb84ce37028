use octopus::accounts::Accounts;
use octopus::errors::AccountingError;
use octopus::tx::Tx;

#[test]
fn deposit_opens_an_account_and_adds_to_it() {
    let mut ledger = Accounts::new();
    assert_eq!(
        ledger.deposit("ALICE", 40),
        Ok(Tx::Deposit { account: "ALICE".to_string(), amount: 40 })
    );
    assert_eq!(ledger.balance_of("ALICE"), Ok(&40));
    assert_eq!(
        ledger.deposit("ALICE", 2),
        Ok(Tx::Deposit { account: "ALICE".to_string(), amount: 2 })
    );
    assert_eq!(ledger.balance_of("ALICE"), Ok(&42));
}

#[test]
fn deposit_of_the_largest_balance_fills_an_account() {
    let mut ledger = Accounts::new();
    assert!(ledger.deposit("ALICE", u64::MAX).is_ok());
    assert_eq!(ledger.balance_of("ALICE"), Ok(&u64::MAX));
    assert_eq!(
        ledger.deposit("ALICE", 1),
        Err(AccountingError::AccountOverFunded("ALICE".to_string(), 1))
    );
    assert_eq!(ledger.balance_of("ALICE"), Ok(&u64::MAX));
    assert!(ledger.deposit("ALICE", 0).is_ok());
    assert_eq!(ledger.balance_of("ALICE"), Ok(&u64::MAX));
}

#[test]
fn withdraw_of_the_full_balance_leaves_an_empty_account() {
    let mut ledger = Accounts::new();
    assert!(ledger.deposit("ALICE", 77).is_ok());
    assert_eq!(
        ledger.withdraw("ALICE", 77),
        Ok(Tx::Withdraw { account: "ALICE".to_string(), amount: 77 })
    );
    assert_eq!(ledger.balance_of("ALICE"), Ok(&0));
    assert_eq!(
        ledger.withdraw("ALICE", 1),
        Err(AccountingError::AccountUnderFunded("ALICE".to_string(), 1))
    );
}

#[test]
fn withdraw_reports_who_and_how_much() {
    let mut ledger = Accounts::new();
    assert_eq!(
        ledger.withdraw("NOBODY", 20),
        Err(AccountingError::AccountNotFound("NOBODY".to_string()))
    );
    assert!(ledger.deposit("ALICE", 20).is_ok());
    assert_eq!(
        ledger.withdraw("ALICE", 21),
        Err(AccountingError::AccountUnderFunded("ALICE".to_string(), 21))
    );
    assert_eq!(ledger.balance_of("ALICE"), Ok(&20));
}

#[test]
fn balance_of_an_unknown_account_fails() {
    let ledger = Accounts::new();
    assert_eq!(
        ledger.balance_of("ALICE"),
        Err(AccountingError::AccountNotFound("ALICE".to_string()))
    );
}

#[test]
fn account_names_are_compared_exactly() {
    let mut ledger = Accounts::new();
    assert!(ledger.deposit("Alice", 1).is_ok());
    assert!(ledger.deposit("ALICE", 2).is_ok());
    assert!(ledger.deposit("ALICE ", 3).is_ok());
    assert_eq!(ledger.balance_of("Alice"), Ok(&1));
    assert_eq!(ledger.balance_of("ALICE"), Ok(&2));
    assert_eq!(ledger.balance_of("ALICE "), Ok(&3));
}

#[test]
fn send_moves_the_amount_and_keeps_the_sum() {
    let mut ledger = Accounts::new();
    assert!(ledger.deposit("ALICE", 100).is_ok());
    assert!(ledger.deposit("BOB", 5).is_ok());
    assert_eq!(
        ledger.send("ALICE", "BOB", 30),
        Ok((
            Tx::Withdraw { account: "ALICE".to_string(), amount: 30 },
            Tx::Deposit { account: "BOB".to_string(), amount: 30 }
        ))
    );
    assert_eq!(ledger.balance_of("ALICE"), Ok(&70));
    assert_eq!(ledger.balance_of("BOB"), Ok(&35));
    assert_eq!(70 + 35, 100 + 5);
}

#[test]
fn send_opens_the_account_of_a_new_recipient() {
    let mut ledger = Accounts::new();
    assert!(ledger.deposit("ALICE", 100).is_ok());
    assert!(ledger.send("ALICE", "CHARLIE", 100).is_ok());
    assert_eq!(ledger.balance_of("ALICE"), Ok(&0));
    assert_eq!(ledger.balance_of("CHARLIE"), Ok(&100));
}

#[test]
fn send_to_oneself_changes_nothing() {
    let mut ledger = Accounts::new();
    assert!(ledger.deposit("ALICE", u64::MAX).is_ok());
    assert!(ledger.send("ALICE", "ALICE", u64::MAX).is_ok());
    assert_eq!(ledger.balance_of("ALICE"), Ok(&u64::MAX));
    assert_eq!(
        ledger.send("ALICE", "ALICE", 0),
        Ok((
            Tx::Withdraw { account: "ALICE".to_string(), amount: 0 },
            Tx::Deposit { account: "ALICE".to_string(), amount: 0 }
        ))
    );
}

#[test]
fn send_fails_as_the_withdrawal_does() {
    let mut ledger = Accounts::new();
    assert!(ledger.deposit("BOB", 5).is_ok());
    assert_eq!(
        ledger.send("ALICE", "BOB", 1),
        Err(AccountingError::AccountNotFound("ALICE".to_string()))
    );
    assert_eq!(
        ledger.send("BOB", "ALICE", 6),
        Err(AccountingError::AccountUnderFunded("BOB".to_string(), 6))
    );
    assert_eq!(ledger.balance_of("BOB"), Ok(&5));
    assert!(ledger.balance_of("ALICE").is_err());
}

#[test]
fn send_that_overfills_the_recipient_gives_the_sender_the_amount_back() {
    let mut ledger = Accounts::new();
    assert!(ledger.deposit("ALICE", 10).is_ok());
    assert!(ledger.deposit("BOB", u64::MAX - 3).is_ok());
    assert_eq!(
        ledger.send("ALICE", "BOB", 4),
        Err(AccountingError::AccountOverFunded("BOB".to_string(), 4))
    );
    assert_eq!(ledger.balance_of("ALICE"), Ok(&10));
    assert_eq!(ledger.balance_of("BOB"), Ok(&(u64::MAX - 3)));
    assert!(ledger.send("ALICE", "BOB", 3).is_ok());
    assert_eq!(ledger.balance_of("ALICE"), Ok(&7));
    assert_eq!(ledger.balance_of("BOB"), Ok(&u64::MAX));
}

#[test]
fn transactions_and_errors_can_be_copied() {
    let tx = Tx::Withdraw { account: "ALICE".to_string(), amount: 9 };
    assert_eq!(tx.clone(), tx);
    let tx = Tx::Deposit { account: "BOB".to_string(), amount: 1 };
    assert_eq!(tx.clone(), tx);
    let errors = vec![
        AccountingError::AccountNotFound("A".to_string()),
        AccountingError::AccountUnderFunded("B".to_string(), 2),
        AccountingError::AccountOverFunded("C".to_string(), 3),
        AccountingError::OrderRejected("D".to_string()),
    ];
    for error in errors.iter() {
        assert_eq!(&error.clone(), error);
    }
}
