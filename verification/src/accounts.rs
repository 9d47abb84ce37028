//! The ledger: account names with their balances.

use crate::errors::{AccountingError, ErrorView};
use crate::ledger::{
    deposited, lemma_deposit_adds, lemma_send_conserves, lemma_withdraw_takes, sent, total,
    withdrawn, Balances,
};
use crate::tx::{Tx, TxView};
use vstd::hash_map::StringHashMap;
use vstd::prelude::*;

verus! {

/// A type for managing accounts and their current currency balance
pub struct Accounts {
    accounts: StringHashMap<u64>,
}

impl View for Accounts {
    type V = Balances;

    closed spec fn view(&self) -> Balances {
        self.accounts@
    }
}

impl Accounts {
    #[verifier::type_invariant]
    spec fn finite(&self) -> bool {
        self.accounts@.dom().finite()
    }

    /// The sum of all balances.
    pub open spec fn total(&self) -> nat {
        total(self@)
    }

    /// Returns an empty instance of the [`Accounts`] type
    pub fn new() -> (ledger: Accounts)
        ensures
            ledger@ == Map::<Seq<char>, u64>::empty(),
            ledger@.dom().finite(),
    {
        Accounts { accounts: StringHashMap::new() }
    }

    /// Sets the balance of the `signer` account, which it opens if need be.
    fn set(&mut self, signer: &str, balance: u64)
        ensures
            final(self)@ == old(self)@.insert(signer@, balance),
    {
        proof {
            use_type_invariant(&*self);
        }
        let mut accounts = StringHashMap::new();
        std::mem::swap(&mut accounts, &mut self.accounts);
        accounts.insert(signer.to_owned(), balance);
        self.accounts = accounts;
    }

    /// The balance of the `signer` account.
    /// # Errors
    /// The account doesn't exist
    pub fn balance_of(&self, signer: &str) -> (result: Result<&u64, AccountingError>)
        ensures
            self@.dom().finite(),
            match result {
                Ok(balance) => self@.contains_key(signer@) && *balance == self@[signer@],
                Err(error) => !self@.contains_key(signer@) && error@ == ErrorView::AccountNotFound(
                    signer@,
                ),
            },
    {
        proof {
            use_type_invariant(self);
        }
        match self.accounts.get(signer) {
            Some(balance) => Ok(balance),
            None => Err(AccountingError::AccountNotFound(signer.to_owned())),
        }
    }

    /// Either deposits the `amount` provided into the `signer` account or adds the amount to the existing account.
    /// # Errors
    /// Attempted overflow
    pub fn deposit(&mut self, signer: &str, amount: u64) -> (result: Result<Tx, AccountingError>)
        ensures
            old(self)@.dom().finite(),
            final(self)@.dom().finite(),
            match deposited(old(self)@, signer@, amount) {
                Ok(balances) => {
                    &&& result is Ok
                    &&& result->Ok_0@ == (TxView::Deposit { account: signer@, amount })
                    &&& final(self)@ == balances
                    &&& final(self).total() == old(self).total() + amount
                },
                Err(error) => {
                    &&& result is Err
                    &&& result->Err_0@ == error
                    &&& final(self)@ == old(self)@
                },
            },
    {
        proof {
            use_type_invariant(&*self);
            if deposited(self@, signer@, amount) is Ok {
                lemma_deposit_adds(self@, signer@, amount);
            }
        }
        let existing = match self.accounts.get(signer) {
            Some(balance) => Some(*balance),
            None => None,
        };
        let balance = match existing {
            Some(balance) => match balance.checked_add(amount) {
                Some(sum) => sum,
                None => {
                    return Err(AccountingError::AccountOverFunded(signer.to_owned(), amount));
                },
            },
            None => amount,
        };
        self.set(signer, balance);
        Ok(Tx::Deposit { account: signer.to_owned(), amount })
    }

    /// Withdraws the `amount` from the `signer` account.
    /// # Errors
    /// Attempted overflow
    pub fn withdraw(&mut self, signer: &str, amount: u64) -> (result: Result<Tx, AccountingError>)
        ensures
            old(self)@.dom().finite(),
            final(self)@.dom().finite(),
            match withdrawn(old(self)@, signer@, amount) {
                Ok(balances) => {
                    &&& result is Ok
                    &&& result->Ok_0@ == (TxView::Withdraw { account: signer@, amount })
                    &&& final(self)@ == balances
                    &&& final(self).total() + amount == old(self).total()
                },
                Err(error) => {
                    &&& result is Err
                    &&& result->Err_0@ == error
                    &&& final(self)@ == old(self)@
                },
            },
    {
        proof {
            use_type_invariant(&*self);
            if withdrawn(self@, signer@, amount) is Ok {
                lemma_withdraw_takes(self@, signer@, amount);
            }
        }
        let existing = match self.accounts.get(signer) {
            Some(balance) => Some(*balance),
            None => None,
        };
        match existing {
            Some(balance) => match balance.checked_sub(amount) {
                Some(rest) => {
                    self.set(signer, rest);
                    Ok(Tx::Withdraw { account: signer.to_owned(), amount })
                },
                None => Err(AccountingError::AccountUnderFunded(signer.to_owned(), amount)),
            },
            None => Err(AccountingError::AccountNotFound(signer.to_owned())),
        }
    }

    /// Withdraws the amount from the sender account and deposits it in the recipient account.
    /// Either both halves happen or neither does: where the recipient
    /// cannot take the amount, the sender gets it back.
    ///
    /// # Errors
    /// The account doesn't exist
    pub fn send(&mut self, sender: &str, recipient: &str, amount: u64) -> (result: Result<
        (Tx, Tx),
        AccountingError,
    >)
        ensures
            old(self)@.dom().finite(),
            final(self)@.dom().finite(),
            final(self).total() == old(self).total(),
            match sent(old(self)@, sender@, recipient@, amount) {
                Ok(balances) => {
                    &&& result is Ok
                    &&& result->Ok_0.0@ == (TxView::Withdraw { account: sender@, amount })
                    &&& result->Ok_0.1@ == (TxView::Deposit { account: recipient@, amount })
                    &&& final(self)@ == balances
                },
                Err(error) => {
                    &&& result is Err
                    &&& result->Err_0@ == error
                    &&& final(self)@ == old(self)@
                },
            },
    {
        proof {
            use_type_invariant(&*self);
            if sent(self@, sender@, recipient@, amount) is Ok {
                lemma_send_conserves(self@, sender@, recipient@, amount);
            }
        }
        let withdrawal = match self.withdraw(sender, amount) {
            Ok(tx) => tx,
            Err(error) => {
                return Err(error);
            },
        };
        match self.deposit(recipient, amount) {
            Ok(deposit) => Ok((withdrawal, deposit)),
            Err(error) => {
                // The sender can always take back what it has just given.
                let refund = self.deposit(sender, amount);
                assert(refund is Ok);
                Err(error)
            },
        }
    }
}

} // verus!
