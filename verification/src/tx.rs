//! Account-level transaction records.

use vstd::prelude::*;

verus! {

/// A transaction type. Transactions rebuild a ledger's state when they are
/// applied in the same sequence to an empty state.
#[derive(Debug, PartialEq, Eq)]
pub enum Tx {
    /// Currency was added to the account
    Deposit { account: String, amount: u64 },
    /// Currency was withdrawn from the account
    Withdraw { account: String, amount: u64 },
}

/// The mathematical value of a [`Tx`]: the account name as a sequence of
/// characters beside the amount.
pub enum TxView {
    Deposit { account: Seq<char>, amount: u64 },
    Withdraw { account: Seq<char>, amount: u64 },
}

impl View for Tx {
    type V = TxView;

    open spec fn view(&self) -> TxView {
        match *self {
            Tx::Deposit { account, amount } => TxView::Deposit { account: account@, amount },
            Tx::Withdraw { account, amount } => TxView::Withdraw { account: account@, amount },
        }
    }
}

impl Clone for Tx {
    fn clone(&self) -> (copy: Tx)
        ensures
            copy@ == self@,
    {
        match self {
            Tx::Deposit { account, amount } => Tx::Deposit { account: account.clone(), amount: *amount },
            Tx::Withdraw { account, amount } => Tx::Withdraw {
                account: account.clone(),
                amount: *amount,
            },
        }
    }
}

/// The values of a sequence of transactions, in the same order.
pub open spec fn tx_views(log: Seq<Tx>) -> Seq<TxView> {
    log.map_values(|tx: Tx| tx@)
}

} // verus!
