//! The arithmetic of balances: what a deposit, a withdrawal and a transfer
//! make of a map from account names to balances, and what a transaction log
//! replays to.

use crate::errors::ErrorView;
use crate::tx::TxView;
use vstd::prelude::*;

verus! {

/// Balances by account name.
pub type Balances = Map<Seq<char>, u64>;

/// The balances after `amount` is deposited to `who`: a new account starts
/// at `amount`; an existing one grows by it, unless that exceeds the balance
/// width.
pub open spec fn deposited(balances: Balances, who: Seq<char>, amount: u64) -> Result<
    Balances,
    ErrorView,
> {
    if !balances.contains_key(who) {
        Ok(balances.insert(who, amount))
    } else if balances[who] + amount > u64::MAX {
        Err(ErrorView::AccountOverFunded(who, amount))
    } else {
        Ok(balances.insert(who, (balances[who] + amount) as u64))
    }
}

/// The balances after `amount` is withdrawn from `who`, which must exist and
/// hold at least `amount`.
pub open spec fn withdrawn(balances: Balances, who: Seq<char>, amount: u64) -> Result<
    Balances,
    ErrorView,
> {
    if !balances.contains_key(who) {
        Err(ErrorView::AccountNotFound(who))
    } else if balances[who] < amount {
        Err(ErrorView::AccountUnderFunded(who, amount))
    } else {
        Ok(balances.insert(who, (balances[who] - amount) as u64))
    }
}

/// The balances after `amount` is sent from `sender` to `recipient`: a
/// withdrawal, then a deposit to what the withdrawal left.
pub open spec fn sent(
    balances: Balances,
    sender: Seq<char>,
    recipient: Seq<char>,
    amount: u64,
) -> Result<Balances, ErrorView> {
    match withdrawn(balances, sender, amount) {
        Ok(left) => deposited(left, recipient, amount),
        Err(error) => Err(error),
    }
}

/// The balances after one transaction of a log.
pub open spec fn applied(balances: Balances, tx: TxView) -> Result<Balances, ErrorView> {
    match tx {
        TxView::Deposit { account, amount } => deposited(balances, account, amount),
        TxView::Withdraw { account, amount } => withdrawn(balances, account, amount),
    }
}

/// The balances that a log builds from an empty ledger, transaction by
/// transaction; the first failure, if one of them fails.
pub open spec fn replayed(log: Seq<TxView>) -> Result<Balances, ErrorView>
    decreases log.len(),
{
    if log.len() == 0 {
        Ok(Map::empty())
    } else {
        match replayed(log.drop_last()) {
            Ok(balances) => applied(balances, log.last()),
            Err(error) => Err(error),
        }
    }
}

/// Replaying a log with one more transaction is replaying the log and
/// applying the transaction.
pub proof fn lemma_replay_push(log: Seq<TxView>, tx: TxView)
    ensures
        replayed(log.push(tx)) == match replayed(log) {
            Ok(balances) => applied(balances, tx),
            Err(error) => Err(error),
        },
{
    assert(log.push(tx).drop_last() =~= log);
}

/// The sum of all balances.
pub open spec fn total(balances: Balances) -> nat
    decreases balances.dom().len(),
    when balances.dom().finite()
{
    if balances.dom().len() == 0 {
        0
    } else {
        let who = balances.dom().choose();
        balances[who] as nat + total(balances.remove(who))
    }
}

/// The sum of all balances is the balance of any one account beside the sum
/// of the others.
pub proof fn lemma_total_remove(balances: Balances, who: Seq<char>)
    requires
        balances.dom().finite(),
        balances.contains_key(who),
    ensures
        total(balances) == balances[who] + total(balances.remove(who)),
    decreases balances.dom().len(),
{
    let first = balances.dom().choose();
    if first != who {
        let without_first = balances.remove(first);
        let without_who = balances.remove(who);
        lemma_total_remove(without_first, who);
        assert(without_who.dom().len() > 0) by {
        }
        lemma_total_remove(without_who, first);
        assert(without_first.remove(who) =~= without_who.remove(first));
    }
}

/// Setting one balance changes the sum by the difference to what the
/// account held before, an absent account counting as zero.
pub proof fn lemma_total_insert(balances: Balances, who: Seq<char>, balance: u64)
    requires
        balances.dom().finite(),
    ensures
        total(balances.insert(who, balance)) + (if balances.contains_key(who) {
            balances[who] as int
        } else {
            0
        }) == total(balances) + balance,
{
    let after = balances.insert(who, balance);
    lemma_total_remove(after, who);
    assert(after.remove(who) =~= balances.remove(who));
    if balances.contains_key(who) {
        lemma_total_remove(balances, who);
    } else {
        assert(balances.remove(who) =~= balances);
    }
}

/// An empty ledger holds nothing.
pub proof fn lemma_total_empty()
    ensures
        total(Map::empty()) == 0,
{
}

/// A deposit that succeeds adds its amount to the sum of all balances, and
/// the ledger stays finite.
pub proof fn lemma_deposit_adds(balances: Balances, who: Seq<char>, amount: u64)
    requires
        balances.dom().finite(),
        deposited(balances, who, amount) is Ok,
    ensures
        deposited(balances, who, amount)->Ok_0.dom().finite(),
        total(deposited(balances, who, amount)->Ok_0) == total(balances) + amount,
{
    if balances.contains_key(who) {
        lemma_total_insert(balances, who, (balances[who] + amount) as u64);
    } else {
        lemma_total_insert(balances, who, amount);
    }
}

/// A withdrawal that succeeds takes its amount off the sum of all balances,
/// and the ledger stays finite.
pub proof fn lemma_withdraw_takes(balances: Balances, who: Seq<char>, amount: u64)
    requires
        balances.dom().finite(),
        withdrawn(balances, who, amount) is Ok,
    ensures
        withdrawn(balances, who, amount)->Ok_0.dom().finite(),
        total(withdrawn(balances, who, amount)->Ok_0) + amount == total(balances),
{
    lemma_total_insert(balances, who, (balances[who] - amount) as u64);
}

/// A transfer that succeeds creates and destroys no money: the sum of all
/// balances is what it was.
pub proof fn lemma_send_conserves(
    balances: Balances,
    sender: Seq<char>,
    recipient: Seq<char>,
    amount: u64,
)
    requires
        balances.dom().finite(),
        sent(balances, sender, recipient, amount) is Ok,
    ensures
        sent(balances, sender, recipient, amount)->Ok_0.dom().finite(),
        total(sent(balances, sender, recipient, amount)->Ok_0) == total(balances),
{
    lemma_withdraw_takes(balances, sender, amount);
    lemma_deposit_adds(withdrawn(balances, sender, amount)->Ok_0, recipient, amount);
}

} // verus!
