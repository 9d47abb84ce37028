//! Settling the matches of a receipt against the ledger: for each match the
//! buyer pays the seller the match's notional.

use crate::errors::ErrorView;
use crate::ledger::{
    lemma_replay_push, lemma_send_conserves, replayed, sent, total, Balances,
};
use crate::tx::TxView;
use crate::types::{PartialOrderView, Side};
use vstd::prelude::*;

verus! {

/// A sum of money, capped at the balance width.
pub open spec fn capped(sum: int) -> u64 {
    if sum > u64::MAX {
        u64::MAX
    } else {
        sum as u64
    }
}

/// Who pays for match `m` of an order of `side` signed by `aggressor`: the
/// buyer.
pub open spec fn payer(side: Side, aggressor: Seq<char>, m: PartialOrderView) -> Seq<char> {
    match side {
        Side::Buy => aggressor,
        Side::Sell => m.signer,
    }
}

/// Who is paid for match `m` of an order of `side` signed by `aggressor`:
/// the seller.
pub open spec fn payee(side: Side, aggressor: Seq<char>, m: PartialOrderView) -> Seq<char> {
    match side {
        Side::Buy => m.signer,
        Side::Sell => aggressor,
    }
}

/// The balances after match `m` is settled: the payer sends the payee the
/// notional. A notional beyond the balance width is more than any payer
/// holds.
pub open spec fn settled_one(
    balances: Balances,
    side: Side,
    aggressor: Seq<char>,
    m: PartialOrderView,
) -> Result<Balances, ErrorView> {
    let from = payer(side, aggressor, m);
    if m.notional() <= u64::MAX {
        sent(balances, from, payee(side, aggressor, m), m.notional() as u64)
    } else if balances.contains_key(from) {
        Err(ErrorView::AccountUnderFunded(from, u64::MAX))
    } else {
        Err(ErrorView::AccountNotFound(from))
    }
}

/// The two records that the settlement of match `m` appends to the log.
pub open spec fn settlement_records(
    side: Side,
    aggressor: Seq<char>,
    m: PartialOrderView,
) -> Seq<TxView> {
    seq![
        TxView::Withdraw { account: payer(side, aggressor, m), amount: m.notional() as u64 },
        TxView::Deposit { account: payee(side, aggressor, m), amount: m.notional() as u64 },
    ]
}

/// The outcome of settling a run of matches.
pub struct Settlement {
    /// The balances after the matches that settled.
    pub balances: Balances,
    /// The log after the matches that settled.
    pub log: Seq<TxView>,
    /// Why the first match that did not settle failed, if one did.
    pub failure: Option<ErrorView>,
}

/// Settles `matches` one after the other, in their order, and stops at the
/// first that fails; the matches before it stay settled.
pub open spec fn settled(
    balances: Balances,
    log: Seq<TxView>,
    side: Side,
    aggressor: Seq<char>,
    matches: Seq<PartialOrderView>,
) -> Settlement
    decreases matches.len(),
{
    if matches.len() == 0 {
        Settlement { balances, log, failure: None }
    } else {
        match settled_one(balances, side, aggressor, matches.first()) {
            Ok(paid) => settled(
                paid,
                log + settlement_records(side, aggressor, matches.first()),
                side,
                aggressor,
                matches.drop_first(),
            ),
            Err(error) => Settlement { balances, log, failure: Some(error) },
        }
    }
}

/// Settling matches creates and destroys no money: however many of them
/// settle, the sum of all balances is what it was.
pub proof fn lemma_settled_conserves(
    balances: Balances,
    log: Seq<TxView>,
    side: Side,
    aggressor: Seq<char>,
    matches: Seq<PartialOrderView>,
)
    requires
        balances.dom().finite(),
    ensures
        settled(balances, log, side, aggressor, matches).balances.dom().finite(),
        total(settled(balances, log, side, aggressor, matches).balances) == total(balances),
    decreases matches.len(),
{
    if matches.len() > 0 {
        let m = matches.first();
        match settled_one(balances, side, aggressor, m) {
            Ok(paid) => {
                lemma_send_conserves(
                    balances,
                    payer(side, aggressor, m),
                    payee(side, aggressor, m),
                    m.notional() as u64,
                );
                lemma_settled_conserves(
                    paid,
                    log + settlement_records(side, aggressor, m),
                    side,
                    aggressor,
                    matches.drop_first(),
                );
            },
            Err(_) => {},
        }
    }
}

/// Settling matches keeps the log in step with the ledger: where replaying
/// the log gave the balances before, replaying the longer log gives the
/// balances after.
pub proof fn lemma_settled_replays(
    balances: Balances,
    log: Seq<TxView>,
    side: Side,
    aggressor: Seq<char>,
    matches: Seq<PartialOrderView>,
)
    requires
        replayed(log) == Ok::<Balances, ErrorView>(balances),
    ensures
        replayed(settled(balances, log, side, aggressor, matches).log) == Ok::<
            Balances,
            ErrorView,
        >(settled(balances, log, side, aggressor, matches).balances),
    decreases matches.len(),
{
    if matches.len() > 0 {
        let m = matches.first();
        match settled_one(balances, side, aggressor, m) {
            Ok(paid) => {
                let records = settlement_records(side, aggressor, m);
                assert(log + records =~= log.push(records[0]).push(records[1]));
                lemma_replay_push(log, records[0]);
                lemma_replay_push(log.push(records[0]), records[1]);
                lemma_settled_replays(paid, log + records, side, aggressor, matches.drop_first());
            },
            Err(_) => {},
        }
    }
}

} // verus!
