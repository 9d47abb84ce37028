//! The platform: a ledger, a matching engine and the log of every account
//! transaction that the platform made.

use crate::accounts::Accounts;
use crate::book::{pruned, rest_order, resting_orders};
use crate::errors::{AccountingError, ApplicationError, ErrorView};
use crate::invariants::{matches_allowed, matches_ok, opposite, priority_ordered};
use crate::ledger::{
    deposited, lemma_replay_push, replayed, sent, total, withdrawn, Balances,
};
use crate::matching::{lemma_after_keeps_wf, EngineView, MatchingEngine};
use crate::settlement::{
    capped, lemma_settled_conserves, lemma_settled_replays, settled, settled_one,
    settlement_records, Settlement,
};
use crate::signers::{
    held_by_holders, lemma_fill_levels_holders, lemma_holders_stay, lemma_ledger_keeps_accounts,
    lemma_pruned_holders, lemma_rest_order_holders, lemma_settled_among_holders,
};
use crate::tx::{tx_views, Tx, TxView};
use crate::types::{order_views, Order, OrderView, PartialOrder, Receipt, ReceiptView, Side};
use vstd::prelude::*;

verus! {

/// The core of the core: the [`TradingPlatform`]. Manages accounts, validates-, and orchestrates the processing of each order.
pub struct TradingPlatform {
    /// The order book and the history of receipts.
    pub matching_engine: MatchingEngine,
    /// The balances.
    pub accounts: Accounts,
    /// Every account transaction that the platform made, in their order.
    pub tx_log: Vec<Tx>,
}

/// The mathematical value of a [`TradingPlatform`].
pub struct PlatformView {
    pub engine: EngineView,
    pub balances: Balances,
    pub log: Seq<TxView>,
}

impl View for TradingPlatform {
    type V = PlatformView;

    open spec fn view(&self) -> PlatformView {
        PlatformView {
            engine: self.matching_engine@,
            balances: self.accounts@,
            log: tx_views(self.tx_log@),
        }
    }
}

/// What an order leaves behind: the platform after it, and the receipt or
/// the failure that the caller gets.
pub struct Ordered {
    pub platform: PlatformView,
    pub result: Result<ReceiptView, ErrorView>,
}

impl PlatformView {
    /// A well-formed platform: the engine is well formed, the ledger is
    /// finite and is what the log replays to, and every resting order is
    /// signed by the holder of an account.
    pub open spec fn wf(self) -> bool {
        &&& self.engine.wf()
        &&& self.balances.dom().finite()
        &&& self.log_replays()
        &&& held_by_holders(self.engine.bids, self.balances)
        &&& held_by_holders(self.engine.asks, self.balances)
    }

    /// Whether replaying the log on an empty ledger gives the balances.
    pub open spec fn log_replays(self) -> bool {
        replayed(self.log) == Ok::<Balances, ErrorView>(self.balances)
    }

    /// Whether the signer of a sell order cannot back it: its balance is
    /// below amount times price.
    pub open spec fn insolvent(self, order: OrderView) -> bool {
        order.side == Side::Sell && self.balances[order.signer] < order.amount * order.price
    }

    /// What `order` does. An order of an unknown signer, a sell order that
    /// its signer cannot back and an order that the engine refuses leave
    /// the platform as it is. Any other order is matched, and its matches
    /// are settled in the order of the receipt; the first match that does
    /// not settle ends the settlement and is reported in place of the
    /// receipt, with the engine and the settled matches left as they are.
    pub open spec fn ordered(self, order: OrderView) -> Ordered {
        if !self.balances.contains_key(order.signer) {
            Ordered { platform: self, result: Err(ErrorView::AccountNotFound(order.signer)) }
        } else if self.insolvent(order) {
            Ordered {
                platform: self,
                result: Err(
                    ErrorView::AccountUnderFunded(
                        order.signer,
                        capped(order.amount * order.price),
                    ),
                ),
            }
        } else if !self.engine.accepts(order) {
            Ordered { platform: self, result: Err(ErrorView::OrderRejected(order.signer)) }
        } else {
            let receipt = self.engine.receipt(order);
            let settlement = settled(
                self.balances,
                self.log,
                order.side,
                order.signer,
                receipt.matches,
            );
            Ordered {
                platform: PlatformView {
                    engine: self.engine.after(order),
                    balances: settlement.balances,
                    log: settlement.log,
                },
                result: match settlement.failure {
                    None => Ok(receipt),
                    Some(error) => Err(error),
                },
            }
        }
    }
}

/// An order keeps the platform well formed and creates and destroys no
/// money. On a well-formed platform only the signer of the order itself can
/// be found to hold no account: no match fails to settle for want of one.
pub proof fn lemma_ordered_keeps_wf(platform: PlatformView, order: OrderView)
    requires
        platform.wf(),
    ensures
        platform.ordered(order).platform.wf(),
        total(platform.ordered(order).platform.balances) == total(platform.balances),
        (platform.ordered(order).result matches Err(ErrorView::AccountNotFound(_)))
            ==> !platform.balances.contains_key(order.signer),
{
    if platform.balances.contains_key(order.signer) && !platform.insolvent(order)
        && platform.engine.accepts(order) {
        let engine = platform.engine;
        let matching = engine.matching(order);
        let paid = platform.ordered(order).platform.balances;
        let opposing = engine.side(opposite(order.side));
        let own = engine.side(order.side);
        lemma_after_keeps_wf(engine, order);
        lemma_fill_levels_holders(
            opposing,
            order.side,
            order.price,
            order.signer,
            order.amount,
            platform.balances,
        );
        lemma_settled_conserves(
            platform.balances,
            platform.log,
            order.side,
            order.signer,
            matching.matches,
        );
        lemma_settled_replays(
            platform.balances,
            platform.log,
            order.side,
            order.signer,
            matching.matches,
        );
        lemma_settled_among_holders(
            platform.balances,
            platform.log,
            order.side,
            order.signer,
            matching.matches,
        );
        lemma_pruned_holders(matching.rest, platform.balances);
        lemma_holders_stay(pruned(matching.rest), platform.balances, paid);
        if matching.need > 0 {
            let rested = rest_order(own, engine.residue(order));
            lemma_rest_order_holders(own, engine.residue(order), platform.balances);
            lemma_pruned_holders(rested, platform.balances);
            lemma_holders_stay(pruned(rested), platform.balances, paid);
        } else {
            lemma_pruned_holders(own, platform.balances);
            lemma_holders_stay(pruned(own), platform.balances, paid);
        }
    }
}

impl TradingPlatform {
    /// Creates a new instance without any data.
    pub fn new() -> (platform: TradingPlatform)
        ensures
            platform@.engine == EngineView::empty(),
            platform@.balances == Map::<Seq<char>, u64>::empty(),
            platform@.log == Seq::<TxView>::empty(),
            platform@.wf(),
    {
        let platform = TradingPlatform {
            accounts: Accounts::new(),
            matching_engine: MatchingEngine::new(),
            tx_log: Vec::new(),
        };
        platform
    }

    /// Fetches the complete order book at this time: the asks, then the
    /// bids, each by ascending price and within a price the earliest first.
    pub fn orderbook(&self) -> (orders: Vec<PartialOrder>)
        ensures
            order_views(orders@) == resting_orders(self@.engine.asks) + resting_orders(
                self@.engine.bids,
            ),
    {
        let mut asks = self.matching_engine.asks.orders();
        let mut bids = self.matching_engine.bids.orders();
        asks.append(&mut bids);
        asks
    }

    /// The transactions that the platform made so far.
    pub fn txlog(&self) -> (log: &Vec<Tx>)
        ensures
            tx_views(log@) == self@.log,
    {
        &self.tx_log
    }

    /// The balance of the `signer` account.
    pub fn balance_of(&mut self, signer: &str) -> (result: Result<&u64, ApplicationError>)
        ensures
            final(self)@ == old(self)@,
            old(self)@.balances.dom().finite(),
            match result {
                Ok(balance) => {
                    &&& old(self)@.balances.contains_key(signer@)
                    &&& *balance == old(self)@.balances[signer@]
                },
                Err(error) => {
                    &&& !old(self)@.balances.contains_key(signer@)
                    &&& error@ == ErrorView::AccountNotFound(signer@)
                },
            },
    {
        self.accounts.balance_of(signer)
    }

    /// Deposit funds
    pub fn deposit(&mut self, signer: &str, amount: u64) -> (result: Result<Tx, ApplicationError>)
        ensures
            old(self)@.balances.dom().finite(),
            final(self)@.balances.dom().finite(),
            final(self)@.engine == old(self)@.engine,
            old(self)@.log_replays() ==> final(self)@.log_replays(),
            old(self)@.wf() ==> final(self)@.wf(),
            match deposited(old(self)@.balances, signer@, amount) {
                Ok(balances) => {
                    &&& result is Ok
                    &&& result->Ok_0@ == (TxView::Deposit { account: signer@, amount })
                    &&& final(self)@.balances == balances
                    &&& final(self)@.log == old(self)@.log.push(result->Ok_0@)
                    &&& total(final(self)@.balances) == total(old(self)@.balances) + amount
                },
                Err(error) => {
                    &&& result is Err
                    &&& result->Err_0@ == error
                    &&& final(self)@ == old(self)@
                },
            },
    {
        let ghost before = self@;
        let deposit = match self.accounts.deposit(signer, amount) {
            Ok(tx) => tx,
            Err(error) => {
                return Err(error);
            },
        };
        let log = deposit.clone();
        self.tx_log.push(log);
        proof {
            assert(self@.log =~= before.log.push(deposit@));
            lemma_replay_push(before.log, deposit@);
        }
        Ok(deposit)
    }

    /// Withdraw funds
    pub fn withdraw(&mut self, signer: &str, amount: u64) -> (result: Result<Tx, ApplicationError>)
        ensures
            old(self)@.balances.dom().finite(),
            final(self)@.balances.dom().finite(),
            final(self)@.engine == old(self)@.engine,
            old(self)@.log_replays() ==> final(self)@.log_replays(),
            old(self)@.wf() ==> final(self)@.wf(),
            match withdrawn(old(self)@.balances, signer@, amount) {
                Ok(balances) => {
                    &&& result is Ok
                    &&& result->Ok_0@ == (TxView::Withdraw { account: signer@, amount })
                    &&& final(self)@.balances == balances
                    &&& final(self)@.log == old(self)@.log.push(result->Ok_0@)
                    &&& total(final(self)@.balances) + amount == total(old(self)@.balances)
                },
                Err(error) => {
                    &&& result is Err
                    &&& result->Err_0@ == error
                    &&& final(self)@ == old(self)@
                },
            },
    {
        let ghost before = self@;
        let withdraw = match self.accounts.withdraw(signer, amount) {
            Ok(tx) => tx,
            Err(error) => {
                return Err(error);
            },
        };
        let log = withdraw.clone();
        self.tx_log.push(log);
        proof {
            assert(self@.log =~= before.log.push(withdraw@));
            lemma_replay_push(before.log, withdraw@);
        }
        Ok(withdraw)
    }

    /// Transfer funds between sender and recipient
    pub fn send(&mut self, sender: &str, recipient: &str, amount: u64) -> (result: Result<
        (Tx, Tx),
        ApplicationError,
    >)
        ensures
            old(self)@.balances.dom().finite(),
            final(self)@.balances.dom().finite(),
            final(self)@.engine == old(self)@.engine,
            old(self)@.log_replays() ==> final(self)@.log_replays(),
            old(self)@.wf() ==> final(self)@.wf(),
            total(final(self)@.balances) == total(old(self)@.balances),
            match sent(old(self)@.balances, sender@, recipient@, amount) {
                Ok(balances) => {
                    &&& result is Ok
                    &&& result->Ok_0.0@ == (TxView::Withdraw { account: sender@, amount })
                    &&& result->Ok_0.1@ == (TxView::Deposit { account: recipient@, amount })
                    &&& final(self)@.balances == balances
                    &&& final(self)@.log == old(self)@.log.push(result->Ok_0.0@).push(
                        result->Ok_0.1@,
                    )
                },
                Err(error) => {
                    &&& result is Err
                    &&& result->Err_0@ == error
                    &&& final(self)@ == old(self)@
                },
            },
    {
        let ghost before = self@;
        let (tx1, tx2) = match self.accounts.send(sender, recipient, amount) {
            Ok(pair) => pair,
            Err(error) => {
                return Err(error);
            },
        };
        let log1 = tx1.clone();
        let log2 = tx2.clone();
        self.tx_log.push(log1);
        self.tx_log.push(log2);
        proof {
            let first = before.log.push(tx1@);
            assert(self@.log =~= first.push(tx2@));
            lemma_replay_push(before.log, tx1@);
            lemma_replay_push(first, tx2@);
        }
        Ok((tx1, tx2))
    }

    /// Process a given order and apply the outcome to the accounts involved.
    ///
    /// The signer must hold an account, and the signer of a sell order at
    /// least amount times price; a buy order is taken without a look at the
    /// balance. Each match is settled as a transfer of its notional from
    /// the buyer to the seller, in the order of the receipt. A match that
    /// cannot be settled ends the settlement and is reported as the error
    /// of the transfer, with the engine and the matches settled before it
    /// left as they are.
    pub fn order(&mut self, order: Order) -> (result: Result<Receipt, ApplicationError>)
        ensures
            old(self)@.balances.dom().finite(),
            final(self)@.balances.dom().finite(),
            final(self)@ == old(self)@.ordered(order@).platform,
            match old(self)@.ordered(order@).result {
                Ok(receipt) => result is Ok && result->Ok_0@ == receipt,
                Err(error) => result is Err && result->Err_0@ == error,
            },
            total(final(self)@.balances) == total(old(self)@.balances),
            old(self)@.log_replays() ==> final(self)@.log_replays(),
            old(self)@.engine.wf() ==> final(self)@.engine.wf(),
            old(self)@.wf() ==> final(self)@.wf(),
            old(self)@.wf() && (result matches Err(AccountingError::AccountNotFound(_)))
                ==> !old(self)@.balances.contains_key(order@.signer),
            result is Ok ==> matches_allowed(
                result->Ok_0@.matches,
                order@.side,
                order@.price,
                order@.signer,
            ),
            old(self)@.engine.wf() && result is Ok ==> {
                &&& matches_ok(result->Ok_0@.matches, order@.side, order@.price, order@.signer)
                &&& priority_ordered(result->Ok_0@.matches)
            },
    {
        let ghost before = self@;
        let ghost asked = order@;
        proof {
            if before.wf() {
                lemma_ordered_keeps_wf(before, asked);
            }
        }
        let balance = match self.accounts.balance_of(order.signer.as_str()) {
            Ok(balance) => *balance,
            Err(error) => {
                return Err(error);
            },
        };
        match order.side {
            Side::Sell => {
                match order.amount.checked_mul(order.price) {
                    Some(notional) => {
                        if balance < notional {
                            return Err(
                                AccountingError::AccountUnderFunded(order.signer, notional),
                            );
                        }
                    },
                    None => {
                        return Err(AccountingError::AccountUnderFunded(order.signer, u64::MAX));
                    },
                }
            },
            Side::Buy => {},
        }
        let order_signer = order.signer.clone();
        let order_side = order.side;
        let receipt = match self.matching_engine.process(order) {
            Ok(receipt) => receipt,
            Err(error) => {
                return Err(error);
            },
        };
        let ghost matches = receipt@.matches;
        let ghost whole = settled(before.balances, before.log, asked.side, asked.signer, matches);
        let mut i: usize = 0;
        assert(matches.skip(0) =~= matches);
        while i < receipt.matches.len()
            invariant
                i <= receipt.matches.len(),
                before == old(self)@,
                asked == order@,
                before.balances.contains_key(asked.signer),
                !before.insolvent(asked),
                before.engine.accepts(asked),
                receipt@ == before.engine.receipt(asked),
                matches == receipt@.matches,
                whole == settled(before.balances, before.log, asked.side, asked.signer, matches),
                order_side == asked.side,
                order_signer@ == asked.signer,
                self@.engine == before.engine.after(asked),
                whole == settled(
                    self@.balances,
                    self@.log,
                    asked.side,
                    asked.signer,
                    matches.skip(i as int),
                ),
                before.balances.dom().finite(),
                self@.balances.dom().finite(),
                total(self@.balances) == total(before.balances),
                before.log_replays() ==> self@.log_replays(),
                before.engine.wf() ==> self@.engine.wf(),
                before.wf() ==> before.ordered(asked).platform.wf(),
                before.wf() ==> !(before.ordered(asked).result matches Err(
                    ErrorView::AccountNotFound(_),
                )),
                matches_allowed(matches, asked.side, asked.price, asked.signer),
                before.engine.wf() ==> matches_ok(
                    matches,
                    asked.side,
                    asked.price,
                    asked.signer,
                ) && priority_ordered(matches),
            decreases receipt.matches.len() - i,
        {
            assert(matches.skip(i as int).drop_first() =~= matches.skip(i as int + 1));
            match self.settle(order_side, &order_signer, &receipt.matches[i]) {
                Ok(()) => {},
                Err(error) => {
                    return Err(error);
                },
            }
            i += 1;
        }
        Ok(receipt)
    }

    /// Settles one match of an order of `side` signed by `aggressor`: the
    /// buyer sends the seller the notional, price times amount. A notional
    /// beyond the balance width is more than the buyer holds.
    pub fn settle(&mut self, side: Side, aggressor: &String, m: &PartialOrder) -> (result: Result<
        (),
        ApplicationError,
    >)
        ensures
            old(self)@.balances.dom().finite(),
            final(self)@.balances.dom().finite(),
            final(self)@.engine == old(self)@.engine,
            old(self)@.log_replays() ==> final(self)@.log_replays(),
            old(self)@.wf() ==> final(self)@.wf(),
            total(final(self)@.balances) == total(old(self)@.balances),
            match settled_one(old(self)@.balances, side, aggressor@, m@) {
                Ok(balances) => {
                    &&& result is Ok
                    &&& final(self)@.balances == balances
                    &&& final(self)@.log == old(self)@.log + settlement_records(
                        side,
                        aggressor@,
                        m@,
                    )
                },
                Err(error) => {
                    &&& result is Err
                    &&& result->Err_0@ == error
                    &&& final(self)@ == old(self)@
                },
            },
    {
        let (from, to) = match side {
            Side::Buy => (aggressor, &m.signer),
            Side::Sell => (&m.signer, aggressor),
        };
        match m.price.checked_mul(m.amount) {
            Some(notional) => {
                match self.send(from.as_str(), to.as_str(), notional) {
                    Ok(_) => Ok(()),
                    Err(error) => Err(error),
                }
            },
            None => {
                match self.accounts.balance_of(from.as_str()) {
                    Ok(_) => Err(AccountingError::AccountUnderFunded(from.clone(), u64::MAX)),
                    Err(error) => Err(error),
                }
            },
        }
    }
}

} // verus!
