//! The matching engine: both sides of the order book, the ordinal counter
//! and the history of receipts.

use crate::book::{fill_levels, pruned, rest_order, Book, Fill, LevelView};
use crate::errors::{AccountingError, ApplicationError, ErrorView};
use crate::invariants::{
    book_ok, filled, lemma_fill_levels_allowed, lemma_fill_levels_conserves,
    lemma_fill_levels_keeps, lemma_filled_concat, lemma_pruned_keeps, lemma_pruned_none_empty,
    lemma_ordinals_weaken, lemma_rest_order_keeps, matches_allowed, matches_ok, none_empty,
    opposite, ordinals_at_most, prices_above, priority_ordered,
};
use crate::types::{
    order_views, receipt_views, Order, OrderView, PartialOrder, PartialOrderView, Receipt,
    ReceiptView, Side,
};
use vstd::prelude::*;

verus! {

/// A price/time priority matching engine for one instrument.
#[derive(Debug)]
pub struct MatchingEngine {
    /// The last sequence number
    pub ordinal: u64,
    /// The "Bid" or "Buy" side of the order book, by ascending price.
    pub bids: Book,
    /// The "Ask" or "Sell" side of the order book, by ascending price.
    pub asks: Book,
    /// Previous matches for record keeping
    pub history: Vec<Receipt>,
}

/// The mathematical value of a [`MatchingEngine`].
pub struct EngineView {
    pub ordinal: u64,
    pub bids: Seq<LevelView>,
    pub asks: Seq<LevelView>,
    pub history: Seq<ReceiptView>,
}

impl View for MatchingEngine {
    type V = EngineView;

    open spec fn view(&self) -> EngineView {
        EngineView {
            ordinal: self.ordinal,
            bids: self.bids@,
            asks: self.asks@,
            history: receipt_views(self.history@),
        }
    }
}

impl EngineView {
    /// The engine before any order.
    pub open spec fn empty() -> EngineView {
        EngineView { ordinal: 0, bids: Seq::empty(), asks: Seq::empty(), history: Seq::empty() }
    }

    /// The side that holds orders of `side`.
    pub open spec fn side(self, side: Side) -> Seq<LevelView> {
        match side {
            Side::Buy => self.bids,
            Side::Sell => self.asks,
        }
    }

    /// Whether the engine takes `order`: its price and amount are positive
    /// and an ordinal is left for it.
    pub open spec fn accepts(self, order: OrderView) -> bool {
        order.amount > 0 && order.price > 0 && self.ordinal < u64::MAX
    }

    /// The ordinal that the next accepted order gets.
    pub open spec fn next_ordinal(self) -> u64 {
        (self.ordinal + 1) as u64
    }

    /// The matching of `order` against the opposite side.
    pub open spec fn matching(self, order: OrderView) -> Fill<Seq<LevelView>> {
        fill_levels(
            self.side(opposite(order.side)),
            order.side,
            order.price,
            order.signer,
            order.amount,
        )
    }

    /// The receipt that `order` gets.
    pub open spec fn receipt(self, order: OrderView) -> ReceiptView {
        ReceiptView { ordinal: self.next_ordinal(), matches: self.matching(order).matches }
    }

    /// What comes to rest of `order` when the matching leaves some of it
    /// unfilled: the order under its ordinal, with the unfilled units
    /// remaining.
    pub open spec fn residue(self, order: OrderView) -> PartialOrderView {
        order.as_partial(self.next_ordinal(), self.matching(order).need)
    }

    /// The engine after it has taken `order`: the opposite side is what
    /// the matching left of it, the order's own side has taken the residue
    /// if there is one, both sides are pruned, and the receipt is the last
    /// of the history.
    pub open spec fn after(self, order: OrderView) -> EngineView {
        let matching = self.matching(order);
        let own = if matching.need > 0 {
            rest_order(self.side(order.side), self.residue(order))
        } else {
            self.side(order.side)
        };
        EngineView {
            ordinal: self.next_ordinal(),
            bids: pruned(
                match order.side {
                    Side::Buy => own,
                    Side::Sell => matching.rest,
                },
            ),
            asks: pruned(
                match order.side {
                    Side::Buy => matching.rest,
                    Side::Sell => own,
                },
            ),
            history: self.history.push(self.receipt(order)),
        }
    }

    /// The engine after `order` has been offered to it: a refused order
    /// leaves it as it is.
    pub open spec fn offered(self, order: OrderView) -> EngineView {
        if self.accepts(order) {
            self.after(order)
        } else {
            self
        }
    }

    /// What the caller gets for `order`: the receipt, or the refusal.
    pub open spec fn answer(self, order: OrderView) -> Result<ReceiptView, ErrorView> {
        if self.accepts(order) {
            Ok(self.receipt(order))
        } else {
            Err(ErrorView::OrderRejected(order.signer))
        }
    }

    /// A well-formed engine: both sides are well formed, no resting order
    /// carries an ordinal that has not been handed out yet, and the history
    /// holds one receipt for each ordinal handed out, in their order.
    pub open spec fn wf(self) -> bool {
        &&& book_ok(self.bids, Side::Buy)
        &&& book_ok(self.asks, Side::Sell)
        &&& ordinals_at_most(self.bids, self.ordinal as int)
        &&& ordinals_at_most(self.asks, self.ordinal as int)
        &&& self.history.len() == self.ordinal
        &&& forall|i: int|
            0 <= i < self.history.len() ==> (#[trigger] self.history[i]).ordinal == i + 1
    }
}

/// Whatever the engine holds, the matches of an order are allowed to it:
/// none is an order of its own signer, each is at a price that its limit
/// crosses. What was filled and what is left to rest add up to the order's
/// amount, and once the order is taken no level of either side is empty.
pub proof fn lemma_receipt_allowed(engine: EngineView, order: OrderView)
    ensures
        matches_allowed(engine.receipt(order).matches, order.side, order.price, order.signer),
        filled(engine.receipt(order).matches) + engine.matching(order).need == order.amount,
        none_empty(engine.after(order).bids),
        none_empty(engine.after(order).asks),
{
    let matching = engine.matching(order);
    let own = if matching.need > 0 {
        rest_order(engine.side(order.side), engine.residue(order))
    } else {
        engine.side(order.side)
    };
    lemma_pruned_none_empty(own);
    lemma_pruned_none_empty(matching.rest);
    let opposing = engine.side(opposite(order.side));
    lemma_fill_levels_allowed(opposing, order.side, order.price, order.signer, order.amount);
    lemma_fill_levels_conserves(opposing, order.side, order.price, order.signer, order.amount);
}

/// Taking an order keeps the engine well formed. Against a well-formed
/// engine every match fills at least one unit of an order of the opposite
/// side, and the matches come by price, then time.
pub proof fn lemma_after_keeps_wf(engine: EngineView, order: OrderView)
    requires
        engine.wf(),
        engine.accepts(order),
    ensures
        engine.after(order).wf(),
        matches_ok(engine.receipt(order).matches, order.side, order.price, order.signer),
        priority_ordered(engine.receipt(order).matches),
{
    let matching = engine.matching(order);
    let after = engine.after(order);
    let opposing = engine.side(opposite(order.side));
    let own = engine.side(order.side);
    lemma_fill_levels_keeps(
        opposing,
        order.side,
        order.price,
        order.signer,
        order.amount,
        -1,
        engine.ordinal as int,
    );
    lemma_fill_levels_conserves(opposing, order.side, order.price, order.signer, order.amount);
    lemma_ordinals_weaken(matching.rest, engine.ordinal as int, after.ordinal as int);
    lemma_pruned_keeps(matching.rest, opposite(order.side), -1, after.ordinal as int);
    if matching.need > 0 {
        let rested = rest_order(own, engine.residue(order));
        lemma_rest_order_keeps(own, order.side, engine.residue(order), -1, engine.ordinal as int);
        lemma_pruned_keeps(rested, order.side, -1, after.ordinal as int);
    } else {
        lemma_ordinals_weaken(own, engine.ordinal as int, after.ordinal as int);
        lemma_pruned_keeps(own, order.side, -1, after.ordinal as int);
    }
}

/// The units that `matches` filled.
fn matched_amount(matches: &Vec<PartialOrder>) -> (total: u64)
    requires
        filled(order_views(matches@)) <= u64::MAX,
    ensures
        total == filled(order_views(matches@)),
{
    let ghost views = order_views(matches@);
    let mut total: u64 = 0;
    let mut i: usize = 0;
    while i < matches.len()
        invariant
            i <= matches.len(),
            views == order_views(matches@),
            filled(views) <= u64::MAX,
            total == filled(views.take(i as int)),
        decreases matches.len() - i,
    {
        proof {
            assert(views.take(i as int + 1).drop_last() =~= views.take(i as int));
            assert(views =~= views.take(i as int + 1) + views.skip(i as int + 1));
            lemma_filled_concat(views.take(i as int + 1), views.skip(i as int + 1));
        }
        total = total + matches[i].amount;
        i += 1;
    }
    assert(views.take(i as int) =~= views);
    total
}

impl MatchingEngine {
    /// Creates a new [`MatchingEngine`] with an ordinal of 0 and empty books
    pub fn new() -> (engine: MatchingEngine)
        ensures
            engine@ == EngineView::empty(),
            engine@.wf(),
    {
        let engine = MatchingEngine {
            ordinal: 0,
            bids: Book::new(),
            asks: Book::new(),
            history: Vec::new(),
        };
        assert(engine@.history =~= Seq::<ReceiptView>::empty());
        engine
    }

    /// Processes an [`Order`] and returns a [`Receipt`]
    /// This includes matching the order to whatever is in the current books and adding the remainder (if any) to the book for future matching.
    ///
    /// An order without a price or an amount is refused, as is any order
    /// once the ordinals are used up; a refused order changes nothing.
    pub fn process(&mut self, order: Order) -> (result: Result<Receipt, ApplicationError>)
        ensures
            final(self)@ == old(self)@.offered(order@),
            match result {
                Ok(receipt) => Ok::<ReceiptView, ErrorView>(receipt@) == old(self)@.answer(order@),
                Err(error) => Err::<ReceiptView, ErrorView>(error@) == old(self)@.answer(order@),
            },
            result is Ok ==> {
                &&& final(self)@.ordinal == old(self)@.ordinal + 1
                &&& result->Ok_0@.ordinal == final(self)@.ordinal
                &&& final(self)@.history == old(self)@.history.push(result->Ok_0@)
                &&& matches_allowed(
                    result->Ok_0@.matches,
                    order@.side,
                    order@.price,
                    order@.signer,
                )
                &&& filled(result->Ok_0@.matches) + old(self)@.matching(order@).need
                    == order@.amount
                &&& none_empty(final(self)@.bids)
                &&& none_empty(final(self)@.asks)
            },
            old(self)@.wf() ==> final(self)@.wf(),
            old(self)@.wf() && result is Ok ==> {
                &&& matches_ok(result->Ok_0@.matches, order@.side, order@.price, order@.signer)
                &&& priority_ordered(result->Ok_0@.matches)
            },
    {
        if order.amount == 0 || order.price == 0 || self.ordinal == u64::MAX {
            return Err(AccountingError::OrderRejected(order.signer));
        }
        let ghost before = self@;
        let ghost asked = order@;
        proof {
            if before.wf() {
                lemma_after_keeps_wf(before, asked);
            }
            lemma_receipt_allowed(before, asked);
        }
        // Increment the ordinal number for this order
        self.ordinal += 1;
        let ordinal = self.ordinal;

        let ordered_amount = order.amount;
        let mut partial = order.into_partial_order(ordinal, ordered_amount);

        // Orders are matched to the opposite side
        let receipt = match partial.side {
            Side::Buy => {
                let receipt = MatchingEngine::match_order(&partial, &mut self.asks, ordinal)?;
                let matched_amount = matched_amount(&receipt.matches);
                // The order wasn't fully matched
                if matched_amount < ordered_amount {
                    partial.remaining = ordered_amount - matched_amount;
                    self.bids.rest(partial);
                }
                receipt
            },
            Side::Sell => {
                let receipt = MatchingEngine::match_order(&partial, &mut self.bids, ordinal)?;
                let matched_amount = matched_amount(&receipt.matches);
                // The order wasn't fully matched
                if matched_amount < ordered_amount {
                    partial.remaining = ordered_amount - matched_amount;
                    self.asks.rest(partial);
                }
                receipt
            },
        };

        // Cleanup: Remove price entries without orders from the orderbook
        self.asks.prune();
        self.bids.prune();

        // Keep a log of matches
        self.history.push(receipt.clone());
        assert(receipt_views(self.history@) =~= before.history.push(receipt@));
        Ok(receipt)
    }

    /// Matches an order to the provided order book side.
    /// # Parameters
    /// - `book`: the side opposite to the order's own
    /// - `ordinal` the ordinal number that the receipt carries
    ///
    /// The units to fill are those that remain of `order`; the levels that
    /// its price crosses are visited first level first. Matching never
    /// fails.
    pub fn match_order(order: &PartialOrder, book: &mut Book, ordinal: u64) -> (result: Result<
        Receipt,
        ApplicationError,
    >)
        ensures
            result is Ok,
            result->Ok_0@ == (ReceiptView {
                ordinal,
                matches: fill_levels(
                    old(book)@,
                    order.side,
                    order.price,
                    order.signer@,
                    order.remaining,
                ).matches,
            }),
            final(book)@ == fill_levels(
                old(book)@,
                order.side,
                order.price,
                order.signer@,
                order.remaining,
            ).rest,
    {
        let mut matches: Vec<PartialOrder> = Vec::new();
        let _ = book.fill(order.side, order.price, &order.signer, order.remaining, &mut matches);
        Ok(Receipt { ordinal, matches })
    }
}

impl Default for MatchingEngine {
    fn default() -> (engine: MatchingEngine)
        ensures
            engine@ == EngineView::empty(),
    {
        MatchingEngine::new()
    }
}

} // verus!
