//! What holds of an engine over a whole sequence of orders.

use crate::errors::ErrorView;
use crate::matching::{lemma_after_keeps_wf, EngineView};
use crate::types::{OrderView, ReceiptView};
use vstd::prelude::*;

verus! {

impl EngineView {
    /// The engine after `orders` have been offered to it one after the
    /// other.
    pub open spec fn run(self, orders: Seq<OrderView>) -> EngineView
        decreases orders.len(),
    {
        if orders.len() == 0 {
            self
        } else {
            self.run(orders.drop_last()).offered(orders.last())
        }
    }

    /// What the callers get for `orders`, offered one after the other.
    pub open spec fn answers(self, orders: Seq<OrderView>) -> Seq<Result<ReceiptView, ErrorView>>
        decreases orders.len(),
    {
        if orders.len() == 0 {
            Seq::empty()
        } else {
            self.answers(orders.drop_last()).push(
                self.run(orders.drop_last()).answer(orders.last()),
            )
        }
    }

    /// How many of `orders`, offered one after the other, the engine takes.
    pub open spec fn taken(self, orders: Seq<OrderView>) -> nat
        decreases orders.len(),
    {
        if orders.len() == 0 {
            0
        } else if self.run(orders.drop_last()).accepts(orders.last()) {
            self.taken(orders.drop_last()) + 1
        } else {
            self.taken(orders.drop_last())
        }
    }
}

/// A well-formed engine stays well formed whatever orders are offered to
/// it: no level is ever empty, something remains of every resting order and
/// no more than its amount, and the receipts of the history are numbered
/// from one without a gap.
pub proof fn lemma_run_keeps_wf(engine: EngineView, orders: Seq<OrderView>)
    requires
        engine.wf(),
    ensures
        engine.run(orders).wf(),
    decreases orders.len(),
{
    if orders.len() > 0 {
        lemma_run_keeps_wf(engine, orders.drop_last());
        let before = engine.run(orders.drop_last());
        if before.accepts(orders.last()) {
            lemma_after_keeps_wf(before, orders.last());
        }
    }
}

/// The history grows by one receipt, and the ordinal by one, for each
/// order that the engine takes, and for no other.
pub proof fn lemma_run_counts(engine: EngineView, orders: Seq<OrderView>)
    ensures
        engine.run(orders).history.len() == engine.history.len() + engine.taken(orders),
        engine.run(orders).ordinal == engine.ordinal + engine.taken(orders),
        engine.answers(orders).len() == orders.len(),
    decreases orders.len(),
{
    if orders.len() > 0 {
        lemma_run_counts(engine, orders.drop_last());
    }
}

/// From an empty engine the receipts carry the ordinals one, two, three and
/// so on, in the order in which the orders were taken.
pub proof fn lemma_run_numbers_receipts(orders: Seq<OrderView>, i: int)
    requires
        0 <= i < EngineView::empty().run(orders).history.len(),
    ensures
        EngineView::empty().run(orders).history[i].ordinal == i + 1,
        EngineView::empty().run(orders).history.len() == EngineView::empty().taken(orders),
{
    lemma_run_keeps_wf(EngineView::empty(), orders);
    lemma_run_counts(EngineView::empty(), orders);
}

/// Matching is a function of the engine and the orders alone: two engines
/// of one value, offered the same orders, give the same answers and end in
/// the same value.
pub proof fn lemma_run_is_deterministic(
    first: EngineView,
    second: EngineView,
    orders: Seq<OrderView>,
    others: Seq<OrderView>,
)
    requires
        first == second,
        orders =~= others,
    ensures
        first.run(orders) == second.run(others),
        first.answers(orders) == second.answers(others),
{
}

} // verus!
