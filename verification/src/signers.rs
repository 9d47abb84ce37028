//! The signers of the book: on the platform every resting order belongs to
//! the holder of an account, so that a match can fail to settle for want of
//! funds or of room, never for want of an account.

use crate::book::{crosses, fill_levels, fill_queue, pruned, rest_order, LevelView};
use crate::errors::ErrorView;
use crate::ledger::{deposited, sent, withdrawn, Balances};
use crate::settlement::{payee, payer, settled, settled_one, settlement_records};
use crate::tx::TxView;
use crate::types::{PartialOrderView, Side};
use vstd::prelude::*;

verus! {

/// Every order of the sequence is signed by the holder of an account.
pub open spec fn signed_by_holders(orders: Seq<PartialOrderView>, balances: Balances) -> bool {
    forall|i: int| 0 <= i < orders.len() ==> balances.contains_key((#[trigger] orders[i]).signer)
}

/// Every resting order of the side is signed by the holder of an account.
pub open spec fn held_by_holders(levels: Seq<LevelView>, balances: Balances) -> bool {
    forall|i: int|
        0 <= i < levels.len() ==> signed_by_holders((#[trigger] levels[i]).queue, balances)
}

/// Every account of `before` is an account of `after`.
pub open spec fn keeps_accounts(before: Balances, after: Balances) -> bool {
    forall|who: Seq<char>| before.contains_key(who) ==> after.contains_key(who)
}

/// Matching against a queue of holders' orders leaves a queue of holders'
/// orders, and every match is an order of a holder.
pub proof fn lemma_fill_queue_holders(
    queue: Seq<PartialOrderView>,
    price: u64,
    signer: Seq<char>,
    need: u64,
    balances: Balances,
)
    requires
        signed_by_holders(queue, balances),
    ensures
        signed_by_holders(fill_queue(queue, price, signer, need).rest, balances),
        signed_by_holders(fill_queue(queue, price, signer, need).matches, balances),
    decreases queue.len(),
{
    if queue.len() > 0 && need > 0 {
        let head = queue.first();
        let tail = queue.drop_first();
        if head.signer == signer {
            lemma_fill_queue_holders(tail, price, signer, need, balances);
        } else if head.remaining <= need {
            lemma_fill_queue_holders(tail, price, signer, (need - head.remaining) as u64, balances);
        }
    }
}

/// Matching against a side of holders' orders leaves a side of holders'
/// orders, and every match is an order of a holder.
pub proof fn lemma_fill_levels_holders(
    levels: Seq<LevelView>,
    side: Side,
    limit: u64,
    signer: Seq<char>,
    need: u64,
    balances: Balances,
)
    requires
        held_by_holders(levels, balances),
    ensures
        held_by_holders(fill_levels(levels, side, limit, signer, need).rest, balances),
        signed_by_holders(fill_levels(levels, side, limit, signer, need).matches, balances),
    decreases levels.len(),
{
    if levels.len() > 0 && need > 0 {
        let level = levels.first();
        let tail = levels.drop_first();
        if crosses(side, limit, level.price) {
            let here = fill_queue(level.queue, level.price, signer, need);
            lemma_fill_queue_holders(level.queue, level.price, signer, need, balances);
            lemma_fill_levels_holders(tail, side, limit, signer, here.need, balances);
        } else {
            lemma_fill_levels_holders(tail, side, limit, signer, need, balances);
        }
    }
}

/// A side of holders' orders stays one when the order of a holder comes to
/// rest in it.
pub proof fn lemma_rest_order_holders(
    levels: Seq<LevelView>,
    order: PartialOrderView,
    balances: Balances,
)
    requires
        held_by_holders(levels, balances),
        balances.contains_key(order.signer),
    ensures
        held_by_holders(rest_order(levels, order), balances),
    decreases levels.len(),
{
    if levels.len() > 0 && levels.first().price < order.price {
        lemma_rest_order_holders(levels.drop_first(), order, balances);
    }
}

/// A side of holders' orders stays one when it is pruned.
pub proof fn lemma_pruned_holders(levels: Seq<LevelView>, balances: Balances)
    requires
        held_by_holders(levels, balances),
    ensures
        held_by_holders(pruned(levels), balances),
    decreases levels.len(),
{
    if levels.len() > 0 {
        lemma_pruned_holders(levels.drop_first(), balances);
    }
}

/// A side of holders' orders stays one while no account is closed.
pub proof fn lemma_holders_stay(levels: Seq<LevelView>, before: Balances, after: Balances)
    requires
        held_by_holders(levels, before),
        keeps_accounts(before, after),
    ensures
        held_by_holders(levels, after),
{
    assert forall|i: int| 0 <= i < levels.len() implies signed_by_holders(
        (#[trigger] levels[i]).queue,
        after,
    ) by {}
}

/// No deposit, withdrawal or transfer closes an account.
pub proof fn lemma_ledger_keeps_accounts(
    balances: Balances,
    who: Seq<char>,
    other: Seq<char>,
    amount: u64,
)
    ensures
        deposited(balances, who, amount) is Ok ==> keeps_accounts(
            balances,
            deposited(balances, who, amount)->Ok_0,
        ),
        withdrawn(balances, who, amount) is Ok ==> keeps_accounts(
            balances,
            withdrawn(balances, who, amount)->Ok_0,
        ),
        sent(balances, who, other, amount) is Ok ==> keeps_accounts(
            balances,
            sent(balances, who, other, amount)->Ok_0,
        ),
{
}

/// Settling the matches of a holder against holders' orders closes no
/// account and never fails for want of an account.
pub proof fn lemma_settled_among_holders(
    balances: Balances,
    log: Seq<TxView>,
    side: Side,
    aggressor: Seq<char>,
    matches: Seq<PartialOrderView>,
)
    requires
        balances.contains_key(aggressor),
        signed_by_holders(matches, balances),
    ensures
        keeps_accounts(balances, settled(balances, log, side, aggressor, matches).balances),
        !(settled(balances, log, side, aggressor, matches).failure matches Some(
            ErrorView::AccountNotFound(_),
        )),
    decreases matches.len(),
{
    if matches.len() > 0 {
        let m = matches.first();
        match settled_one(balances, side, aggressor, m) {
            Ok(paid) => {
                lemma_ledger_keeps_accounts(
                    balances,
                    payer(side, aggressor, m),
                    payee(side, aggressor, m),
                    m.notional() as u64,
                );
                lemma_settled_among_holders(
                    paid,
                    log + settlement_records(side, aggressor, m),
                    side,
                    aggressor,
                    matches.drop_first(),
                );
            },
            Err(_) => {},
        }
    }
}

} // verus!
