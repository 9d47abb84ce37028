//! What holds of a book side at rest, and the proofs that matching and
//! resting keep it.

use crate::book::{crosses, fill_levels, fill_queue, matched, pruned, rest_order, LevelView};
use crate::types::{PartialOrderView, Side};
use vstd::prelude::*;

verus! {

/// The side that an order of `side` trades against.
pub open spec fn opposite(side: Side) -> Side {
    match side {
        Side::Buy => Side::Sell,
        Side::Sell => Side::Buy,
    }
}

/// A resting order of a level: something remains of it, no more than it
/// started with, and it carries the level's price and the book's side.
pub open spec fn resting_ok(order: PartialOrderView, side: Side, price: u64) -> bool {
    &&& 0 < order.remaining <= order.amount
    &&& order.price == price
    &&& order.side == side
}

/// Every order of the queue is a resting order of the level, and earlier
/// orders carry lower ordinals.
pub open spec fn queue_ok(queue: Seq<PartialOrderView>, side: Side, price: u64) -> bool {
    &&& forall|i: int| 0 <= i < queue.len() ==> resting_ok(#[trigger] queue[i], side, price)
    &&& forall|i: int, j: int|
        0 <= i < j < queue.len() ==> (#[trigger] queue[i]).ordinal < (#[trigger] queue[j]).ordinal
}

/// Every level has a positive price and a well-formed queue, and prices
/// ascend strictly.
pub open spec fn levels_ok(levels: Seq<LevelView>, side: Side) -> bool {
    &&& forall|i: int|
        0 <= i < levels.len() ==> {
            &&& (#[trigger] levels[i]).price > 0
            &&& queue_ok(levels[i].queue, side, levels[i].price)
        }
    &&& forall|i: int, j: int|
        0 <= i < j < levels.len() ==> (#[trigger] levels[i]).price < (#[trigger] levels[j]).price
}

/// No level is empty.
pub open spec fn none_empty(levels: Seq<LevelView>) -> bool {
    forall|i: int| 0 <= i < levels.len() ==> (#[trigger] levels[i]).queue.len() > 0
}

/// A well-formed book side: no level is empty, every level has a positive
/// price and a well-formed queue, and prices ascend strictly.
pub open spec fn book_ok(levels: Seq<LevelView>, side: Side) -> bool {
    levels_ok(levels, side) && none_empty(levels)
}

/// Every ordinal of the queue lies above `low` and at most at `high`.
pub open spec fn queue_ordinals_within(queue: Seq<PartialOrderView>, low: int, high: int) -> bool {
    forall|i: int| 0 <= i < queue.len() ==> low < (#[trigger] queue[i]).ordinal <= high
}

/// Every ordinal of the side is at most `high`.
pub open spec fn ordinals_at_most(levels: Seq<LevelView>, high: int) -> bool {
    forall|i: int|
        0 <= i < levels.len() ==> queue_ordinals_within((#[trigger] levels[i]).queue, -1, high)
}

/// Every price of the side lies above `low`.
pub open spec fn prices_above(levels: Seq<LevelView>, low: int) -> bool {
    forall|i: int| 0 <= i < levels.len() ==> low < (#[trigger] levels[i]).price
}

/// The units that a sequence of matches has filled: the sum of their amounts.
pub open spec fn filled(matches: Seq<PartialOrderView>) -> nat
    decreases matches.len(),
{
    if matches.len() == 0 {
        0
    } else {
        filled(matches.drop_last()) + matches.last().amount as nat
    }
}

/// What holds of every match of an order of `side` with limit `limit`,
/// signed by `signer`, whatever the book: it is no order of the signer's own,
/// it reports nothing remaining, and its price is one that the limit crosses.
pub open spec fn match_allowed(
    m: PartialOrderView,
    side: Side,
    limit: u64,
    signer: Seq<char>,
) -> bool {
    &&& m.signer != signer
    &&& m.remaining == 0
    &&& crosses(side, limit, m.price)
}

/// Every match of the sequence is allowed to such an order.
pub open spec fn matches_allowed(
    matches: Seq<PartialOrderView>,
    side: Side,
    limit: u64,
    signer: Seq<char>,
) -> bool {
    forall|i: int|
        0 <= i < matches.len() ==> match_allowed(#[trigger] matches[i], side, limit, signer)
}

/// What holds of every match against a well-formed book beyond its being
/// allowed: it fills at least one unit and comes from the opposite side.
pub open spec fn match_ok(m: PartialOrderView, side: Side, limit: u64, signer: Seq<char>) -> bool {
    &&& match_allowed(m, side, limit, signer)
    &&& m.amount > 0
    &&& m.side == opposite(side)
}

/// Every match of the sequence is one against a well-formed book.
pub open spec fn matches_ok(
    matches: Seq<PartialOrderView>,
    side: Side,
    limit: u64,
    signer: Seq<char>,
) -> bool {
    forall|i: int| 0 <= i < matches.len() ==> match_ok(#[trigger] matches[i], side, limit, signer)
}

/// Price, then time: of two matches the earlier one has the lower price or,
/// at the same price, the lower ordinal.
pub open spec fn priority_ordered(matches: Seq<PartialOrderView>) -> bool {
    forall|i: int, j: int|
        0 <= i < j < matches.len() ==> {
            ||| (#[trigger] matches[i]).price < (#[trigger] matches[j]).price
            ||| matches[i].price == matches[j].price && matches[i].ordinal < matches[j].ordinal
        }
}

/// A bound on the ordinals of a side may be raised.
pub proof fn lemma_ordinals_weaken(levels: Seq<LevelView>, high: int, higher: int)
    requires
        ordinals_at_most(levels, high),
        high <= higher,
    ensures
        ordinals_at_most(levels, higher),
{
    assert forall|i: int| 0 <= i < levels.len() implies queue_ordinals_within(
        (#[trigger] levels[i]).queue,
        -1,
        higher,
    ) by {}
}

/// The units filled by two runs of matches add up.
pub proof fn lemma_filled_concat(a: Seq<PartialOrderView>, b: Seq<PartialOrderView>)
    ensures
        filled(a + b) == filled(a) + filled(b),
    decreases b.len(),
{
    if b.len() > 0 {
        assert((a + b).drop_last() =~= a + b.drop_last());
        lemma_filled_concat(a, b.drop_last());
    }
}

/// One match fills its amount.
pub proof fn lemma_filled_one(m: PartialOrderView)
    ensures
        filled(seq![m]) == m.amount,
{
    assert(filled(seq![m].drop_last()) == 0);
}

/// Matching against a queue loses no unit: what was filled and what is
/// still needed add up to what was asked.
pub proof fn lemma_fill_queue_conserves(
    queue: Seq<PartialOrderView>,
    price: u64,
    signer: Seq<char>,
    need: u64,
)
    ensures
        filled(fill_queue(queue, price, signer, need).matches) + fill_queue(
            queue,
            price,
            signer,
            need,
        ).need == need,
    decreases queue.len(),
{
    if queue.len() > 0 && need > 0 {
        let head = queue.first();
        let tail = queue.drop_first();
        if head.signer == signer {
            lemma_fill_queue_conserves(tail, price, signer, need);
        } else if head.remaining > need {
            lemma_filled_one(matched(head, need, price));
        } else {
            let left = (need - head.remaining) as u64;
            lemma_fill_queue_conserves(tail, price, signer, left);
            lemma_filled_one(matched(head, head.remaining, price));
            lemma_filled_concat(
                seq![matched(head, head.remaining, price)],
                fill_queue(tail, price, signer, left).matches,
            );
        }
    }
}

/// Matching against a side loses no unit.
pub proof fn lemma_fill_levels_conserves(
    levels: Seq<LevelView>,
    side: Side,
    limit: u64,
    signer: Seq<char>,
    need: u64,
)
    ensures
        filled(fill_levels(levels, side, limit, signer, need).matches) + fill_levels(
            levels,
            side,
            limit,
            signer,
            need,
        ).need == need,
    decreases levels.len(),
{
    if levels.len() > 0 && need > 0 {
        let level = levels.first();
        if crosses(side, limit, level.price) {
            let here = fill_queue(level.queue, level.price, signer, need);
            lemma_fill_queue_conserves(level.queue, level.price, signer, need);
            lemma_fill_levels_conserves(levels.drop_first(), side, limit, signer, here.need);
            lemma_filled_concat(
                here.matches,
                fill_levels(levels.drop_first(), side, limit, signer, here.need).matches,
            );
        } else {
            lemma_fill_levels_conserves(levels.drop_first(), side, limit, signer, need);
        }
    }
}

/// Whatever the queue, no match against it is an order of the aggressor's
/// own; every match reports nothing remaining and carries the level's price.
pub proof fn lemma_fill_queue_allowed(
    queue: Seq<PartialOrderView>,
    price: u64,
    signer: Seq<char>,
    need: u64,
)
    ensures
        forall|i: int|
            0 <= i < fill_queue(queue, price, signer, need).matches.len() ==> {
                let m = #[trigger] fill_queue(queue, price, signer, need).matches[i];
                &&& m.signer != signer
                &&& m.remaining == 0
                &&& m.price == price
            },
    decreases queue.len(),
{
    if queue.len() > 0 && need > 0 {
        let head = queue.first();
        let tail = queue.drop_first();
        if head.signer == signer {
            lemma_fill_queue_allowed(tail, price, signer, need);
        } else if head.remaining <= need {
            lemma_fill_queue_allowed(tail, price, signer, (need - head.remaining) as u64);
        }
    }
}

/// Whatever the book, every match of an order is allowed to it: never an
/// order of its own signer, and at a price that its limit crosses.
pub proof fn lemma_fill_levels_allowed(
    levels: Seq<LevelView>,
    side: Side,
    limit: u64,
    signer: Seq<char>,
    need: u64,
)
    ensures
        matches_allowed(fill_levels(levels, side, limit, signer, need).matches, side, limit, signer),
    decreases levels.len(),
{
    if levels.len() > 0 && need > 0 {
        let level = levels.first();
        let tail = levels.drop_first();
        if crosses(side, limit, level.price) {
            let here = fill_queue(level.queue, level.price, signer, need);
            lemma_fill_queue_allowed(level.queue, level.price, signer, need);
            lemma_fill_levels_allowed(tail, side, limit, signer, here.need);
        } else {
            lemma_fill_levels_allowed(tail, side, limit, signer, need);
        }
    }
}

/// Matching against a well-formed queue leaves a well-formed queue within
/// the same ordinals. Every match fills at least one unit of an order of the
/// book's side, and the matches come in the order of their ordinals, which
/// are ordinals of the queue.
pub proof fn lemma_fill_queue_keeps(
    queue: Seq<PartialOrderView>,
    book_side: Side,
    price: u64,
    signer: Seq<char>,
    need: u64,
    low: int,
    high: int,
)
    requires
        queue_ok(queue, book_side, price),
        queue_ordinals_within(queue, low, high),
    ensures
        queue_ok(fill_queue(queue, price, signer, need).rest, book_side, price),
        queue_ordinals_within(fill_queue(queue, price, signer, need).rest, low, high),
        queue_ordinals_within(fill_queue(queue, price, signer, need).matches, low, high),
        forall|i: int|
            0 <= i < fill_queue(queue, price, signer, need).matches.len() ==> {
                let m = #[trigger] fill_queue(queue, price, signer, need).matches[i];
                &&& m.amount > 0
                &&& m.side == book_side
            },
        forall|i: int, j: int|
            0 <= i < j < fill_queue(queue, price, signer, need).matches.len() ==> (
            #[trigger] fill_queue(queue, price, signer, need).matches[i]).ordinal < (
            #[trigger] fill_queue(queue, price, signer, need).matches[j]).ordinal,
    decreases queue.len(),
{
    if queue.len() > 0 && need > 0 {
        let head = queue.first();
        let tail = queue.drop_first();
        if head.signer == signer {
            lemma_fill_queue_keeps(tail, book_side, price, signer, need, head.ordinal as int, high);
        } else if head.remaining <= need {
            let left = (need - head.remaining) as u64;
            lemma_fill_queue_keeps(tail, book_side, price, signer, left, head.ordinal as int, high);
        }
    }
}

/// Matching against a side of well-formed levels leaves well-formed levels
/// within the same prices and ordinals. Every match fills at least one unit
/// of an order of that side, and the matches come by price, then time.
pub proof fn lemma_fill_levels_keeps(
    levels: Seq<LevelView>,
    side: Side,
    limit: u64,
    signer: Seq<char>,
    need: u64,
    low: int,
    high: int,
)
    requires
        levels_ok(levels, opposite(side)),
        prices_above(levels, low),
        ordinals_at_most(levels, high),
    ensures
        levels_ok(fill_levels(levels, side, limit, signer, need).rest, opposite(side)),
        prices_above(fill_levels(levels, side, limit, signer, need).rest, low),
        ordinals_at_most(fill_levels(levels, side, limit, signer, need).rest, high),
        matches_ok(fill_levels(levels, side, limit, signer, need).matches, side, limit, signer),
        priority_ordered(fill_levels(levels, side, limit, signer, need).matches),
        forall|i: int|
            0 <= i < fill_levels(levels, side, limit, signer, need).matches.len() ==> low < (
            #[trigger] fill_levels(levels, side, limit, signer, need).matches[i]).price,
    decreases levels.len(),
{
    if levels.len() > 0 && need > 0 {
        let level = levels.first();
        let tail = levels.drop_first();
        if crosses(side, limit, level.price) {
            let here = fill_queue(level.queue, level.price, signer, need);
            lemma_fill_queue_keeps(level.queue, opposite(side), level.price, signer, need, -1, high);
            lemma_fill_queue_allowed(level.queue, level.price, signer, need);
            lemma_fill_levels_keeps(tail, side, limit, signer, here.need, level.price as int, high);
        } else {
            lemma_fill_levels_keeps(tail, side, limit, signer, need, level.price as int, high);
        }
    }
}

/// Levels stay well formed when an order comes to rest in them whose
/// ordinal is above every ordinal of the side, and no level becomes empty.
pub proof fn lemma_rest_order_keeps(
    levels: Seq<LevelView>,
    side: Side,
    order: PartialOrderView,
    low: int,
    high: int,
)
    requires
        levels_ok(levels, side),
        prices_above(levels, low),
        ordinals_at_most(levels, high),
        resting_ok(order, side, order.price),
        order.price > 0,
        low < order.price,
        high < order.ordinal,
    ensures
        levels_ok(rest_order(levels, order), side),
        prices_above(rest_order(levels, order), low),
        ordinals_at_most(rest_order(levels, order), order.ordinal as int),
        none_empty(levels) ==> none_empty(rest_order(levels, order)),
    decreases levels.len(),
{
    if levels.len() > 0 && levels.first().price < order.price {
        lemma_rest_order_keeps(levels.drop_first(), side, order, levels.first().price as int, high);
    }
}

/// Whatever the levels, none of those that pruning leaves is empty.
pub proof fn lemma_pruned_none_empty(levels: Seq<LevelView>)
    ensures
        none_empty(pruned(levels)),
    decreases levels.len(),
{
    if levels.len() > 0 {
        lemma_pruned_none_empty(levels.drop_first());
    }
}

/// Pruning well-formed levels leaves a well-formed side within the same
/// prices and ordinals.
pub proof fn lemma_pruned_keeps(levels: Seq<LevelView>, side: Side, low: int, high: int)
    requires
        levels_ok(levels, side),
        prices_above(levels, low),
        ordinals_at_most(levels, high),
    ensures
        book_ok(pruned(levels), side),
        prices_above(pruned(levels), low),
        ordinals_at_most(pruned(levels), high),
    decreases levels.len(),
{
    lemma_pruned_none_empty(levels);
    if levels.len() > 0 {
        lemma_pruned_keeps(levels.drop_first(), side, levels.first().price as int, high);
    }
}

} // verus!
