//! One side of the order book: price levels in ascending order, each a
//! first-in first-out queue of resting orders.

use crate::types::{order_views, PartialOrder, PartialOrderView, Side};
use vstd::prelude::*;

verus! {

/// What a match of `fill` units of `resting` at `price` reports in a receipt:
/// the filled quantity as its amount, the execution price, nothing remaining.
pub open spec fn matched(resting: PartialOrderView, fill: u64, price: u64) -> PartialOrderView {
    PartialOrderView { price, amount: fill, remaining: 0, ..resting }
}

/// The outcome of matching against one queue or one whole side.
pub struct Fill<Rest> {
    /// The matches, in the order in which resting orders were consumed.
    pub matches: Seq<PartialOrderView>,
    /// What stays in the book.
    pub rest: Rest,
    /// The units of the incoming order that found no counterpart.
    pub need: u64,
}

/// Matches `need` units of an order signed by `signer` against `queue`, head
/// first, at `price`. Orders of `signer` itself stay where they are; every
/// other order is consumed whole while it fits into `need`, and the first
/// that does not fit is reduced and keeps its place.
pub open spec fn fill_queue(
    queue: Seq<PartialOrderView>,
    price: u64,
    signer: Seq<char>,
    need: u64,
) -> Fill<Seq<PartialOrderView>>
    decreases queue.len(),
{
    if queue.len() == 0 || need == 0 {
        Fill { matches: Seq::empty(), rest: queue, need }
    } else {
        let head = queue.first();
        let tail = queue.drop_first();
        if head.signer == signer {
            let later = fill_queue(tail, price, signer, need);
            Fill { matches: later.matches, rest: seq![head] + later.rest, need: later.need }
        } else if head.remaining > need {
            Fill {
                matches: seq![matched(head, need, price)],
                rest: seq![head.reduced(need)] + tail,
                need: 0,
            }
        } else {
            let later = fill_queue(tail, price, signer, (need - head.remaining) as u64);
            Fill {
                matches: seq![matched(head, head.remaining, price)] + later.matches,
                rest: later.rest,
                need: later.need,
            }
        }
    }
}

/// Matches `need` units against `queue` in place and appends the matches to
/// `matches`. Returns the units that found no counterpart.
pub fn match_queue(
    queue: &mut Vec<PartialOrder>,
    price: u64,
    signer: &String,
    need: u64,
    matches: &mut Vec<PartialOrder>,
) -> (left: u64)
    ensures
        order_views(final(queue)@) == fill_queue(order_views(old(queue)@), price, signer@, need).rest,
        order_views(final(matches)@) == order_views(old(matches)@) + fill_queue(
            order_views(old(queue)@),
            price,
            signer@,
            need,
        ).matches,
        left == fill_queue(order_views(old(queue)@), price, signer@, need).need,
{
    let ghost whole = fill_queue(order_views(queue@), price, signer@, need);
    let ghost before = order_views(matches@);
    let mut need = need;
    let mut i: usize = 0;
    assert(order_views(queue@).skip(0) =~= order_views(queue@));
    while i < queue.len() && need > 0
        invariant
            i <= queue.len(),
            whole.matches =~= order_views(matches@).skip(before.len() as int) + fill_queue(
                order_views(queue@).skip(i as int),
                price,
                signer@,
                need,
            ).matches,
            order_views(matches@).take(before.len() as int) =~= before,
            before.len() <= matches@.len(),
            whole.rest =~= order_views(queue@).take(i as int) + fill_queue(
                order_views(queue@).skip(i as int),
                price,
                signer@,
                need,
            ).rest,
            whole.need == fill_queue(order_views(queue@).skip(i as int), price, signer@, need).need,
        decreases queue.len() - i, need,
    {
        let ghost q = order_views(queue@);
        assert(q.skip(i as int).drop_first() =~= q.skip(i as int + 1));
        if queue[i].signer == *signer {
            i += 1;
        } else if queue[i].remaining > need {
            let mut slice = PartialOrder::take_from(&mut queue[i], need, price);
            slice.remaining = 0;
            matches.push(slice);
            need = 0;
        } else {
            let mut pos = queue.remove(i);
            let fill = pos.remaining;
            let mut slice = PartialOrder::take_from(&mut pos, fill, price);
            slice.remaining = 0;
            matches.push(slice);
            assert(order_views(queue@).skip(i as int) =~= q.skip(i as int + 1));
            need = need - fill;
        }
    }
    need
}

/// One price level of a book side.
#[derive(PartialEq, Eq, Debug)]
pub struct Level {
    /// The price that every order of this level rests at.
    pub price: u64,
    /// The resting orders, the earliest first.
    pub orders: Vec<PartialOrder>,
}

/// The mathematical value of a [`Level`].
pub struct LevelView {
    pub price: u64,
    pub queue: Seq<PartialOrderView>,
}

impl View for Level {
    type V = LevelView;

    open spec fn view(&self) -> LevelView {
        LevelView { price: self.price, queue: order_views(self.orders@) }
    }
}

/// The values of a sequence of levels, in the same order.
pub open spec fn level_views(levels: Seq<Level>) -> Seq<LevelView> {
    levels.map_values(|l: Level| l@)
}

/// Whether an order of `side` with limit price `limit` may trade against a
/// level at `price`: a buyer pays at most its limit, a seller takes at least
/// its limit.
pub open spec fn crosses(side: Side, limit: u64, price: u64) -> bool {
    match side {
        Side::Buy => price <= limit,
        Side::Sell => price >= limit,
    }
}

/// Matches `need` units of an order of `side`, limit `limit` and signer
/// `signer` against `levels`, first level first. Only levels that the limit
/// crosses take part; a level that the matching empties stays, empty, until
/// the side is pruned.
pub open spec fn fill_levels(
    levels: Seq<LevelView>,
    side: Side,
    limit: u64,
    signer: Seq<char>,
    need: u64,
) -> Fill<Seq<LevelView>>
    decreases levels.len(),
{
    if levels.len() == 0 || need == 0 {
        Fill { matches: Seq::empty(), rest: levels, need }
    } else {
        let level = levels.first();
        if crosses(side, limit, level.price) {
            let here = fill_queue(level.queue, level.price, signer, need);
            let later = fill_levels(levels.drop_first(), side, limit, signer, here.need);
            Fill {
                matches: here.matches + later.matches,
                rest: seq![LevelView { price: level.price, queue: here.rest }] + later.rest,
                need: later.need,
            }
        } else {
            let later = fill_levels(levels.drop_first(), side, limit, signer, need);
            Fill { matches: later.matches, rest: seq![level] + later.rest, need: later.need }
        }
    }
}

/// The levels that hold an order, in their order.
pub open spec fn pruned(levels: Seq<LevelView>) -> Seq<LevelView>
    decreases levels.len(),
{
    if levels.len() == 0 {
        levels
    } else if levels.first().queue.len() == 0 {
        pruned(levels.drop_first())
    } else {
        seq![levels.first()] + pruned(levels.drop_first())
    }
}

/// The book side after `order` has come to rest in it: appended to the queue
/// of the level at its price, or as a new level before the first level of a
/// higher price.
pub open spec fn rest_order(levels: Seq<LevelView>, order: PartialOrderView) -> Seq<LevelView>
    decreases levels.len(),
{
    if levels.len() == 0 {
        seq![LevelView { price: order.price, queue: seq![order] }]
    } else if levels.first().price == order.price {
        seq![LevelView { price: order.price, queue: levels.first().queue.push(order) }]
            + levels.drop_first()
    } else if levels.first().price > order.price {
        seq![LevelView { price: order.price, queue: seq![order] }] + levels
    } else {
        seq![levels.first()] + rest_order(levels.drop_first(), order)
    }
}

/// All resting orders of a side, level by level, within a level the
/// earliest first.
pub open spec fn resting_orders(levels: Seq<LevelView>) -> Seq<PartialOrderView>
    decreases levels.len(),
{
    if levels.len() == 0 {
        Seq::empty()
    } else {
        resting_orders(levels.drop_last()) + levels.last().queue
    }
}

/// One side of the order book.
#[derive(PartialEq, Eq, Debug)]
pub struct Book {
    /// The price levels of this side.
    pub levels: Vec<Level>,
}

impl View for Book {
    type V = Seq<LevelView>;

    open spec fn view(&self) -> Seq<LevelView> {
        level_views(self.levels@)
    }
}

impl Book {
    /// A side without any order.
    pub fn new() -> (book: Book)
        ensures
            book@ == Seq::<LevelView>::empty(),
    {
        let book = Book { levels: Vec::new() };
        book
    }

    /// The number of price levels.
    pub fn len(&self) -> (n: usize)
        ensures
            n == self@.len(),
    {
        self.levels.len()
    }

    /// Whether this side has no price level.
    pub fn is_empty(&self) -> (empty: bool)
        ensures
            empty == (self@.len() == 0),
    {
        self.levels.len() == 0
    }

    /// Matches `need` units of an order of `side`, limit `limit` and signer
    /// `signer` against this side, appends the matches to `matches` and
    /// returns the units that found no counterpart.
    pub fn fill(
        &mut self,
        side: Side,
        limit: u64,
        signer: &String,
        need: u64,
        matches: &mut Vec<PartialOrder>,
    ) -> (left: u64)
        ensures
            final(self)@ == fill_levels(old(self)@, side, limit, signer@, need).rest,
            order_views(final(matches)@) == order_views(old(matches)@) + fill_levels(
                old(self)@,
                side,
                limit,
                signer@,
                need,
            ).matches,
            left == fill_levels(old(self)@, side, limit, signer@, need).need,
    {
        let ghost whole = fill_levels(self@, side, limit, signer@, need);
        let ghost before = order_views(matches@);
        let mut need = need;
        let mut k: usize = 0;
        assert(self@.skip(0) =~= self@);
        while k < self.levels.len() && need > 0
            invariant
                k <= self.levels.len(),
                before.len() <= matches@.len(),
                order_views(matches@).take(before.len() as int) =~= before,
                whole.matches =~= order_views(matches@).skip(before.len() as int) + fill_levels(
                    self@.skip(k as int),
                    side,
                    limit,
                    signer@,
                    need,
                ).matches,
                whole.rest =~= self@.take(k as int) + fill_levels(
                    self@.skip(k as int),
                    side,
                    limit,
                    signer@,
                    need,
                ).rest,
                whole.need == fill_levels(self@.skip(k as int), side, limit, signer@, need).need,
            decreases self.levels.len() - k,
        {
            let ghost levels = self@;
            let ghost m = order_views(matches@);
            assert(levels.skip(k as int).drop_first() =~= levels.skip(k as int + 1));
            let price = self.levels[k].price;
            let crossing = match side {
                Side::Buy => price <= limit,
                Side::Sell => price >= limit,
            };
            if crossing {
                let ghost here = fill_queue(levels[k as int].queue, price, signer@, need);
                need = match_queue(&mut self.levels[k].orders, price, signer, need, matches);
                assert(order_views(matches@).skip(before.len() as int) =~= m.skip(
                    before.len() as int,
                ) + here.matches);
                assert(self@.skip(k as int + 1) =~= levels.skip(k as int + 1));
            }
            k += 1;
        }
        need
    }

    /// Drops the levels that hold no order.
    pub fn prune(&mut self)
        ensures
            final(self)@ == pruned(old(self)@),
    {
        let ghost whole = pruned(self@);
        let mut k: usize = 0;
        assert(self@.skip(0) =~= self@);
        while k < self.levels.len()
            invariant
                k <= self.levels.len(),
                whole =~= self@.take(k as int) + pruned(self@.skip(k as int)),
            decreases self.levels.len() - k,
        {
            let ghost levels = self@;
            assert(levels.skip(k as int).drop_first() =~= levels.skip(k as int + 1));
            if self.levels[k].orders.len() == 0 {
                self.levels.remove(k);
                assert(self@.skip(k as int) =~= levels.skip(k as int + 1));
            } else {
                k += 1;
            }
        }
    }

    /// Puts `order` to rest on this side: at the tail of the queue of the
    /// level at its price, or as a new level before the first level of a
    /// higher price.
    pub fn rest(&mut self, order: PartialOrder)
        ensures
            final(self)@ == rest_order(old(self)@, order@),
    {
        let ghost levels = self@;
        let mut k: usize = 0;
        assert(levels.skip(0) =~= levels);
        while k < self.levels.len() && self.levels[k].price < order.price
            invariant
                k <= self.levels.len(),
                self@ == levels,
                rest_order(levels, order@) =~= levels.take(k as int) + rest_order(
                    levels.skip(k as int),
                    order@,
                ),
            decreases self.levels.len() - k,
        {
            assert(levels.skip(k as int).drop_first() =~= levels.skip(k as int + 1));
            k += 1;
        }
        if k < self.levels.len() && self.levels[k].price == order.price {
            let ghost queue = levels[k as int].queue;
            self.levels[k].orders.push(order);
            assert(self.levels[k as int]@.queue =~= queue.push(order@));
        } else {
            let price = order.price;
            let mut orders: Vec<PartialOrder> = Vec::new();
            orders.push(order);
            let level = Level { price, orders };
            assert(level@.queue =~= seq![order@]);
            self.levels.insert(k, level);
        }
    }

    /// Copies of all resting orders of this side, level by level, within a
    /// level the earliest first.
    pub fn orders(&self) -> (all: Vec<PartialOrder>)
        ensures
            order_views(all@) == resting_orders(self@),
    {
        let mut all: Vec<PartialOrder> = Vec::new();
        let mut k: usize = 0;
        while k < self.levels.len()
            invariant
                k <= self.levels.len(),
                order_views(all@) =~= resting_orders(self@.take(k as int)),
            decreases self.levels.len() - k,
        {
            let ghost done = order_views(all@);
            let orders = &self.levels[k].orders;
            let mut j: usize = 0;
            while j < orders.len()
                invariant
                    j <= orders.len(),
                    k < self.levels.len(),
                    orders == &self.levels[k as int].orders,
                    order_views(all@) =~= done + order_views(orders@).take(j as int),
                decreases orders.len() - j,
            {
                let ghost copied = order_views(all@);
                all.push(orders[j].clone());
                assert(order_views(all@) =~= copied.push(orders[j as int]@));
                j += 1;
            }
            assert(self@.take(k as int + 1).drop_last() =~= self@.take(k as int));
            k += 1;
        }
        assert(self@.take(k as int) =~= self@);
        all
    }
}

} // verus!
