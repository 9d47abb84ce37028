//! Orders, resting orders and receipts, with their mathematical values.

use vstd::prelude::*;

verus! {

/// Simplified side of a position as well as order.
#[derive(Clone, Copy, PartialEq, Eq, Debug, Structural)]
pub enum Side {
    /// Want to buy
    Buy,
    /// Want to sell
    Sell,
}

impl Side {
    /// The side that is written out as `text`, letter for letter: "Buy" or
    /// "Sell".
    pub open spec fn spelled(text: Seq<char>) -> Option<Side> {
        if text == "Buy"@ {
            Some(Side::Buy)
        } else if text == "Sell"@ {
            Some(Side::Sell)
        } else {
            None
        }
    }

    /// The side that is written out as `text`, letter for letter.
    pub fn named(text: &str) -> (side: Option<Side>)
        ensures
            side == Side::spelled(text@),
    {
        let written = text.to_owned();
        if written == String::from_str("Buy") {
            Some(Side::Buy)
        } else if written == String::from_str("Sell") {
            Some(Side::Sell)
        } else {
            None
        }
    }
}

/// An order for a specified symbol to buy or sell an amount at a given price.
#[derive(PartialEq, Eq, Debug)]
pub struct Order {
    /// Max/min price (depending on the side)
    pub price: u64,
    /// Number of units to trade
    pub amount: u64,
    /// The side of the order book (buy or sell)
    pub side: Side,
    /// The account signer
    pub signer: String,
}

/// The mathematical value of an [`Order`].
pub struct OrderView {
    pub price: u64,
    pub amount: u64,
    pub side: Side,
    pub signer: Seq<char>,
}

impl View for Order {
    type V = OrderView;

    open spec fn view(&self) -> OrderView {
        OrderView { price: self.price, amount: self.amount, side: self.side, signer: self.signer@ }
    }
}

impl Clone for Order {
    fn clone(&self) -> (copy: Self)
        ensures
            copy@ == self@,
    {
        Order { price: self.price, amount: self.amount, side: self.side, signer: self.signer.clone() }
    }
}

/// A position represents an unfilled order that is kept in the system for later filling.
#[derive(PartialEq, Eq, Debug)]
pub struct PartialOrder {
    /// Price per unit
    pub price: u64,
    /// Initial number of units in the order
    pub amount: u64,
    /// Remaining number of units after potential matches
    pub remaining: u64,
    /// Buy or sell side of the book
    pub side: Side,
    /// Signer of the order
    pub signer: String,
    /// Sequence number
    pub ordinal: u64,
}

/// The mathematical value of a [`PartialOrder`].
pub struct PartialOrderView {
    pub price: u64,
    pub amount: u64,
    pub remaining: u64,
    pub side: Side,
    pub signer: Seq<char>,
    pub ordinal: u64,
}

impl View for PartialOrder {
    type V = PartialOrderView;

    open spec fn view(&self) -> PartialOrderView {
        PartialOrderView {
            price: self.price,
            amount: self.amount,
            remaining: self.remaining,
            side: self.side,
            signer: self.signer@,
            ordinal: self.ordinal,
        }
    }
}

impl Clone for PartialOrder {
    fn clone(&self) -> (copy: Self)
        ensures
            copy@ == self@,
    {
        PartialOrder {
            price: self.price,
            amount: self.amount,
            remaining: self.remaining,
            side: self.side,
            signer: self.signer.clone(),
            ordinal: self.ordinal,
        }
    }
}

impl Order {
    /// Convert an [`Order`] into a [`PartialOrder`] with the added parameters
    pub fn into_partial_order(self, ordinal: u64, remaining: u64) -> (partial: PartialOrder)
        ensures
            partial@ == self@.as_partial(ordinal, remaining),
    {
        let Order { price, amount, side, signer } = self;
        PartialOrder { price, amount, remaining, side, signer, ordinal }
    }
}

impl OrderView {
    /// The partial order that this order becomes under `ordinal` with
    /// `remaining` units still to fill.
    pub open spec fn as_partial(self, ordinal: u64, remaining: u64) -> PartialOrderView {
        PartialOrderView {
            price: self.price,
            amount: self.amount,
            remaining,
            side: self.side,
            signer: self.signer,
            ordinal,
        }
    }
}

impl PartialOrderView {
    /// This order after `take` of its remaining units have been filled.
    pub open spec fn reduced(self, take: u64) -> PartialOrderView
        recommends
            take <= self.remaining,
    {
        PartialOrderView { remaining: (self.remaining - take) as u64, ..self }
    }

    /// The slice of `take` units that is split off this order at `price`.
    /// It keeps what the reduced order has left.
    pub open spec fn taken(self, take: u64, price: u64) -> PartialOrderView
        recommends
            take <= self.remaining,
    {
        PartialOrderView { amount: take, price, ..self.reduced(take) }
    }

    /// The cash that settles this order as a match: price times amount.
    pub open spec fn notional(self) -> nat {
        (self.price * self.amount) as nat
    }
}

impl PartialOrder {
    /// Splits one [`PartialOrder`] into two by taking a defined `take` amount
    pub fn take_from(pos: &mut PartialOrder, take: u64, price: u64) -> (slice: PartialOrder)
        requires
            take <= old(pos).remaining,
        ensures
            final(pos)@ == old(pos)@.reduced(take),
            slice@ == old(pos)@.taken(take, price),
    {
        pos.remaining -= take;
        let mut new = pos.clone();
        new.amount = take;
        new.price = price;
        new
    }
}

/// A receipt issued to the caller for accepting an [`Order`]
#[derive(PartialEq, Eq, Debug)]
pub struct Receipt {
    /// Sequence number
    pub ordinal: u64,
    /// Matches that happened immediately
    pub matches: Vec<PartialOrder>,
}

/// The mathematical value of a [`Receipt`].
pub struct ReceiptView {
    pub ordinal: u64,
    pub matches: Seq<PartialOrderView>,
}

/// The values of a sequence of partial orders, in the same order.
pub open spec fn order_views(orders: Seq<PartialOrder>) -> Seq<PartialOrderView> {
    orders.map_values(|o: PartialOrder| o@)
}

impl View for Receipt {
    type V = ReceiptView;

    open spec fn view(&self) -> ReceiptView {
        ReceiptView { ordinal: self.ordinal, matches: order_views(self.matches@) }
    }
}

impl Clone for Receipt {
    fn clone(&self) -> (copy: Self)
        ensures
            copy@ == self@,
    {
        let mut matches: Vec<PartialOrder> = Vec::new();
        let mut i: usize = 0;
        while i < self.matches.len()
            invariant
                i <= self.matches.len(),
                order_views(matches@) =~= order_views(self.matches@).take(i as int),
            decreases self.matches.len() - i,
        {
            let ghost copied = order_views(matches@);
            matches.push(self.matches[i].clone());
            assert(order_views(matches@) =~= copied.push(self.matches[i as int]@));
            i += 1;
        }
        assert(order_views(self.matches@).take(i as int) =~= order_views(self.matches@));
        Receipt { ordinal: self.ordinal, matches }
    }
}

/// The values of a sequence of receipts, in the same order.
pub open spec fn receipt_views(receipts: Seq<Receipt>) -> Seq<ReceiptView> {
    receipts.map_values(|r: Receipt| r@)
}

} // verus!
