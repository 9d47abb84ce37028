//! Reading an order from what a user typed: four texts, one for each field.

use crate::text::{number, parse_number, NumberError};
use crate::types::{Order, OrderView, Side};
use vstd::prelude::*;

verus! {

/// Why four texts are no order.
#[derive(Clone, Copy, PartialEq, Eq, Debug, Structural)]
pub enum InputError {
    /// The side is neither "buy" nor "sell".
    UnsupportedSide,
    /// The amount or the price is no number.
    Number(NumberError),
}

impl InputError {
    /// The words that tell the user of this failure.
    pub open spec fn text(self) -> Seq<char> {
        match self {
            InputError::UnsupportedSide => "Unsupported order side"@,
            InputError::Number(NumberError::Empty) => "cannot parse integer from empty string"@,
            InputError::Number(NumberError::InvalidDigit) => "invalid digit found in string"@,
            InputError::Number(NumberError::TooLarge) => "number too large to fit in target type"@,
        }
    }

    /// The words that tell the user of this failure.
    pub fn message(&self) -> (words: String)
        ensures
            words@ == self.text(),
    {
        match self {
            InputError::UnsupportedSide => String::from_str("Unsupported order side"),
            InputError::Number(NumberError::Empty) => String::from_str(
                "cannot parse integer from empty string",
            ),
            InputError::Number(NumberError::InvalidDigit) => String::from_str(
                "invalid digit found in string",
            ),
            InputError::Number(NumberError::TooLarge) => String::from_str(
                "number too large to fit in target type",
            ),
        }
    }
}

/// Whether `text` is the word that `lower` spells in small letters and
/// `upper` in capitals, each letter in either case.
pub open spec fn spells(text: Seq<char>, lower: Seq<char>, upper: Seq<char>) -> bool {
    &&& text.len() == lower.len()
    &&& forall|i: int| 0 <= i < text.len() ==> text[i] == lower[i] || text[i] == upper[i]
}

/// The side that `text` names: "buy" or "sell", in any mix of small letters
/// and capitals.
pub open spec fn side_named(text: Seq<char>) -> Option<Side> {
    if spells(text, "buy"@, "BUY"@) {
        Some(Side::Buy)
    } else if spells(text, "sell"@, "SELL"@) {
        Some(Side::Sell)
    } else {
        None
    }
}

/// The order that the four texts stand for. The side is read first, then
/// the amount, then the price; the first that fails decides the failure.
pub open spec fn order_named(
    account: Seq<char>,
    side: Seq<char>,
    amount: Seq<char>,
    price: Seq<char>,
) -> Result<OrderView, InputError> {
    match side_named(side) {
        None => Err(InputError::UnsupportedSide),
        Some(side) => match number(amount) {
            Err(error) => Err(InputError::Number(error)),
            Ok(amount) => match number(price) {
                Err(error) => Err(InputError::Number(error)),
                Ok(price) => Ok(OrderView { price, amount, side, signer: account }),
            },
        },
    }
}

/// Whether `text` is the word that `lower` and `upper` spell.
fn spells_word(text: &str, lower: &str, upper: &str) -> (same: bool)
    requires
        lower@.len() == upper@.len(),
    ensures
        same == spells(text@, lower@, upper@),
{
    let len = text.unicode_len();
    if len != lower.unicode_len() {
        return false;
    }
    let mut i: usize = 0;
    while i < len
        invariant
            i <= len,
            len == text@.len(),
            len == lower@.len(),
            len == upper@.len(),
            forall|j: int| 0 <= j < i ==> text@[j] == lower@[j] || text@[j] == upper@[j],
        decreases len - i,
    {
        let c = text.get_char(i);
        if c != lower.get_char(i) && c != upper.get_char(i) {
            return false;
        }
        i += 1;
    }
    true
}

/// Reads the side of an order: "buy" or "sell", in any mix of small letters
/// and capitals.
pub fn parse_side(text: &str) -> (result: Result<Side, InputError>)
    ensures
        match side_named(text@) {
            Some(side) => result == Ok::<Side, InputError>(side),
            None => result == Err::<Side, InputError>(InputError::UnsupportedSide),
        },
{
    proof {
        reveal_strlit("buy");
        reveal_strlit("BUY");
        reveal_strlit("sell");
        reveal_strlit("SELL");
    }
    if spells_word(text, "buy", "BUY") {
        Ok(Side::Buy)
    } else if spells_word(text, "sell", "SELL") {
        Ok(Side::Sell)
    } else {
        Err(InputError::UnsupportedSide)
    }
}

/// Reads an order from the four texts that the user typed for it.
pub fn read_order_parameters(account: &str, side: &str, amount: &str, price: &str) -> (result:
    Result<Order, String>)
    ensures
        match order_named(account@, side@, amount@, price@) {
            Ok(order) => result is Ok && result->Ok_0@ == order,
            Err(error) => result is Err && result->Err_0@ == error.text(),
        },
{
    let side = match parse_side(side) {
        Ok(side) => side,
        Err(error) => {
            return Err(error.message());
        },
    };
    let amount = match parse_number(amount) {
        Ok(amount) => amount,
        Err(error) => {
            return Err(InputError::Number(error).message());
        },
    };
    let price = match parse_number(price) {
        Ok(price) => price,
        Err(error) => {
            return Err(InputError::Number(error).message());
        },
    };
    Ok(Order { price, amount, side, signer: account.to_owned() })
}

} // verus!
