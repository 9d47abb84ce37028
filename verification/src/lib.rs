//! A ledger of account balances combined with a price/time priority
//! limit-order matching engine for one instrument.
//!
//! [`accounts`] holds the balances, [`matching`] the two sides of the order
//! book, and [`trading_platform`] brings them together: it checks that a
//! seller can back an order, has the engine match it, and settles each match
//! as a transfer from the buyer to the seller.
//!
//! Every function says in its contract what it returns and what it changes,
//! over the mathematical values of the types: a ledger is a map from names
//! to balances, a side of the book a sequence of price levels, a level a
//! queue of resting orders. [`ledger`], [`book`] and [`settlement`] define
//! what a deposit, a matching and a settlement make of these values;
//! [`invariants`], [`signers`] and [`sequences`] prove what holds of them
//! after every order and over any run of orders.
//!
//! [`service`], [`input`] and [`text`] serve the programs around the
//! platform: error bodies for the JSON service, and the reading of what a
//! user typed.

pub mod accounts;
pub mod book;
pub mod errors;
pub mod input;
pub mod invariants;
pub mod ledger;
pub mod matching;
pub mod sequences;
pub mod service;
pub mod settlement;
pub mod signers;
pub mod text;
pub mod trading_platform;
pub mod tx;
pub mod types;
