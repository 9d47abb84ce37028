use octopus::errors::ApplicationError;
use octopus::trading_platform::TradingPlatform;
use octopus::types::{Order, PartialOrder, Side};

fn platform_with(accounts: &[(&str, u64)]) -> TradingPlatform {
    let mut platform = TradingPlatform::new();
    for (name, amount) in accounts {
        assert!(platform.deposit(name, *amount).is_ok());
    }
    platform
}

fn sell(price: u64, amount: u64, signer: &str) -> Order {
    Order { price, amount, side: Side::Sell, signer: signer.to_string() }
}

fn buy(price: u64, amount: u64, signer: &str) -> Order {
    Order { price, amount, side: Side::Buy, signer: signer.to_string() }
}

fn slice(price: u64, amount: u64, side: Side, signer: &str, ordinal: u64) -> PartialOrder {
    PartialOrder { price, amount, remaining: 0, side, signer: signer.to_string(), ordinal }
}

#[test]
fn partial_match_leaves_one_side() {
    let mut platform = platform_with(&[("ALICE", 100), ("BOB", 100)]);
    let receipt = platform.order(sell(10, 1, "ALICE")).unwrap();
    assert_eq!(receipt.ordinal, 1);
    assert_eq!(receipt.matches, vec![]);
    let receipt = platform.order(buy(10, 2, "BOB")).unwrap();
    assert_eq!(receipt.ordinal, 2);
    assert_eq!(receipt.matches, vec![slice(10, 1, Side::Sell, "ALICE", 1)]);
    assert!(platform.matching_engine.asks.is_empty());
    let bids = platform.matching_engine.bids.orders();
    assert_eq!(bids.len(), 1);
    assert_eq!(bids[0].remaining, 1);
    assert_eq!(platform.balance_of("ALICE"), Ok(&110));
    assert_eq!(platform.balance_of("BOB"), Ok(&90));
}

#[test]
fn exact_full_match_empties_the_book() {
    let mut platform = platform_with(&[("ALICE", 100), ("BOB", 100)]);
    platform.order(sell(10, 2, "ALICE")).unwrap();
    let receipt = platform.order(buy(10, 2, "BOB")).unwrap();
    assert_eq!(receipt.matches, vec![slice(10, 2, Side::Sell, "ALICE", 1)]);
    assert!(platform.orderbook().is_empty());
    assert!(platform.matching_engine.asks.is_empty());
    assert!(platform.matching_engine.bids.is_empty());
    assert_eq!(platform.balance_of("ALICE"), Ok(&120));
    assert_eq!(platform.balance_of("BOB"), Ok(&80));
}

#[test]
fn multi_match_fill_takes_the_earlier_order_first() {
    let mut platform = platform_with(&[("ALICE", 100), ("BOB", 100), ("CHARLIE", 100)]);
    assert_eq!(platform.order(sell(10, 1, "ALICE")).unwrap().ordinal, 1);
    assert_eq!(platform.order(sell(10, 1, "CHARLIE")).unwrap().ordinal, 2);
    let receipt = platform.order(buy(10, 2, "BOB")).unwrap();
    assert_eq!(
        receipt.matches,
        vec![slice(10, 1, Side::Sell, "ALICE", 1), slice(10, 1, Side::Sell, "CHARLIE", 2)]
    );
    assert!(platform.orderbook().is_empty());
    assert_eq!(platform.balance_of("ALICE"), Ok(&110));
    assert_eq!(platform.balance_of("BOB"), Ok(&80));
    assert_eq!(platform.balance_of("CHARLIE"), Ok(&110));
}

#[test]
fn self_match_is_skipped() {
    let mut platform = platform_with(&[("ALICE", 100), ("CHARLIE", 100)]);
    assert_eq!(platform.order(sell(10, 1, "ALICE")).unwrap().ordinal, 1);
    assert_eq!(platform.order(sell(10, 1, "CHARLIE")).unwrap().ordinal, 2);
    let receipt = platform.order(buy(10, 2, "ALICE")).unwrap();
    assert_eq!(receipt.matches, vec![slice(10, 1, Side::Sell, "CHARLIE", 2)]);
    assert_eq!(platform.matching_engine.asks.len(), 1);
    assert_eq!(platform.matching_engine.bids.len(), 1);
    let asks = platform.matching_engine.asks.orders();
    assert_eq!(asks.len(), 1);
    assert_eq!((asks[0].signer.as_str(), asks[0].ordinal, asks[0].remaining), ("ALICE", 1, 1));
    assert_eq!(platform.balance_of("ALICE"), Ok(&90));
    assert_eq!(platform.balance_of("CHARLIE"), Ok(&110));
}

#[test]
fn no_compatible_price_lets_both_rest() {
    let mut platform = platform_with(&[("ALICE", 100), ("BOB", 100)]);
    assert_eq!(platform.order(sell(10, 2, "ALICE")).unwrap().matches, vec![]);
    assert_eq!(platform.order(sell(11, 2, "BOB")).unwrap().matches, vec![]);
    assert_eq!(platform.matching_engine.asks.len(), 2);
    assert!(platform.matching_engine.bids.is_empty());
    let prices: Vec<u64> = platform.orderbook().iter().map(|resting| resting.price).collect();
    assert_eq!(prices, vec![10, 11]);
}

#[test]
fn sell_solvency_precheck_refuses_the_order() {
    let mut platform = platform_with(&[("ALICE", 5)]);
    assert_eq!(
        platform.order(sell(10, 1, "ALICE")),
        Err(ApplicationError::AccountUnderFunded("ALICE".to_string(), 10))
    );
    assert!(platform.orderbook().is_empty());
    assert!(platform.matching_engine.asks.is_empty());
    assert!(platform.matching_engine.bids.is_empty());
    assert_eq!(platform.balance_of("ALICE"), Ok(&5));
}
