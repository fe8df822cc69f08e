use itertools::assert_equal;
use openhedge_arbitrage::{
    insert, remove_price_from_exchange, ArbitrageFinder, Candidate, Error, ExchangeId, Side,
};

const KRAKEN: ExchangeId = 1;
const BINANCE: ExchangeId = 2;
const COINBASE: ExchangeId = 3;

fn assert_empty(found: Vec<Candidate>) {
    assert_equal(found, Vec::<Candidate>::new())
}

fn sorted(mut found: Vec<Candidate>) -> Vec<Candidate> {
    found.sort();
    found
}

#[test]
fn sell_highest_spread_first() {
    let mut arbitrage = ArbitrageFinder::default();
    assert_empty(arbitrage.buy(KRAKEN, 10, 1).unwrap());
    assert_empty(arbitrage.buy(KRAKEN, 20, 1).unwrap());
    assert_empty(arbitrage.buy(KRAKEN, 30, 1).unwrap());
    assert_empty(arbitrage.buy(KRAKEN, 40, 1).unwrap());

    assert_equal(
        arbitrage.sell(BINANCE, 20, 1).unwrap(),
        [(KRAKEN, 40, 1), (KRAKEN, 30, 1)],
    );
}

#[test]
fn buy_highest_spread_first() {
    let mut arbitrage = ArbitrageFinder::default();
    assert_empty(arbitrage.sell(KRAKEN, 10, 1).unwrap());
    assert_empty(arbitrage.sell(KRAKEN, 20, 1).unwrap());
    assert_empty(arbitrage.sell(KRAKEN, 30, 1).unwrap());
    assert_empty(arbitrage.sell(KRAKEN, 40, 1).unwrap());

    assert_equal(
        arbitrage.buy(BINANCE, 30, 1).unwrap(),
        [(KRAKEN, 10, 1), (KRAKEN, 20, 1)],
    );
}

#[test]
fn second_withdrawal_of_a_bid_is_needless() {
    let mut arbitrage = ArbitrageFinder::default();
    assert_empty(arbitrage.buy(KRAKEN, 10, 5).unwrap());
    assert_empty(arbitrage.buy(KRAKEN, 10, 0).unwrap());
    assert_eq!(
        arbitrage.buy(KRAKEN, 10, 0),
        Err(Error::Needless { exchange_id: KRAKEN })
    );
}

#[test]
fn second_withdrawal_of_an_ask_is_needless() {
    let mut arbitrage = ArbitrageFinder::default();
    assert_empty(arbitrage.sell(KRAKEN, 10, 5).unwrap());
    assert_empty(arbitrage.sell(KRAKEN, 10, 0).unwrap());
    assert_eq!(
        arbitrage.sell(KRAKEN, 10, 0),
        Err(Error::Needless { exchange_id: KRAKEN })
    );
}

#[test]
fn withdrawal_from_an_empty_ledger_is_needless() {
    let mut arbitrage = ArbitrageFinder::default();
    assert_eq!(
        arbitrage.buy(BINANCE, 7, 0),
        Err(Error::Needless { exchange_id: BINANCE })
    );
    assert_eq!(
        arbitrage.sell(BINANCE, 7, 0),
        Err(Error::Needless { exchange_id: BINANCE })
    );
}

#[test]
fn withdrawal_of_another_venue_at_a_known_level_is_needless() {
    let mut arbitrage = ArbitrageFinder::default();
    assert_empty(arbitrage.buy(KRAKEN, 10, 5).unwrap());
    assert_eq!(
        arbitrage.buy(BINANCE, 10, 0),
        Err(Error::Needless { exchange_id: BINANCE })
    );
    assert_eq!(arbitrage.resting_bid(KRAKEN, 10), Some(5));
}

#[test]
fn withdrawing_an_ask_leaves_the_bids_alone() {
    let mut arbitrage = ArbitrageFinder::default();
    assert_empty(arbitrage.buy(KRAKEN, 10, 5).unwrap());
    assert_empty(arbitrage.sell(KRAKEN, 10, 7).unwrap());
    assert_empty(arbitrage.sell(KRAKEN, 10, 0).unwrap());
    assert_eq!(arbitrage.resting_bid(KRAKEN, 10), Some(5));
    assert_eq!(arbitrage.resting_ask(KRAKEN, 10), None);
}

#[test]
fn crossing_direction() {
    let mut arbitrage = ArbitrageFinder::default();
    assert_empty(arbitrage.sell(KRAKEN, 90, 5).unwrap());
    assert_empty(arbitrage.sell(KRAKEN, 100, 5).unwrap());
    assert_equal(arbitrage.buy(BINANCE, 95, 3).unwrap(), [(KRAKEN, 90, 5)]);
}

#[test]
fn crossing_is_strict() {
    let mut arbitrage = ArbitrageFinder::default();
    assert_empty(arbitrage.sell(KRAKEN, 90, 5).unwrap());
    assert_empty(arbitrage.buy(BINANCE, 90, 3).unwrap());
    assert_empty(arbitrage.sell(COINBASE, 90, 1).unwrap());
    assert_equal(arbitrage.sell(COINBASE, 89, 1).unwrap(), [(BINANCE, 90, 3)]);
}

#[test]
fn a_venue_never_crosses_itself() {
    let mut arbitrage = ArbitrageFinder::default();
    assert_empty(arbitrage.sell(KRAKEN, 10, 1).unwrap());
    assert_empty(arbitrage.sell(KRAKEN, 20, 1).unwrap());
    assert_empty(arbitrage.buy(KRAKEN, 30, 1).unwrap());
    assert_empty(arbitrage.sell(KRAKEN, 5, 1).unwrap());

    assert_equal(
        arbitrage.sell(BINANCE, 20, 2).unwrap(),
        [(KRAKEN, 30, 1)],
    );
    assert_equal(
        arbitrage.buy(KRAKEN, 30, 1).unwrap(),
        [(BINANCE, 20, 2)],
    );
}

#[test]
fn venues_at_one_level_are_all_found() {
    let mut arbitrage = ArbitrageFinder::default();
    assert_empty(arbitrage.sell(KRAKEN, 10, 1).unwrap());
    assert_empty(arbitrage.sell(BINANCE, 10, 2).unwrap());
    assert_empty(arbitrage.sell(KRAKEN, 12, 3).unwrap());
    assert_empty(arbitrage.sell(BINANCE, 50, 4).unwrap());

    let found = arbitrage.buy(COINBASE, 20, 9).unwrap();
    assert_eq!(found.len(), 3);
    assert_eq!(found[2], (KRAKEN, 12, 3));
    assert_eq!(
        sorted(found),
        vec![(KRAKEN, 10, 1), (KRAKEN, 12, 3), (BINANCE, 10, 2)]
    );
}

#[test]
fn the_last_report_wins() {
    let mut arbitrage = ArbitrageFinder::default();
    assert_empty(arbitrage.sell(KRAKEN, 10, 1).unwrap());
    assert_empty(arbitrage.sell(KRAKEN, 10, 8).unwrap());
    assert_eq!(arbitrage.resting_ask(KRAKEN, 10), Some(8));
    assert_equal(arbitrage.buy(BINANCE, 11, 1).unwrap(), [(KRAKEN, 10, 8)]);
}

#[test]
fn an_emptied_level_disappears() {
    let mut arbitrage = ArbitrageFinder::default();
    assert_empty(arbitrage.sell(KRAKEN, 10, 1).unwrap());
    assert_empty(arbitrage.sell(BINANCE, 10, 2).unwrap());
    assert_empty(arbitrage.sell(KRAKEN, 10, 0).unwrap());
    assert_equal(arbitrage.buy(COINBASE, 11, 1).unwrap(), [(BINANCE, 10, 2)]);
    assert_empty(arbitrage.sell(BINANCE, 10, 0).unwrap());
    assert_empty(arbitrage.buy(COINBASE, 11, 1).unwrap());
    assert_eq!(arbitrage.resting_ask(BINANCE, 10), None);
    assert_eq!(arbitrage.resting_bid(COINBASE, 11), Some(1));
}

#[test]
fn extreme_prices_keep_their_order() {
    let mut arbitrage = ArbitrageFinder::default();
    assert_empty(arbitrage.buy(KRAKEN, u64::MAX, 1).unwrap());
    assert_empty(arbitrage.buy(KRAKEN, 0, 2).unwrap());
    assert_empty(arbitrage.buy(KRAKEN, 1, 3).unwrap());
    assert_equal(
        arbitrage.sell(BINANCE, 0, 1).unwrap(),
        [(KRAKEN, u64::MAX, 1), (KRAKEN, 1, 3)],
    );
    assert_empty(arbitrage.sell(BINANCE, u64::MAX, 1).unwrap());
    assert_equal(
        arbitrage.buy(COINBASE, u64::MAX, 1).unwrap(),
        [(BINANCE, 0, 1)],
    );
}

#[test]
fn insert_creates_and_overwrites() {
    let mut side = Side::new();
    insert(&mut side, 10, KRAKEN, 1);
    insert(&mut side, 10, BINANCE, 2);
    insert(&mut side, 10, KRAKEN, 3);
    insert(&mut side, 20, KRAKEN, 4);
    assert_eq!(side.len(), 2);
    assert_eq!(side[&10].len(), 2);
    assert_eq!(side[&10][&KRAKEN], 3);
    assert_eq!(side[&10][&BINANCE], 2);
    assert_eq!(side[&20][&KRAKEN], 4);
}

#[test]
fn remove_price_from_exchange_drops_empty_levels() {
    let mut side = Side::new();
    insert(&mut side, 10, KRAKEN, 1);
    insert(&mut side, 10, BINANCE, 2);
    assert_eq!(remove_price_from_exchange(&mut side, 10, KRAKEN), None);
    assert_eq!(side[&10].len(), 1);
    assert_eq!(
        remove_price_from_exchange(&mut side, 10, KRAKEN),
        Some(Error::Needless { exchange_id: KRAKEN })
    );
    assert_eq!(side[&10].len(), 1);
    assert_eq!(remove_price_from_exchange(&mut side, 10, BINANCE), None);
    assert!(side.is_empty());
    assert_eq!(
        remove_price_from_exchange(&mut side, 10, BINANCE),
        Some(Error::Needless { exchange_id: BINANCE })
    );
}
