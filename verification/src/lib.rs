//! Cross-venue arbitrage detection: a consolidated, per-venue-attributed order
//! ledger that reports price crossings between venues.
//!
//! - [`ArbitrageFinder`] is the ledger; [`book`] holds its mathematical model
//!   and the laws of that model, [`scan`] the walk that finds crossings.
//! - [`integrations`] holds the normalized order event and, for each venue,
//!   the protocol as a function from state and event to the next state and
//!   what to hand on.
//! - [`orchestrator`] holds what the loop around the ledger decides, and how
//!   a crossing is accounted.
//! - [`fixed_point`] and [`text`] hold the calls that are left to other
//!   crates.

use std::collections::BTreeMap;
use std::collections::HashMap;
use vstd::prelude::*;

pub mod book;
pub mod fixed_point;
pub mod integrations;
pub mod orchestrator;
pub mod scan;
pub mod text;

pub use crate::book::{Book, Candidate, ExchangeId, Price, Quantity};
use crate::book::{
    ask_crossings, bid_crossings, lemma_placed_populated, lemma_withdrawn_populated, placed,
    populated, rests, withdrawn,
};
use crate::fixed_point::is_zero;
use crate::scan::{
    key_of, lemma_priced_placed, lemma_priced_withdrawn, lemma_swept_asks, lemma_swept_bids,
    priced, sweep,
};

verus! {

/// One side of the book as it is stored: price levels in key order, each
/// holding the quantity last reported by every venue resting there.
pub type Side = BTreeMap<Price, HashMap<ExchangeId, Quantity>>;

/// The mathematical content of a stored side.
pub open spec fn book_of(side: Side) -> Book {
    Map::new(|p: Price| side@.contains_key(p), |p: Price| side@[p]@)
}

/// What the ledger objects to.
#[derive(Debug, Clone, Copy, PartialEq, Eq, PartialOrd, Ord, Hash)]
pub enum Error<ExchangeIdT> {
    /// An exchange needlessly stated that a price level was empty.
    ///
    /// This does not signal that the ledger is corrupt, but may indicate
    /// incoming data loss.
    Needless { exchange_id: ExchangeIdT },
}

/// Records `quantity` for `exchange_id` at `price`, creating the level when
/// it does not exist and overwriting what the venue had there before.
pub fn insert(side: &mut Side, price: Price, exchange_id: ExchangeId, quantity: Quantity)
    ensures
        book_of(*final(side)) == placed(book_of(*old(side)), price, exchange_id, quantity),
{
    let mut level = match side.remove(&price) {
        Some(level) => level,
        None => HashMap::new(),
    };
    level.insert(exchange_id, quantity);
    side.insert(price, level);
    assert(book_of(*side) =~= placed(book_of(*old(side)), price, exchange_id, quantity));
}

/// Takes the entry of `exchange_id` at `price` out of `side`, and the level
/// with it when no venue is left there. Reports the removal as needless when
/// the venue had no entry at that price.
pub fn remove_price_from_exchange(side: &mut Side, price: Price, exchange_id: ExchangeId) -> (err:
    Option<Error<ExchangeId>>)
    ensures
        book_of(*final(side)) == withdrawn(book_of(*old(side)), price, exchange_id),
        err == if rests(book_of(*old(side)), price, exchange_id) {
            None
        } else {
            Some(Error::Needless { exchange_id })
        },
{
    match side.remove(&price) {
        None => {
            assert(book_of(*side) =~= book_of(*old(side)));
            Some(Error::Needless { exchange_id })
        },
        Some(level) => {
            let mut level = level;
            let err = match level.remove(&exchange_id) {
                Some(_) => None,
                None => Some(Error::Needless { exchange_id }),
            };
            if !level.is_empty() {
                side.insert(price, level);
            }
            assert(book_of(*side) =~= withdrawn(book_of(*old(side)), price, exchange_id));
            err
        },
    }
}

/// The quantity that `exchange_id` has at `price` in `side`, if it rests
/// there.
fn resting(side: &Side, price: Price, exchange_id: ExchangeId) -> (quantity: Option<Quantity>)
    ensures
        quantity == if rests(book_of(*side), price, exchange_id) {
            Some(book_of(*side)[price][exchange_id])
        } else {
            None
        },
{
    match side.get(&price) {
        Some(level) => match level.get(&exchange_id) {
            Some(quantity) => Some(*quantity),
            None => None,
        },
        None => None,
    }
}

/// Keeps track of arbitrage opportunities across exchanges.
#[derive(Debug, Clone)]
pub struct ArbitrageFinder {
    /// The bids, each level under the complement of its price: a walk in key
    /// order meets the most generous bid first.
    bids: Side,
    /// The asks, each level under its price: a walk in key order meets the
    /// cheapest ask first.
    asks: Side,
}

impl ArbitrageFinder {
    /// The bids that rest in the ledger, by price.
    pub closed spec fn bids(&self) -> Book {
        priced(book_of(self.bids), true)
    }

    /// The asks that rest in the ledger, by price.
    pub closed spec fn asks(&self) -> Book {
        priced(book_of(self.asks), false)
    }

    /// On both sides every price level holds at least one venue, and no
    /// venue rests with a quantity of zero.
    pub open spec fn wf(&self) -> bool {
        populated(self.bids()) && populated(self.asks())
    }

    /// The quantity that `exchange_id` bids at `price`, if it rests there.
    pub fn resting_bid(&self, exchange_id: ExchangeId, price: Price) -> (quantity: Option<
        Quantity,
    >)
        ensures
            quantity == if rests(self.bids(), price, exchange_id) {
                Some(self.bids()[price][exchange_id])
            } else {
                None
            },
    {
        resting(&self.bids, key_of(price, true), exchange_id)
    }

    /// The quantity that `exchange_id` asks at `price`, if it rests there.
    pub fn resting_ask(&self, exchange_id: ExchangeId, price: Price) -> (quantity: Option<
        Quantity,
    >)
        ensures
            quantity == if rests(self.asks(), price, exchange_id) {
                Some(self.asks()[price][exchange_id])
            } else {
                None
            },
    {
        resting(&self.asks, price, exchange_id)
    }

    /// Records that `exchange_id` bids `quantity` at `price`, and returns the
    /// asks of other venues that the bid crosses, the cheapest first. A
    /// quantity of zero withdraws the venue's bid at `price` instead, and
    /// reports the withdrawal as needless when there was none.
    pub fn buy(&mut self, exchange_id: ExchangeId, price: Price, quantity: Quantity) -> (res:
        Result<Vec<Candidate>, Error<ExchangeId>>)
        requires
            old(self).wf(),
        ensures
            final(self).wf(),
            final(self).asks() == old(self).asks(),
            quantity != 0 ==> {
                &&& final(self).bids() == placed(old(self).bids(), price, exchange_id, quantity)
                &&& res matches Ok(found) && ask_crossings(
                    old(self).asks(),
                    exchange_id,
                    price,
                    found@,
                )
            },
            quantity == 0 ==> {
                &&& final(self).bids() == withdrawn(old(self).bids(), price, exchange_id)
                &&& match res {
                    Ok(found) => rests(old(self).bids(), price, exchange_id) && found@.len() == 0,
                    Err(err) => !rests(old(self).bids(), price, exchange_id) && err
                        == (Error::Needless { exchange_id }),
                }
            },
            res matches Ok(found) ==> forall|i: int|
                0 <= i < found@.len() ==> (#[trigger] found@[i]).0 != exchange_id && found@[i].1
                    < price,
    {
        let key = key_of(price, true);
        proof {
            lemma_priced_placed(book_of(self.bids), true, price, exchange_id, quantity);
            lemma_priced_withdrawn(book_of(self.bids), true, price, exchange_id);
            if quantity != 0 {
                lemma_placed_populated(self.bids(), price, exchange_id, quantity);
            }
            lemma_withdrawn_populated(self.bids(), price, exchange_id);
        }
        if !is_zero(quantity) {
            insert(&mut self.bids, key, exchange_id, quantity);
            let found = sweep(&self.asks, price, exchange_id, false);
            proof {
                lemma_swept_asks(book_of(self.asks), exchange_id, price, found@);
                assert forall|i: int| 0 <= i < found@.len() implies (#[trigger] found@[i]).0
                    != exchange_id && found@[i].1 < price by {
                    assert(found@.contains(found@[i]));
                }
            }
            Ok(found)
        } else {
            match remove_price_from_exchange(&mut self.bids, key, exchange_id) {
                Some(err) => Err(err),
                None => Ok(Vec::new()),
            }
        }
    }

    /// Records that `exchange_id` asks `quantity` at `price`, and returns the
    /// bids of other venues that the ask crosses, the most generous first. A
    /// quantity of zero withdraws the venue's ask at `price` instead, and
    /// reports the withdrawal as needless when there was none.
    pub fn sell(&mut self, exchange_id: ExchangeId, price: Price, quantity: Quantity) -> (res:
        Result<Vec<Candidate>, Error<ExchangeId>>)
        requires
            old(self).wf(),
        ensures
            final(self).wf(),
            final(self).bids() == old(self).bids(),
            quantity != 0 ==> {
                &&& final(self).asks() == placed(old(self).asks(), price, exchange_id, quantity)
                &&& res matches Ok(found) && bid_crossings(
                    old(self).bids(),
                    exchange_id,
                    price,
                    found@,
                )
            },
            quantity == 0 ==> {
                &&& final(self).asks() == withdrawn(old(self).asks(), price, exchange_id)
                &&& match res {
                    Ok(found) => rests(old(self).asks(), price, exchange_id) && found@.len() == 0,
                    Err(err) => !rests(old(self).asks(), price, exchange_id) && err
                        == (Error::Needless { exchange_id }),
                }
            },
            res matches Ok(found) ==> forall|i: int|
                0 <= i < found@.len() ==> (#[trigger] found@[i]).0 != exchange_id && found@[i].1
                    > price,
    {
        proof {
            lemma_priced_placed(book_of(self.asks), false, price, exchange_id, quantity);
            lemma_priced_withdrawn(book_of(self.asks), false, price, exchange_id);
            if quantity != 0 {
                lemma_placed_populated(self.asks(), price, exchange_id, quantity);
            }
            lemma_withdrawn_populated(self.asks(), price, exchange_id);
        }
        if !is_zero(quantity) {
            insert(&mut self.asks, price, exchange_id, quantity);
            let found = sweep(&self.bids, key_of(price, true), exchange_id, true);
            proof {
                lemma_swept_bids(book_of(self.bids), exchange_id, price, found@);
                assert forall|i: int| 0 <= i < found@.len() implies (#[trigger] found@[i]).0
                    != exchange_id && found@[i].1 > price by {
                    assert(found@.contains(found@[i]));
                }
            }
            Ok(found)
        } else {
            match remove_price_from_exchange(&mut self.asks, price, exchange_id) {
                Some(err) => Err(err),
                None => Ok(Vec::new()),
            }
        }
    }
}

impl Default for ArbitrageFinder {
    /// A ledger in which nothing rests.
    fn default() -> (finder: Self)
        ensures
            finder.wf(),
            finder.bids() == Map::<Price, Map<ExchangeId, Quantity>>::empty(),
            finder.asks() == Map::<Price, Map<ExchangeId, Quantity>>::empty(),
    {
        let finder = ArbitrageFinder { bids: BTreeMap::new(), asks: BTreeMap::new() };
        assert(finder.bids() =~= Map::<Price, Map<ExchangeId, Quantity>>::empty());
        assert(finder.asks() =~= Map::<Price, Map<ExchangeId, Quantity>>::empty());
        finder
    }
}

} // verus!
