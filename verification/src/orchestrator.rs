//! What the loop around the ledger decides: what an order event comes to,
//! how a crossing is accounted, and what follows when a source fails or all
//! of them have ended.

use crate::book::{
    crosses_ask, crosses_bid, rests, taken, Book, Candidate, ExchangeId, Price, Quantity,
};
use crate::fixed_point::{checked_mul, product};
use crate::integrations::{AdapterError, ExchangeMessage};
use crate::{ArbitrageFinder, Error};
use vstd::prelude::*;

verus! {

/// What to do when a source ends with an error.
#[derive(Debug, PartialEq, Eq, Clone, Copy)]
pub enum Policy {
    /// Stop everything at the first error.
    FailFast,
    /// Report the error and go on with the sources that are left.
    Continue,
}

/// A crossing as it is reported.
#[derive(Debug, PartialEq, Eq, Clone, Copy)]
pub struct Report {
    /// The venue that bids.
    pub buy: ExchangeId,
    /// The venue that asks.
    pub sell: ExchangeId,
    /// The distance between the two prices.
    pub spread: Price,
    /// The quantity that both orders cover.
    pub quantity: Quantity,
    /// The balance after the crossing was accounted.
    pub new_balance: u64,
}

/// What an order event came to.
#[derive(Debug, PartialEq, Eq, Clone, Copy)]
pub enum Outcome {
    /// The ledger took the event and nothing crosses.
    Quiet,
    /// The venue withdrew an order that the ledger did not hold.
    Needless { exchange_id: ExchangeId },
    /// The event crosses orders of other venues, and `against` is the
    /// best-priced of them. With a report the crossing was accounted; without
    /// one the proceeds do not fit, and the balance stays as it was.
    Crossed { against: Candidate, report: Option<Report> },
}

/// What the loop does next.
#[derive(Debug, PartialEq, Eq, Clone)]
pub enum Action {
    /// Go on with the next item; this is what the event came to.
    Proceed(Outcome),
    /// Report the error of `src`, and go on with the sources that are left.
    Survive { src: ExchangeId, error: AdapterError },
    /// Report the error of `src`, if there is one, and leave with `code`.
    Exit { code: u8, error: Option<(ExchangeId, AdapterError)> },
}

/// The distance between two prices.
pub open spec fn spread_between(a: Price, b: Price) -> Price {
    if a >= b {
        (a - b) as u64
    } else {
        (b - a) as u64
    }
}

/// The quantity that two orders cover together: the smaller one.
pub open spec fn matched(a: Quantity, b: Quantity) -> Quantity {
    if a <= b {
        a
    } else {
        b
    }
}

/// The report of a crossing between an incoming order and a resting one, or
/// nothing where spread times quantity, or the balance with it, does not fit.
pub open spec fn report_of(
    balance: u64,
    buy: ExchangeId,
    sell: ExchangeId,
    incoming: (Price, Quantity),
    resting: (Price, Quantity),
) -> Option<Report> {
    let spread = spread_between(incoming.0, resting.0);
    let quantity = matched(incoming.1, resting.1);
    match product(spread, quantity) {
        Some(proceeds) => if balance + proceeds <= u64::MAX {
            Some(Report { buy, sell, spread, quantity, new_balance: (balance + proceeds) as u64 })
        } else {
            None
        },
        None => None,
    }
}

/// Accounts a crossing between an incoming order and a resting one, each
/// given by its price and quantity: the spread is the distance between the
/// prices, the quantity the smaller of the two, and the balance grows by
/// their product. Returns nothing where the result does not fit.
pub fn settle(
    balance: u64,
    buy: ExchangeId,
    sell: ExchangeId,
    incoming: (Price, Quantity),
    resting: (Price, Quantity),
) -> (report: Option<Report>)
    ensures
        report == report_of(balance, buy, sell, incoming, resting),
{
    let spread = if incoming.0 >= resting.0 {
        incoming.0 - resting.0
    } else {
        resting.0 - incoming.0
    };
    let quantity = if incoming.1 <= resting.1 {
        incoming.1
    } else {
        resting.1
    };
    match checked_mul(spread, quantity) {
        Some(proceeds) => match balance.checked_add(proceeds) {
            Some(new_balance) => Some(Report { buy, sell, spread, quantity, new_balance }),
            None => None,
        },
        None => None,
    }
}

/// Accounting a crossing never lowers the balance, and the report says what
/// was asked of it.
pub proof fn lemma_balance_never_falls(
    balance: u64,
    buy: ExchangeId,
    sell: ExchangeId,
    incoming: (Price, Quantity),
    resting: (Price, Quantity),
)
    ensures
        match report_of(balance, buy, sell, incoming, resting) {
            Some(report) => {
                &&& report.new_balance >= balance
                &&& report.buy == buy
                &&& report.sell == sell
                &&& report.quantity <= incoming.1
                &&& report.quantity <= resting.1
                &&& report.spread + incoming.0 == resting.0 || report.spread + resting.0
                    == incoming.0
            },
            None => true,
        },
{
}

/// Whether `c` is the best an incoming bid of `own` at `price` can cross: an
/// ask of another venue below `price`, and none that it crosses is cheaper.
pub open spec fn best_ask(asks: Book, own: ExchangeId, price: Price, c: Candidate) -> bool {
    &&& crosses_ask(asks, own, price, c)
    &&& forall|o: Candidate| #[trigger] crosses_ask(asks, own, price, o) ==> c.1 <= o.1
}

/// Whether `c` is the best an incoming ask of `own` at `price` can cross: a
/// bid of another venue above `price`, and none that it crosses is more
/// generous.
pub open spec fn best_bid(bids: Book, own: ExchangeId, price: Price, c: Candidate) -> bool {
    &&& crosses_bid(bids, own, price, c)
    &&& forall|o: Candidate| #[trigger] crosses_bid(bids, own, price, o) ==> c.1 >= o.1
}

/// The balance after an order event came to `outcome`.
pub open spec fn balance_after(balance: u64, outcome: Outcome) -> u64 {
    match outcome {
        Outcome::Crossed { report: Some(report), .. } => report.new_balance,
        _ => balance,
    }
}

/// Whether `outcome` is what a bid of `src` comes to on a ledger that held
/// `bids` and `asks`, at `balance`.
pub open spec fn bid_outcome(
    bids: Book,
    asks: Book,
    balance: u64,
    src: ExchangeId,
    price: Price,
    quantity: Quantity,
    outcome: Outcome,
) -> bool {
    match outcome {
        Outcome::Quiet => if quantity == 0 {
            rests(bids, price, src)
        } else {
            forall|c: Candidate| !crosses_ask(asks, src, price, c)
        },
        Outcome::Needless { exchange_id } => quantity == 0 && !rests(bids, price, src)
            && exchange_id == src,
        Outcome::Crossed { against, report } => quantity != 0 && best_ask(
            asks,
            src,
            price,
            against,
        ) && report == report_of(
            balance,
            src,
            against.0,
            (price, quantity),
            (against.1, against.2),
        ),
    }
}

/// Whether `outcome` is what an ask of `src` comes to on a ledger that held
/// `bids` and `asks`, at `balance`.
pub open spec fn ask_outcome(
    bids: Book,
    asks: Book,
    balance: u64,
    src: ExchangeId,
    price: Price,
    quantity: Quantity,
    outcome: Outcome,
) -> bool {
    match outcome {
        Outcome::Quiet => if quantity == 0 {
            rests(asks, price, src)
        } else {
            forall|c: Candidate| !crosses_bid(bids, src, price, c)
        },
        Outcome::Needless { exchange_id } => quantity == 0 && !rests(asks, price, src)
            && exchange_id == src,
        Outcome::Crossed { against, report } => quantity != 0 && best_bid(
            bids,
            src,
            price,
            against,
        ) && report == report_of(
            balance,
            against.0,
            src,
            (price, quantity),
            (against.1, against.2),
        ),
    }
}

/// What the loop does when the source `src` ends with `error`: it leaves
/// with code 1 under `FailFast`, and goes on under `Continue`.
pub open spec fn on_failure(policy: Policy, src: ExchangeId, error: AdapterError) -> Action {
    match policy {
        Policy::FailFast => Action::Exit { code: 1, error: Some((src, error)) },
        Policy::Continue => Action::Survive { src, error },
    }
}

/// The ledger with the running balance, and the policy on failing sources.
#[derive(Debug, Clone)]
pub struct Orchestrator {
    pub finder: ArbitrageFinder,
    pub balance: u64,
    pub policy: Policy,
}

/// Whether `after` and `outcome` are what the order event `msg` of the venue
/// `src` makes of `before`: the ledger takes the event on its side, the other
/// side stays, and the balance follows the outcome.
pub open spec fn takes(
    before: Orchestrator,
    after: Orchestrator,
    src: ExchangeId,
    msg: ExchangeMessage<Price, Quantity>,
    outcome: Outcome,
) -> bool {
    &&& after.policy == before.policy
    &&& after.balance == balance_after(before.balance, outcome)
    &&& (after.finder.bids(), after.finder.asks()) == taken(
        (before.finder.bids(), before.finder.asks()),
        src,
        msg,
    )
    &&& match msg {
        ExchangeMessage::Buy { price, quantity } => bid_outcome(
            before.finder.bids(),
            before.finder.asks(),
            before.balance,
            src,
            price,
            quantity,
            outcome,
        ),
        ExchangeMessage::Sell { price, quantity } => ask_outcome(
            before.finder.bids(),
            before.finder.asks(),
            before.balance,
            src,
            price,
            quantity,
            outcome,
        ),
    }
}

impl Orchestrator {
    /// An empty ledger and a balance of zero.
    pub fn new(policy: Policy) -> (fresh: Self)
        ensures
            fresh.finder.wf(),
            fresh.finder.bids() == Map::<Price, Map<ExchangeId, Quantity>>::empty(),
            fresh.finder.asks() == Map::<Price, Map<ExchangeId, Quantity>>::empty(),
            fresh.balance == 0,
            fresh.policy == policy,
    {
        Orchestrator { finder: ArbitrageFinder::default(), balance: 0, policy }
    }

    /// Feeds one order event of the venue `src` to the ledger. Where the event
    /// crosses orders of other venues, the best-priced of them is accounted:
    /// the balance grows by spread times matched quantity. Deeper levels are
    /// not looked at.
    pub fn on_message(
        &mut self,
        src: ExchangeId,
        msg: ExchangeMessage<Price, Quantity>,
    ) -> (outcome: Outcome)
        requires
            old(self).finder.wf(),
        ensures
            final(self).finder.wf(),
            takes(*old(self), *final(self), src, msg, outcome),
    {
        match msg {
            ExchangeMessage::Buy { price, quantity } => {
                match self.finder.buy(src, price, quantity) {
                    Err(Error::Needless { exchange_id }) => Outcome::Needless { exchange_id },
                    Ok(found) => {
                        if found.len() == 0 {
                            assert forall|c: Candidate| quantity != 0 implies !crosses_ask(
                                old(self).finder.asks(),
                                src,
                                price,
                                c,
                            ) by {
                                assert(!found@.contains(c));
                            }
                            Outcome::Quiet
                        } else {
                            let against = found[0];
                            proof {
                                assert(found@.contains(against));
                                assert forall|o: Candidate| #[trigger]
                                    crosses_ask(
                                        old(self).finder.asks(),
                                        src,
                                        price,
                                        o,
                                    ) implies against.1 <= o.1 by {
                                    assert(found@.contains(o));
                                    let j = choose|j: int| 0 <= j < found@.len() && found@[j] == o;
                                    assert(found@[0].1 <= found@[j].1);
                                }
                            }
                            let report = settle(
                                self.balance,
                                src,
                                against.0,
                                (price, quantity),
                                (against.1, against.2),
                            );
                            if let Some(accounted) = report {
                                self.balance = accounted.new_balance;
                            }
                            Outcome::Crossed { against, report }
                        }
                    },
                }
            },
            ExchangeMessage::Sell { price, quantity } => {
                match self.finder.sell(src, price, quantity) {
                    Err(Error::Needless { exchange_id }) => Outcome::Needless { exchange_id },
                    Ok(found) => {
                        if found.len() == 0 {
                            assert forall|c: Candidate| quantity != 0 implies !crosses_bid(
                                old(self).finder.bids(),
                                src,
                                price,
                                c,
                            ) by {
                                assert(!found@.contains(c));
                            }
                            Outcome::Quiet
                        } else {
                            let against = found[0];
                            proof {
                                assert(found@.contains(against));
                                assert forall|o: Candidate| #[trigger]
                                    crosses_bid(
                                        old(self).finder.bids(),
                                        src,
                                        price,
                                        o,
                                    ) implies against.1 >= o.1 by {
                                    assert(found@.contains(o));
                                    let j = choose|j: int| 0 <= j < found@.len() && found@[j] == o;
                                    assert(found@[0].1 >= found@[j].1);
                                }
                            }
                            let report = settle(
                                self.balance,
                                against.0,
                                src,
                                (price, quantity),
                                (against.1, against.2),
                            );
                            if let Some(accounted) = report {
                                self.balance = accounted.new_balance;
                            }
                            Outcome::Crossed { against, report }
                        }
                    },
                }
            },
        }
    }

    /// Decides what the loop does with `next`, the next item of the merged
    /// sources, `None` standing for the end of all of them. An order event
    /// goes to the ledger. An error ends everything under `FailFast` and is
    /// survived under `Continue`. When every source has ended, the loop
    /// leaves. Leaving is always with code 1.
    pub fn turn(
        &mut self,
        next: Option<(ExchangeId, Result<ExchangeMessage<Price, Quantity>, AdapterError>)>,
    ) -> (action: Action)
        requires
            old(self).finder.wf(),
        ensures
            final(self).finder.wf(),
            match next {
                None => *final(self) == *old(self) && action == (Action::Exit {
                    code: 1,
                    error: None,
                }),
                Some((src, Err(error))) => {
                    &&& *final(self) == *old(self)
                    &&& action == on_failure(old(self).policy, src, error)
                },
                Some((src, Ok(msg))) => match action {
                    Action::Proceed(outcome) => takes(*old(self), *final(self), src, msg, outcome),
                    _ => false,
                },
            },
    {
        match next {
            None => Action::Exit { code: 1, error: None },
            Some((src, Err(error))) => match self.policy {
                Policy::FailFast => Action::Exit { code: 1, error: Some((src, error)) },
                Policy::Continue => Action::Survive { src, error },
            },
            Some((src, Ok(msg))) => Action::Proceed(self.on_message(src, msg)),
        }
    }
}

} // verus!
