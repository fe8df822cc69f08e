//! The mathematical model of one side of the order book, and what the
//! ledger's operations mean on it.

use crate::integrations::ExchangeMessage;
use vstd::prelude::*;

verus! {

/// Identifies a venue.
pub type ExchangeId = u64;

/// An exact price: the raw bits of an unsigned fixed-point number, so that
/// the order of the bits is the order of the prices.
pub type Price = u64;

/// An exact quantity. Zero never rests in the book: it asks for the removal
/// of a venue's entry.
pub type Quantity = u64;

/// One side of the book: price level to venue to the quantity that the venue
/// reported last.
pub type Book = Map<Price, Map<ExchangeId, Quantity>>;

/// A crossing candidate: the venue that rests, the price it rests at and the
/// quantity it offers there.
pub type Candidate = (ExchangeId, Price, Quantity);

/// The venues resting at `price`; none where the level does not exist.
pub open spec fn level_at(book: Book, price: Price) -> Map<ExchangeId, Quantity> {
    if book.contains_key(price) {
        book[price]
    } else {
        Map::empty()
    }
}

/// Whether `exchange_id` has an entry at `price`.
pub open spec fn rests(book: Book, price: Price, exchange_id: ExchangeId) -> bool {
    book.contains_key(price) && book[price].contains_key(exchange_id)
}

/// The book after `exchange_id` reported `quantity` at `price`: the last
/// report wins, and the level is created when it was missing.
pub open spec fn placed(
    book: Book,
    price: Price,
    exchange_id: ExchangeId,
    quantity: Quantity,
) -> Book {
    book.insert(price, level_at(book, price).insert(exchange_id, quantity))
}

/// The book after the entry of `exchange_id` at `price` was taken out: a level
/// that is left without venues disappears, and a book without the level stays
/// as it is.
pub open spec fn withdrawn(book: Book, price: Price, exchange_id: ExchangeId) -> Book {
    if !book.contains_key(price) {
        book
    } else if book[price].remove(exchange_id) =~= Map::empty() {
        book.remove(price)
    } else {
        book.insert(price, book[price].remove(exchange_id))
    }
}

/// A level is live when at least one venue rests there and no venue rests
/// with a quantity of zero.
pub open spec fn live(level: Map<ExchangeId, Quantity>) -> bool {
    &&& exists|exchange_id: ExchangeId| #[trigger] level.contains_key(exchange_id)
    &&& forall|exchange_id: ExchangeId| #[trigger]
        level.contains_key(exchange_id) ==> level[exchange_id] != 0
}

/// Every price level of the book is live: it holds at least one venue with a
/// quantity that is not zero.
pub open spec fn populated(book: Book) -> bool {
    forall|price: Price| #[trigger] book.contains_key(price) ==> live(book[price])
}

/// Whether `c` is an entry of `book` that belongs to another venue than `own`.
pub open spec fn foreign_entry(book: Book, own: ExchangeId, c: Candidate) -> bool {
    &&& c.0 != own
    &&& book.contains_key(c.1)
    &&& book[c.1].contains_key(c.0)
    &&& book[c.1][c.0] == c.2
}

/// Whether an incoming bid of `own` at `price` crosses the ask `c`: the ask
/// belongs to another venue and is strictly cheaper.
pub open spec fn crosses_ask(asks: Book, own: ExchangeId, price: Price, c: Candidate) -> bool {
    foreign_entry(asks, own, c) && c.1 < price
}

/// Whether an incoming ask of `own` at `price` crosses the bid `c`: the bid
/// belongs to another venue and is strictly more generous.
pub open spec fn crosses_bid(bids: Book, own: ExchangeId, price: Price, c: Candidate) -> bool {
    foreign_entry(bids, own, c) && c.1 > price
}

/// Prices never fall along `s`.
pub open spec fn cheapest_first(s: Seq<Candidate>) -> bool {
    forall|i: int, j: int| 0 <= i < j < s.len() ==> s[i].1 <= s[j].1
}

/// Prices never rise along `s`.
pub open spec fn most_generous_first(s: Seq<Candidate>) -> bool {
    forall|i: int, j: int| 0 <= i < j < s.len() ==> s[i].1 >= s[j].1
}

/// Whether `found` is what an incoming bid of `own` at `price` is shown: each
/// ask that it crosses, once, the cheapest first.
pub open spec fn ask_crossings(
    asks: Book,
    own: ExchangeId,
    price: Price,
    found: Seq<Candidate>,
) -> bool {
    &&& found.no_duplicates()
    &&& forall|c: Candidate| #[trigger] found.contains(c) <==> crosses_ask(asks, own, price, c)
    &&& cheapest_first(found)
}

/// Whether `found` is what an incoming ask of `own` at `price` is shown: each
/// bid that it crosses, once, the most generous first.
pub open spec fn bid_crossings(
    bids: Book,
    own: ExchangeId,
    price: Price,
    found: Seq<Candidate>,
) -> bool {
    &&& found.no_duplicates()
    &&& forall|c: Candidate| #[trigger] found.contains(c) <==> crosses_bid(bids, own, price, c)
    &&& most_generous_first(found)
}

/// Placing a non-zero quantity keeps the book populated.
pub proof fn lemma_placed_populated(
    book: Book,
    price: Price,
    exchange_id: ExchangeId,
    quantity: Quantity,
)
    requires
        populated(book),
        quantity != 0,
    ensures
        populated(placed(book, price, exchange_id, quantity)),
{
    let after = placed(book, price, exchange_id, quantity);
    assert forall|p: Price| #[trigger] after.contains_key(p) implies live(after[p]) by {
        if p == price {
            assert(after[p].contains_key(exchange_id));
            if book.contains_key(price) {
                assert(live(book[price]));
            }
        } else {
            assert(book.contains_key(p));
        }
    }
}

/// Withdrawing an entry keeps the book populated.
pub proof fn lemma_withdrawn_populated(book: Book, price: Price, exchange_id: ExchangeId)
    requires
        populated(book),
    ensures
        populated(withdrawn(book, price, exchange_id)),
{
    let after = withdrawn(book, price, exchange_id);
    assert forall|p: Price| #[trigger] after.contains_key(p) implies live(after[p]) by {
        assert(book.contains_key(p));
        assert(live(book[p]));
        if p == price {
            let left = book[price].remove(exchange_id);
            assert(after[p] == left);
            if forall|e: ExchangeId| !left.contains_key(e) {
                assert(left =~= Map::empty());
            }
        }
    }
}

/// The bids and the asks of a ledger after it took the order event `msg` of
/// the venue `src`: a quantity of zero withdraws, any other is placed, on the
/// side that the event names. The other side stays as it is.
pub open spec fn taken(
    sides: (Book, Book),
    src: ExchangeId,
    msg: ExchangeMessage<Price, Quantity>,
) -> (Book, Book) {
    match msg {
        ExchangeMessage::Buy { price, quantity } => (
            if quantity == 0 {
                withdrawn(sides.0, price, src)
            } else {
                placed(sides.0, price, src, quantity)
            },
            sides.1,
        ),
        ExchangeMessage::Sell { price, quantity } => (
            sides.0,
            if quantity == 0 {
                withdrawn(sides.1, price, src)
            } else {
                placed(sides.1, price, src, quantity)
            },
        ),
    }
}

/// The bids and the asks of a ledger after it took `events` one by one.
pub open spec fn replayed(
    sides: (Book, Book),
    events: Seq<(ExchangeId, ExchangeMessage<Price, Quantity>)>,
) -> (Book, Book)
    decreases events.len(),
{
    if events.len() == 0 {
        sides
    } else {
        taken(replayed(sides, events.drop_last()), events.last().0, events.last().1)
    }
}

/// Whatever order events a ledger takes, and in whatever order, each price
/// level that remains holds at least one venue, and none with a quantity of
/// zero.
pub proof fn lemma_replayed_populated(
    sides: (Book, Book),
    events: Seq<(ExchangeId, ExchangeMessage<Price, Quantity>)>,
)
    requires
        populated(sides.0),
        populated(sides.1),
    ensures
        populated(replayed(sides, events).0),
        populated(replayed(sides, events).1),
    decreases events.len(),
{
    if events.len() > 0 {
        lemma_replayed_populated(sides, events.drop_last());
        let before = replayed(sides, events.drop_last());
        let src = events.last().0;
        match events.last().1 {
            ExchangeMessage::Buy { price, quantity } => {
                lemma_withdrawn_populated(before.0, price, src);
                if quantity != 0 {
                    lemma_placed_populated(before.0, price, src, quantity);
                }
            },
            ExchangeMessage::Sell { price, quantity } => {
                lemma_withdrawn_populated(before.1, price, src);
                if quantity != 0 {
                    lemma_placed_populated(before.1, price, src, quantity);
                }
            },
        }
    }
}

/// The last report wins: of two quantities that a venue reports at one price,
/// only the second is kept.
pub proof fn lemma_last_write_wins(
    book: Book,
    price: Price,
    exchange_id: ExchangeId,
    first: Quantity,
    second: Quantity,
)
    ensures
        placed(placed(book, price, exchange_id, first), price, exchange_id, second) == placed(
            book,
            price,
            exchange_id,
            second,
        ),
{
    assert(placed(placed(book, price, exchange_id, first), price, exchange_id, second) =~= placed(
        book,
        price,
        exchange_id,
        second,
    )) by {
        assert(level_at(book, price).insert(exchange_id, first).insert(exchange_id, second)
            =~= level_at(book, price).insert(exchange_id, second));
    }
}

/// What was placed rests, with the quantity that was given; every other
/// entry of the book is as it was.
pub proof fn lemma_placed_rests(
    book: Book,
    price: Price,
    exchange_id: ExchangeId,
    quantity: Quantity,
    other_price: Price,
    other: ExchangeId,
)
    ensures
        rests(placed(book, price, exchange_id, quantity), price, exchange_id),
        placed(book, price, exchange_id, quantity)[price][exchange_id] == quantity,
        (other_price != price || other != exchange_id) ==> {
            &&& rests(placed(book, price, exchange_id, quantity), other_price, other) == rests(
                book,
                other_price,
                other,
            )
            &&& rests(book, other_price, other) ==> placed(
                book,
                price,
                exchange_id,
                quantity,
            )[other_price][other] == book[other_price][other]
        },
{
}

/// After a withdrawal the venue no longer rests at the price, so a second
/// withdrawal of the same entry finds nothing to take out.
pub proof fn lemma_withdrawn_once(book: Book, price: Price, exchange_id: ExchangeId)
    ensures
        !rests(withdrawn(book, price, exchange_id), price, exchange_id),
        withdrawn(withdrawn(book, price, exchange_id), price, exchange_id) == withdrawn(
            book,
            price,
            exchange_id,
        ),
{
    let once = withdrawn(book, price, exchange_id);
    if once.contains_key(price) {
        assert(once[price].remove(exchange_id) =~= once[price]);
        assert(once.insert(price, once[price]) =~= once);
    }
}

/// What an incoming bid is shown is determined up to the order of the
/// venues that rest at one price: two answers hold the same candidates, and
/// as many.
pub proof fn lemma_ask_crossings_determined(
    asks: Book,
    own: ExchangeId,
    price: Price,
    a: Seq<Candidate>,
    b: Seq<Candidate>,
)
    requires
        ask_crossings(asks, own, price, a),
        ask_crossings(asks, own, price, b),
    ensures
        a.to_set() == b.to_set(),
        a.len() == b.len(),
{
    assert(a.to_set() =~= b.to_set()) by {
        assert forall|c: Candidate| a.to_set().contains(c) == b.to_set().contains(c) by {
            assert(a.contains(c) == b.contains(c));
        }
    }
    a.unique_seq_to_set();
    b.unique_seq_to_set();
}

/// What an incoming ask is shown is determined up to the order of the
/// venues that rest at one price: two answers hold the same candidates, and
/// as many.
pub proof fn lemma_bid_crossings_determined(
    bids: Book,
    own: ExchangeId,
    price: Price,
    a: Seq<Candidate>,
    b: Seq<Candidate>,
)
    requires
        bid_crossings(bids, own, price, a),
        bid_crossings(bids, own, price, b),
    ensures
        a.to_set() == b.to_set(),
        a.len() == b.len(),
{
    assert(a.to_set() =~= b.to_set()) by {
        assert forall|c: Candidate| a.to_set().contains(c) == b.to_set().contains(c) by {
            assert(a.contains(c) == b.contains(c));
        }
    }
    a.unique_seq_to_set();
    b.unique_seq_to_set();
}

/// A venue never crosses its own resting orders.
pub proof fn lemma_no_self_crossing(book: Book, own: ExchangeId, price: Price, c: Candidate)
    ensures
        crosses_ask(book, own, price, c) ==> c.0 != own,
        crosses_bid(book, own, price, c) ==> c.0 != own,
{
}

} // verus!
