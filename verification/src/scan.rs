//! Walking one stored side of the book in key order and collecting the
//! entries of other venues.

use crate::book::{
    ask_crossings, bid_crossings, foreign_entry, placed, rests, withdrawn, Book, Candidate,
    ExchangeId, Price, Quantity,
};
use std::collections::BTreeMap;
use std::collections::HashMap;
use vstd::prelude::*;
use vstd::std_specs::cmp::OrdSpec;
use vstd::std_specs::iter::IteratorSpec;

verus! {

/// The candidates that a walk over `entries`, the venues of one level, hands
/// out: every entry of another venue than `own`, tagged with `price`, in the
/// order of the walk.
spec fn chosen(
    entries: Seq<(ExchangeId, Quantity)>,
    price: Price,
    own: ExchangeId,
) -> Seq<Candidate>
    decreases entries.len(),
{
    if entries.len() == 0 {
        Seq::empty()
    } else {
        let before = chosen(entries.drop_last(), price, own);
        let e = entries.last();
        if e.0 != own {
            before.push((e.0, price, e.1))
        } else {
            before
        }
    }
}

/// Whether `picked` is what one level hands out: each entry of `level` that
/// belongs to another venue than `own`, once, tagged with `price`.
pub open spec fn level_picks(
    level: Map<ExchangeId, Quantity>,
    price: Price,
    own: ExchangeId,
    picked: Seq<Candidate>,
) -> bool {
    &&& picked.no_duplicates()
    &&& forall|c: Candidate| #[trigger]
        picked.contains(c) <==> c.1 == price && c.0 != own && level.contains_key(c.0) && level[c.0]
            == c.2
}

proof fn lemma_chosen_members(entries: Seq<(ExchangeId, Quantity)>, price: Price, own: ExchangeId)
    ensures
        forall|c: Candidate| #[trigger]
            chosen(entries, price, own).contains(c) <==> c.1 == price && c.0 != own
                && entries.contains((c.0, c.2)),
    decreases entries.len(),
{
    if entries.len() > 0 {
        let front = entries.drop_last();
        let e = entries.last();
        lemma_chosen_members(front, price, own);
        let before = chosen(front, price, own);
        let all = chosen(entries, price, own);
        assert forall|c: Candidate| #[trigger] all.contains(c) <==> c.1 == price && c.0 != own
            && entries.contains((c.0, c.2)) by {
            if all.contains(c) {
                let i = choose|i: int| 0 <= i < all.len() && all[i] == c;
                if i < before.len() {
                    assert(before[i] == c);
                    assert(before.contains(c));
                    let j = choose|j: int| 0 <= j < front.len() && front[j] == (c.0, c.2);
                    assert(entries[j] == (c.0, c.2));
                } else {
                    assert(entries[entries.len() - 1] == (c.0, c.2));
                }
            }
            if c.1 == price && c.0 != own && entries.contains((c.0, c.2)) {
                let j = choose|j: int| 0 <= j < entries.len() && entries[j] == (c.0, c.2);
                if j < front.len() {
                    assert(front[j] == (c.0, c.2));
                    assert(front.contains((c.0, c.2)));
                    assert(before.contains(c));
                    let i = choose|i: int| 0 <= i < before.len() && before[i] == c;
                    assert(all[i] == c);
                } else {
                    assert(all[all.len() - 1] == c);
                }
            }
        }
    }
}

proof fn lemma_chosen_distinct(entries: Seq<(ExchangeId, Quantity)>, price: Price, own: ExchangeId)
    requires
        forall|i: int, j: int|
            0 <= i < j < entries.len() ==> (#[trigger] entries[i]).0 != (#[trigger] entries[j]).0,
    ensures
        chosen(entries, price, own).no_duplicates(),
    decreases entries.len(),
{
    if entries.len() > 0 {
        let front = entries.drop_last();
        let e = entries.last();
        lemma_chosen_distinct(front, price, own);
        lemma_chosen_members(front, price, own);
        let before = chosen(front, price, own);
        if e.0 != own {
            let c = (e.0, price, e.1);
            if before.contains(c) {
                let j = choose|j: int| 0 <= j < front.len() && front[j] == (c.0, c.2);
                assert(entries[j].0 == entries[entries.len() - 1].0);
            }
            assert forall|i: int, j: int|
                0 <= i < before.push(c).len() && 0 <= j < before.push(c).len() && i
                    != j implies before.push(c)[i] != before.push(c)[j] by {
                if i == before.len() {
                    assert(before.contains(before[j]));
                } else if j == before.len() {
                    assert(before.contains(before[i]));
                }
            }
        }
    }
}

/// Appends to `out` what `level` hands out against `own` at `price`.
pub fn collect_level(
    level: &HashMap<ExchangeId, Quantity>,
    price: Price,
    own: ExchangeId,
    out: &mut Vec<Candidate>,
)
    ensures
        final(out)@.len() >= old(out)@.len(),
        final(out)@.take(old(out)@.len() as int) == old(out)@,
        level_picks(level@, price, own, final(out)@.skip(old(out)@.len() as int)),
{
    let ghost base = out@;
    for (venue, quantity) in iter: level.iter()
        invariant
            out@ == base + chosen(iter.seq().unref().take(iter.index()), price, own),
    {
        let ghost entries = iter.seq().unref();
        let ghost seen = iter.index();
        assert(entries.take(seen + 1).drop_last() =~= entries.take(seen));
        assert(entries.take(seen + 1).last() == (*venue, *quantity));
        if *venue != own {
            out.push((*venue, price, *quantity));
            assert(out@ =~= base + chosen(entries.take(seen + 1), price, own));
        }
    }
    proof {
        let full = level.iter().remaining();
        let entries = full.unref();
        assert(entries.take(entries.len() as int) =~= entries);
        let picked = chosen(entries, price, own);
        assert(out@.take(base.len() as int) =~= base);
        assert(out@.skip(base.len() as int) =~= picked);
        assert forall|i: int, j: int| 0 <= i < j < entries.len() implies (#[trigger] entries[i]).0
            != (#[trigger] entries[j]).0 by {
            if entries[i].0 == entries[j].0 {
                assert(level@[*full[i].0] == *full[i].1);
                assert(level@[*full[j].0] == *full[j].1);
                assert(full[i] == full[j]);
            }
        }
        lemma_chosen_distinct(entries, price, own);
        lemma_chosen_members(entries, price, own);
        assert forall|c: Candidate| #[trigger]
            picked.contains(c) <==> c.1 == price && c.0 != own && level@.contains_key(c.0)
                && level@[c.0] == c.2 by {
            if entries.contains((c.0, c.2)) {
                let n = choose|n: int| 0 <= n < entries.len() && entries[n] == (c.0, c.2);
                assert(level@.contains_key(*full[n].0));
            }
            if level@.contains_key(c.0) && level@[c.0] == c.2 {
                assert(full.contains((&c.0, &level@[c.0])));
                let n = choose|n: int| 0 <= n < full.len() && full[n] == (&c.0, &level@[c.0]);
                assert(entries[n] == (c.0, c.2));
            }
        }
    }
}

/// The price that a stored key stands for. Asks are keyed by their price.
/// Bids are keyed by the complement of their price, so that a walk in key
/// order meets the most generous bid first.
pub open spec fn price_of(key: Price, mirrored: bool) -> Price {
    if mirrored {
        (u64::MAX - key) as u64
    } else {
        key
    }
}

/// The key under which a price is stored, and the price that a key stands
/// for: the two directions are the same map.
pub fn key_of(price: Price, mirrored: bool) -> (key: Price)
    ensures
        key == price_of(price, mirrored),
        price_of(key, mirrored) == price,
{
    if mirrored {
        u64::MAX - price
    } else {
        price
    }
}

/// The content of a stored side with every key replaced by the price it
/// stands for.
pub open spec fn priced(keyed: Book, mirrored: bool) -> Book {
    Map::new(
        |p: Price| keyed.contains_key(price_of(p, mirrored)),
        |p: Price| keyed[price_of(p, mirrored)],
    )
}

/// Whether `out` holds, once each and in key order, exactly the entries of
/// other venues than `own` whose key lies below `limit`.
pub open spec fn swept(
    keyed: Book,
    own: ExchangeId,
    mirrored: bool,
    limit: int,
    out: Seq<Candidate>,
) -> bool {
    &&& out.no_duplicates()
    &&& forall|c: Candidate| #[trigger]
        out.contains(c) <==> foreign_entry(priced(keyed, mirrored), own, c) && price_of(
            c.1,
            mirrored,
        ) < limit
    &&& forall|a: int, b: int|
        0 <= a < b < out.len() ==> price_of(out[a].1, mirrored) <= price_of(out[b].1, mirrored)
}

proof fn lemma_swept_extend(
    keyed: Book,
    own: ExchangeId,
    mirrored: bool,
    key: Price,
    next: int,
    out: Seq<Candidate>,
    picked: Seq<Candidate>,
)
    requires
        swept(keyed, own, mirrored, key as int, out),
        keyed.contains_key(key),
        level_picks(keyed[key], price_of(key, mirrored), own, picked),
        key < next,
        forall|k: Price| keyed.contains_key(k) ==> !(key < k < next),
    ensures
        swept(keyed, own, mirrored, next, out + picked),
{
    let all = out + picked;
    let book = priced(keyed, mirrored);
    assert forall|i: int| 0 <= i < picked.len() implies price_of(
        (#[trigger] picked[i]).1,
        mirrored,
    ) == key by {
        assert(picked.contains(picked[i]));
    }
    assert forall|i: int| 0 <= i < out.len() implies price_of((#[trigger] out[i]).1, mirrored)
        < key by {
        assert(out.contains(out[i]));
    }
    assert forall|i: int, j: int| 0 <= i < all.len() && 0 <= j < all.len() && i != j implies all[i]
        != all[j] by {
        if i < out.len() && j < out.len() {
        } else if i >= out.len() && j >= out.len() {
            assert(picked[i - out.len()] != picked[j - out.len()]);
        } else if i < out.len() {
            assert(all[j] == picked[j - out.len()]);
        } else {
            assert(all[i] == picked[i - out.len()]);
        }
    }
    assert forall|c: Candidate| #[trigger]
        all.contains(c) <==> foreign_entry(book, own, c) && price_of(c.1, mirrored) < next by {
        if all.contains(c) {
            let i = choose|i: int| 0 <= i < all.len() && all[i] == c;
            if i < out.len() {
                assert(out.contains(c));
            } else {
                assert(picked[i - out.len()] == c);
                assert(picked.contains(c));
            }
        }
        if foreign_entry(book, own, c) && price_of(c.1, mirrored) < next {
            let k = price_of(c.1, mirrored);
            if k < key {
                assert(out.contains(c));
                let i = choose|i: int| 0 <= i < out.len() && out[i] == c;
                assert(all[i] == c);
            } else {
                assert(k == key);
                assert(picked.contains(c));
                let i = choose|i: int| 0 <= i < picked.len() && picked[i] == c;
                assert(all[out.len() + i] == c);
            }
        }
    }
    assert forall|a: int, b: int| 0 <= a < b < all.len() implies price_of(all[a].1, mirrored)
        <= price_of(all[b].1, mirrored) by {
        if b < out.len() {
        } else if a >= out.len() {
            assert(all[a] == picked[a - out.len()]);
            assert(all[b] == picked[b - out.len()]);
        } else {
            assert(all[a] == out[a]);
            assert(all[b] == picked[b - out.len()]);
        }
    }
}

/// Whether `levels` is a walk over `side` in key order: every pair is a key
/// of the side with its level, the keys rise strictly, and no key of the
/// side is missing.
spec fn in_key_order(
    side: Map<Price, HashMap<ExchangeId, Quantity>>,
    levels: Seq<(Price, HashMap<ExchangeId, Quantity>)>,
) -> bool {
    &&& forall|n: int|
        0 <= n < levels.len() ==> side.contains_key((#[trigger] levels[n]).0) && side[levels[n].0]
            == levels[n].1
    &&& forall|a: int, b: int|
        0 <= a < b < levels.len() ==> (#[trigger] levels[a]).0 < (#[trigger] levels[b]).0
    &&& forall|k: Price|
        side.contains_key(k) ==> exists|n: int|
            0 <= n < levels.len() && (#[trigger] levels[n]).0 == k
}

/// The key up to which a walk that stands at `at` has swept the side: the
/// key it stands at while that lies below `bound`, and `bound` once the walk
/// has reached it or is over.
spec fn frontier(
    levels: Seq<(Price, HashMap<ExchangeId, Quantity>)>,
    at: int,
    bound: Price,
) -> int {
    if 0 <= at < levels.len() && levels[at].0 < bound {
        levels[at].0 as int
    } else {
        bound as int
    }
}

proof fn lemma_walk_in_key_order(
    side: &BTreeMap<Price, HashMap<ExchangeId, Quantity>>,
    full: Seq<(&Price, &HashMap<ExchangeId, Quantity>)>,
)
    requires
        full == side.iter().remaining(),
        vstd::std_specs::btree::increasing_seq(
            full.map_values(|kv: (&Price, &HashMap<ExchangeId, Quantity>)| *kv.0),
        ),
    ensures
        in_key_order(side@, full.unref()),
{
    let levels = full.unref();
    let keys = full.map_values(|kv: (&Price, &HashMap<ExchangeId, Quantity>)| *kv.0);
    assert forall|a: int, b: int| 0 <= a < b < levels.len() implies (#[trigger] levels[a]).0 < (
    #[trigger] levels[b]).0 by {
        assert(keys[a] == levels[a].0);
        assert(keys[b] == levels[b].0);
        assert(keys[a].cmp_spec(&keys[b]) == std::cmp::Ordering::Less);
    }
    assert forall|n: int| 0 <= n < levels.len() implies side@.contains_key(
        (#[trigger] levels[n]).0,
    ) && side@[levels[n].0] == levels[n].1 by {
        assert(side@.contains_key(*full[n].0));
    }
    assert forall|k: Price| side@.contains_key(k) implies exists|n: int|
        0 <= n < levels.len() && (#[trigger] levels[n]).0 == k by {
        assert(full.contains((&k, &side@[k])));
        let n = choose|n: int| 0 <= n < full.len() && full[n] == (&k, &side@[k]);
        assert(levels[n].0 == k);
    }
}

/// Walks `side` in key order and returns the entries of other venues than
/// `own` whose key lies below `bound`, each with the price its key stands for.
pub fn sweep(
    side: &BTreeMap<Price, HashMap<ExchangeId, Quantity>>,
    bound: Price,
    own: ExchangeId,
    mirrored: bool,
) -> (out: Vec<Candidate>)
    ensures
        swept(crate::book_of(*side), own, mirrored, bound as int, out@),
{
    let mut out: Vec<Candidate> = Vec::new();
    let ghost keyed = crate::book_of(*side);
    let walk = side.iter();
    proof {
        lemma_walk_in_key_order(side, walk.remaining());
        let levels = walk.remaining().unref();
        if levels.len() > 0 {
            assert(keyed.contains_key(levels[0].0));
        }
        assert forall|c: Candidate|
            !(foreign_entry(priced(keyed, mirrored), own, c) && price_of(c.1, mirrored) < frontier(
                levels,
                0,
                bound,
            )) by {
            let k = price_of(c.1, mirrored);
            if keyed.contains_key(k) && k < frontier(levels, 0, bound) {
                let n = choose|n: int| 0 <= n < levels.len() && (#[trigger] levels[n]).0 == k;
                if n > 0 {
                    assert(levels[0].0 < levels[n].0);
                }
            }
        }
    }
    for (key, level) in iter: walk
        invariant_except_break
            swept(keyed, own, mirrored, frontier(iter.seq().unref(), iter.index(), bound), out@),
        invariant
            keyed == crate::book_of(*side),
            in_key_order(side@, iter.seq().unref()),
        ensures
            swept(keyed, own, mirrored, bound as int, out@),
    {
        let ghost levels = iter.seq().unref();
        let ghost at = iter.index();
        assert(levels[at] == (*key, *level));
        if *key >= bound {
            break ;
        }
        let ghost before = out@;
        collect_level(level, key_of(*key, mirrored), own, &mut out);
        proof {
            let picked = out@.skip(before.len() as int);
            assert(out@ =~= before + picked);
            let next = frontier(levels, at + 1, bound);
            assert(keyed[*key] == level@);
            assert forall|k: Price| keyed.contains_key(k) implies !(*key < k < next) by {
                if *key < k < next {
                    let n = choose|n: int| 0 <= n < levels.len() && (#[trigger] levels[n]).0 == k;
                    if n <= at {
                        if n < at {
                            assert(levels[n].0 < levels[at].0);
                        }
                    } else {
                        if at + 1 < n {
                            assert(levels[at + 1].0 < levels[n].0);
                        }
                    }
                }
            }
            if at + 1 < levels.len() {
                assert(levels[at].0 < levels[at + 1].0);
            }
            lemma_swept_extend(keyed, own, mirrored, *key, next, before, picked);
        }
    }
    out
}

/// Placing under a key is placing at the price that the key stands for.
pub proof fn lemma_priced_placed(
    keyed: Book,
    mirrored: bool,
    price: Price,
    exchange_id: ExchangeId,
    quantity: Quantity,
)
    ensures
        priced(placed(keyed, price_of(price, mirrored), exchange_id, quantity), mirrored) == placed(
            priced(keyed, mirrored),
            price,
            exchange_id,
            quantity,
        ),
{
    assert(priced(placed(keyed, price_of(price, mirrored), exchange_id, quantity), mirrored)
        =~= placed(priced(keyed, mirrored), price, exchange_id, quantity));
}

/// Withdrawing under a key is withdrawing at the price that the key stands
/// for.
pub proof fn lemma_priced_withdrawn(
    keyed: Book,
    mirrored: bool,
    price: Price,
    exchange_id: ExchangeId,
)
    ensures
        priced(withdrawn(keyed, price_of(price, mirrored), exchange_id), mirrored) == withdrawn(
            priced(keyed, mirrored),
            price,
            exchange_id,
        ),
        rests(keyed, price_of(price, mirrored), exchange_id) == rests(
            priced(keyed, mirrored),
            price,
            exchange_id,
        ),
{
    assert(priced(withdrawn(keyed, price_of(price, mirrored), exchange_id), mirrored)
        =~= withdrawn(priced(keyed, mirrored), price, exchange_id));
}

/// A sweep of the asks below a bid's price finds the asks that the bid
/// crosses.
pub proof fn lemma_swept_asks(keyed: Book, own: ExchangeId, price: Price, out: Seq<Candidate>)
    requires
        swept(keyed, own, false, price as int, out),
    ensures
        ask_crossings(priced(keyed, false), own, price, out),
{
}

/// A sweep of the mirrored bids below an ask's key finds the bids that the
/// ask crosses.
pub proof fn lemma_swept_bids(keyed: Book, own: ExchangeId, price: Price, out: Seq<Candidate>)
    requires
        swept(keyed, own, true, price_of(price, true) as int, out),
    ensures
        bid_crossings(priced(keyed, true), own, price, out),
{
}

} // verus!
