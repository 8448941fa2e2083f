//! The two-sided depth book: snapshot replacement, delta application, deep
//! copies for emission, and derivation of the top of book.

use vstd::prelude::*;

use crate::side::{
    apply_levels, lemma_apply_levels_no_deletes, lemma_side_canonical, lemma_side_map_char,
    lemma_sorted_distinct, price_before, price_in, side_map, Level, OrderBookSide, Side,
};

verus! {

/// A level-two order book: the visible price ladder on each side, stamped
/// with the exchange time of the update that last touched it.
#[derive(Clone, PartialEq, Debug)]
pub struct OrderBook {
    pub last_update_time: u64,
    pub bids: OrderBookSide,
    pub asks: OrderBookSide,
}

/// The top of book: best bid and best ask only. An empty side is reported
/// as the zero-level sentinel.
#[derive(Clone, Copy, PartialEq, Eq, Structural, Debug)]
pub struct OrderBookL1 {
    pub last_update_time: u64,
    pub best_bid: Level,
    pub best_ask: Level,
}

/// The top of book that a given depth book yields.
pub open spec fn spec_l1(b: OrderBook) -> OrderBookL1 {
    OrderBookL1 {
        last_update_time: b.last_update_time,
        best_bid: if b.bids@.len() > 0 {
            b.bids@[0]
        } else {
            Level { price: 0, amount: 0 }
        },
        best_ask: if b.asks@.len() > 0 {
            b.asks@[0]
        } else {
            Level { price: 0, amount: 0 }
        },
    }
}

/// A book produced by applying the given snapshot payload: both sides are
/// rebuilt from the payload alone and the time stamp is taken from it.
pub open spec fn is_snapshot_result(
    b: OrderBook,
    time: u64,
    bids: Seq<Level>,
    asks: Seq<Level>,
) -> bool {
    &&& b.wf()
    &&& b.last_update_time == time
    &&& side_map(b.bids@) == apply_levels(Map::empty(), bids)
    &&& side_map(b.asks@) == apply_levels(Map::empty(), asks)
}

impl OrderBook {
    /// Both sides carry their own tag and invariant.
    pub open spec fn wf(&self) -> bool {
        &&& self.bids.side == Side::Buy
        &&& self.asks.side == Side::Sell
        &&& self.bids.wf()
        &&& self.asks.wf()
    }

    /// A consistent book is never crossed: when both sides are populated,
    /// the best bid sits strictly below the best ask.
    pub open spec fn not_crossed(&self) -> bool {
        self.bids@.len() > 0 && self.asks@.len() > 0 ==> self.bids@[0].price
            < self.asks@[0].price
    }

    /// An empty book, used before the first snapshot arrives.
    pub fn new_empty(time: u64) -> (r: OrderBook)
        ensures
            r.wf(),
            r.last_update_time == time,
            r.bids@ =~= Seq::<Level>::empty(),
            r.asks@ =~= Seq::<Level>::empty(),
    {
        let b = OrderBook {
            last_update_time: time,
            bids: OrderBookSide::new(Side::Buy, Vec::new()),
            asks: OrderBookSide::new(Side::Sell, Vec::new()),
        };
        proof {
            assert(side_map(Seq::<Level>::empty()) =~= Map::<u64, u64>::empty());
            lemma_side_canonical(Side::Buy, b.bids@, Seq::<Level>::empty());
            lemma_side_canonical(Side::Sell, b.asks@, Seq::<Level>::empty());
        }
        b
    }

    /// Replaces both sides atomically from a snapshot payload and stamps
    /// the payload's exchange time.
    pub fn apply_snapshot(&mut self, time: u64, bids: Vec<Level>, asks: Vec<Level>)
        ensures
            is_snapshot_result(*final(self), time, bids@, asks@),
    {
        *self = OrderBook {
            last_update_time: time,
            bids: OrderBookSide::new(Side::Buy, bids),
            asks: OrderBookSide::new(Side::Sell, asks),
        };
    }

    /// Applies a delta payload: upserts the bid levels, then the ask
    /// levels, and stamps the payload's exchange time.
    pub fn apply_delta(&mut self, time: u64, bids: Vec<Level>, asks: Vec<Level>)
        requires
            old(self).wf(),
        ensures
            final(self).wf(),
            final(self).last_update_time == time,
            side_map(final(self).bids@) == apply_levels(side_map(old(self).bids@), bids@),
            side_map(final(self).asks@) == apply_levels(side_map(old(self).asks@), asks@),
    {
        self.last_update_time = time;
        self.bids.upsert(bids);
        self.asks.upsert(asks);
    }

    /// A deep, immutable copy suitable for emission downstream.
    pub fn snapshot(&self) -> (r: OrderBook)
        ensures
            r.last_update_time == self.last_update_time,
            r.bids.side == self.bids.side,
            r.asks.side == self.asks.side,
            r.bids@ == self.bids@,
            r.asks@ == self.asks@,
    {
        OrderBook {
            last_update_time: self.last_update_time,
            bids: self.bids.duplicate(),
            asks: self.asks.duplicate(),
        }
    }

    /// Derives the top of book. A side with no levels yields the
    /// zero-level sentinel.
    pub fn into_l1(&self) -> (r: OrderBookL1)
        ensures
            r == spec_l1(*self),
    {
        let best_bid = match self.bids.best() {
            Some(l) => l,
            None => Level::zero(),
        };
        let best_ask = match self.asks.best() {
            Some(l) => l,
            None => Level::zero(),
        };
        OrderBookL1 { last_update_time: self.last_update_time, best_bid, best_ask }
    }
}

/// Law: a snapshot fully determines the book. Applying the same snapshot
/// payload, whatever the books held before, yields identical books; in
/// particular applying one snapshot twice is idempotent.
pub proof fn lemma_snapshot_determines_book(
    b1: OrderBook,
    b2: OrderBook,
    time: u64,
    bids: Seq<Level>,
    asks: Seq<Level>,
)
    requires
        is_snapshot_result(b1, time, bids, asks),
        is_snapshot_result(b2, time, bids, asks),
    ensures
        b1.last_update_time == b2.last_update_time,
        b1.bids@ == b2.bids@,
        b1.asks@ == b2.asks@,
{
    lemma_side_canonical(Side::Buy, b1.bids@, b2.bids@);
    lemma_side_canonical(Side::Sell, b1.asks@, b2.asks@);
}

/// Law: a book built from payload sides whose amounts are all nonzero,
/// with levels on both sides and every bid price below every ask price,
/// derives an uncrossed top of book; its best bid is the highest bid
/// price of the payload and its best ask the lowest ask price, whatever
/// order the exchange delivered the levels in. (A payload that deletes
/// every level of a side lawfully yields the zero sentinel instead,
/// which is why the nonzero-amount premise is needed.)
pub proof fn lemma_payload_l1_uncrossed(
    b: OrderBook,
    time: u64,
    bids: Seq<Level>,
    asks: Seq<Level>,
)
    requires
        is_snapshot_result(b, time, bids, asks),
        bids.len() > 0,
        asks.len() > 0,
        forall|i: int| 0 <= i < bids.len() ==> (#[trigger] bids[i]).amount != 0,
        forall|j: int| 0 <= j < asks.len() ==> (#[trigger] asks[j]).amount != 0,
        forall|i: int, j: int|
            0 <= i < bids.len() && 0 <= j < asks.len() ==> bids[i].price < asks[j].price,
    ensures
        spec_l1(b).best_bid.price < spec_l1(b).best_ask.price,
        price_in(bids, spec_l1(b).best_bid.price),
        price_in(asks, spec_l1(b).best_ask.price),
        forall|i: int| 0 <= i < bids.len() ==> (#[trigger] bids[i]).price <= spec_l1(
            b,
        ).best_bid.price,
        forall|j: int| 0 <= j < asks.len() ==> (#[trigger] asks[j]).price >= spec_l1(
            b,
        ).best_ask.price,
{
    lemma_apply_levels_no_deletes(Map::empty(), bids);
    lemma_apply_levels_no_deletes(Map::empty(), asks);
    lemma_sorted_distinct(Side::Buy, b.bids@);
    lemma_sorted_distinct(Side::Sell, b.asks@);
    lemma_side_map_char(b.bids@);
    lemma_side_map_char(b.asks@);
    // both stored sides are populated: each payload's first price is in
    // the stored side's map
    assert(price_in(bids, bids[0].price));
    assert(side_map(b.bids@).dom().contains(bids[0].price));
    assert(price_in(b.bids@, bids[0].price));
    assert(b.bids@.len() > 0);
    assert(price_in(asks, asks[0].price));
    assert(side_map(b.asks@).dom().contains(asks[0].price));
    assert(price_in(b.asks@, asks[0].price));
    assert(b.asks@.len() > 0);
    // the stored best prices are payload prices
    let bb = b.bids@[0].price;
    let ba = b.asks@[0].price;
    assert(b.bids@[0].price == bb);
    assert(side_map(b.bids@).dom().contains(bb));
    assert(price_in(bids, bb));
    assert(side_map(b.asks@).dom().contains(ba));
    assert(price_in(asks, ba));
    // the stored best bid dominates every payload bid price
    assert forall|i: int| 0 <= i < bids.len() implies (#[trigger] bids[i]).price <= bb by {
        assert(side_map(b.bids@).dom().contains(bids[i].price));
        assert(price_in(b.bids@, bids[i].price));
        let k = choose|k: int| 0 <= k < b.bids@.len() && b.bids@[k].price == bids[i].price;
        if k > 0 {
            assert(price_before(Side::Buy, b.bids@[0].price, b.bids@[k].price));
        }
    }
    // the stored best ask undercuts every payload ask price
    assert forall|j: int| 0 <= j < asks.len() implies (#[trigger] asks[j]).price >= ba by {
        assert(side_map(b.asks@).dom().contains(asks[j].price));
        assert(price_in(b.asks@, asks[j].price));
        let k = choose|k: int| 0 <= k < b.asks@.len() && b.asks@[k].price == asks[j].price;
        if k > 0 {
            assert(price_before(Side::Sell, b.asks@[0].price, b.asks@[k].price));
        }
    }
    // both bests are payload prices, so the crossing premise separates them
    let i0 = choose|i: int| 0 <= i < bids.len() && bids[i].price == bb;
    let j0 = choose|j: int| 0 <= j < asks.len() && asks[j].price == ba;
    assert(bids[i0].price < asks[j0].price);
}

/// Law: for any consistent depth book with both sides populated, the
/// derived top of book has its best bid strictly below its best ask.
pub proof fn lemma_l1_uncrossed(b: OrderBook)
    requires
        b.wf(),
        b.not_crossed(),
        b.bids@.len() > 0,
        b.asks@.len() > 0,
    ensures
        spec_l1(b).best_bid.price < spec_l1(b).best_ask.price,
{
}

} // verus!
