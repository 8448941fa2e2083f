//! The per-instrument book updater: it validates each incoming snapshot or
//! delta against the sequence rules, applies accepted updates to the local
//! depth book, and hands back an immutable copy for emission.

use vstd::prelude::*;

use crate::book::{is_snapshot_result, OrderBook};
use crate::error::DataError;
use crate::message::{BybitPayload, Delta, Identifier, Snapshot, SubscriptionId};
use crate::side::{apply_levels, side_map, Level, Side};

verus! {

/// One raw price level of a Bybit book payload, already in fixed-point
/// ticks.
#[derive(Clone, Copy, PartialEq, Eq, Structural, Debug)]
pub struct BybitLevel {
    pub price: u64,
    pub amount: u64,
}

/// The book level a raw Bybit level stands for.
pub open spec fn level_of(b: BybitLevel) -> Level {
    Level { price: b.price, amount: b.amount }
}

/// The book levels a raw Bybit level sequence stands for.
pub open spec fn levels_of(s: Seq<BybitLevel>) -> Seq<Level> {
    s.map_values(|b: BybitLevel| level_of(b))
}

impl Level {
    /// Conversion from the raw payload level.
    pub fn from(level: BybitLevel) -> (r: Level)
        ensures
            r == level_of(level),
    {
        Level { price: level.price, amount: level.amount }
    }
}

/// Converts a raw payload side into book levels.
pub fn levels_from(v: &Vec<BybitLevel>) -> (r: Vec<Level>)
    ensures
        r@ == levels_of(v@),
{
    let mut r: Vec<Level> = Vec::new();
    let n = v.len();
    let mut i: usize = 0;
    while i < n
        invariant
            n == v@.len(),
            i <= n,
            r@ =~= levels_of(v@.subrange(0, i as int)),
        decreases n - i,
    {
        r.push(Level::from(v[i]));
        proof {
            assert(v@.subrange(0, i + 1 as int) =~= v@.subrange(0, i as int).push(v@[i as int]));
            assert(levels_of(v@.subrange(0, i + 1 as int)) =~= levels_of(
                v@.subrange(0, i as int),
            ).push(level_of(v@[i as int])));
        }
        i = i + 1;
    }
    proof {
        assert(v@.subrange(0, n as int) =~= v@);
    }
    r
}

/// The body of a Bybit book message: both raw sides, the exchange's book
/// revision (`update_id`), and its auxiliary sequence counter.
#[derive(Clone, PartialEq, Debug)]
pub struct BybitOrderBookInner {
    pub bids: Vec<BybitLevel>,
    pub asks: Vec<BybitLevel>,
    pub update_id: u64,
    pub seq: u64,
}

impl BybitOrderBookInner {
    /// A body with the given counters and no levels.
    pub fn new(update_id: u64, seq: u64) -> (r: BybitOrderBookInner)
        ensures
            r.bids@ =~= Seq::<BybitLevel>::empty(),
            r.asks@ =~= Seq::<BybitLevel>::empty(),
            r.update_id == update_id,
            r.seq == seq,
    {
        BybitOrderBookInner { bids: Vec::new(), asks: Vec::new(), update_id, seq }
    }
}

/// A complete-replacement Bybit book message.
pub type BybitOrderBookL2Snapshot = BybitPayload<BybitOrderBookInner, Snapshot>;

/// An incremental Bybit book message.
pub type BybitOrderBookL2Delta = BybitPayload<BybitOrderBookInner, Delta>;

/// A decoded Bybit book update, tagged snapshot or delta by the frame's
/// type field.
#[derive(PartialEq, Debug)]
pub enum BybitBookUpdate {
    Snapshot(BybitOrderBookL2Snapshot),
    Delta(BybitOrderBookL2Delta),
}

impl Identifier<Option<SubscriptionId>> for BybitBookUpdate {
    open spec fn spec_id(&self) -> Option<SubscriptionId> {
        match self {
            BybitBookUpdate::Snapshot(snapshot) => snapshot.spec_id(),
            BybitBookUpdate::Delta(delta) => delta.spec_id(),
        }
    }

    fn id(&self) -> (r: Option<SubscriptionId>) {
        match self {
            BybitBookUpdate::Snapshot(snapshot) => snapshot.id(),
            BybitBookUpdate::Delta(delta) => delta.id(),
        }
    }
}

impl OrderBook {
    /// Builds a book from a complete-replacement message: both sides are
    /// sorted and deduplicated by the core, never trusted as delivered.
    pub fn from(snapshot: &BybitOrderBookL2Snapshot) -> (r: OrderBook)
        ensures
            is_snapshot_result(
                r,
                snapshot.time,
                levels_of(snapshot.data.bids@),
                levels_of(snapshot.data.asks@),
            ),
    {
        let mut book = OrderBook::new_empty(snapshot.time);
        let bids = levels_from(&snapshot.data.bids);
        let asks = levels_from(&snapshot.data.asks);
        book.apply_snapshot(snapshot.time, bids, asks);
        book
    }
}

/// The sequence state of one instrument's book: how many deltas were
/// applied since the last snapshot, the last accepted book revision, and
/// whether a snapshot has seeded the book at all.
#[derive(Clone, Copy, PartialEq, Eq, Structural, Hash, Debug)]
pub struct BybitBookUpdater {
    pub updates_processed: u64,
    pub last_update_id: u64,
    pub initialized: bool,
}

/// The updater accepts this delta revision: it must not be the reserved
/// initial revision, a snapshot must have seeded the book, and the
/// revision must directly follow the last accepted one (a wrap of the
/// revision counter is treated as out of sequence).
pub open spec fn accepts_delta(u: BybitBookUpdater, update_id: u64) -> bool {
    &&& update_id != 1
    &&& u.initialized
    &&& u.last_update_id < u64::MAX
    &&& update_id == u.last_update_id + 1
}

/// The result carries a copy of the given book's content.
pub open spec fn emitted_matches(r: Result<Option<OrderBook>, DataError>, book: OrderBook) -> bool {
    &&& r matches Ok(Some(b))
    &&& r->Ok_0->Some_0.last_update_time == book.last_update_time
    &&& r->Ok_0->Some_0.bids@ == book.bids@
    &&& r->Ok_0->Some_0.asks@ == book.asks@
    &&& r->Ok_0->Some_0.bids.side == Side::Buy
    &&& r->Ok_0->Some_0.asks.side == Side::Sell
}

/// The full effect of feeding `update` to an updater in state `u0` with
/// book `b0`: the next state `u1`, the next book `b1`, and the result `r`.
///
/// A snapshot re-seeds the state and rebuilds the book; an in-sequence
/// delta strictly advances `last_update_id` and applies its levels (an
/// empty one applies nothing and emits nothing); a delta with the
/// reserved revision 1 or before any snapshot or out of sequence leaves
/// the book unchanged and surfaces the exact error, an out-of-sequence
/// one additionally sending the updater back to awaiting a snapshot.
pub open spec fn update_transition(
    u0: BybitBookUpdater,
    b0: OrderBook,
    update: BybitBookUpdate,
    u1: BybitBookUpdater,
    b1: OrderBook,
    r: Result<Option<OrderBook>, DataError>,
) -> bool {
    match update {
        BybitBookUpdate::Snapshot(s) => {
            &&& u1 == (BybitBookUpdater {
                updates_processed: 0,
                last_update_id: s.data.update_id,
                initialized: true,
            })
            &&& is_snapshot_result(b1, s.time, levels_of(s.data.bids@), levels_of(s.data.asks@))
            &&& emitted_matches(r, b1)
        },
        BybitBookUpdate::Delta(d) => {
            if d.data.update_id == 1 {
                &&& r == Err::<Option<OrderBook>, DataError>(
                    DataError::InvalidSequence {
                        prev_last_update_id: u0.last_update_id,
                        first_update_id: 1,
                    },
                )
                &&& u1 == u0
                &&& b1 == b0
            } else if !u0.initialized {
                &&& r == Err::<Option<OrderBook>, DataError>(DataError::SnapshotMissing)
                &&& u1 == u0
                &&& b1 == b0
            } else if !accepts_delta(u0, d.data.update_id) {
                &&& r == Err::<Option<OrderBook>, DataError>(
                    DataError::InvalidSequence {
                        prev_last_update_id: u0.last_update_id,
                        first_update_id: d.data.update_id,
                    },
                )
                &&& u1 == (BybitBookUpdater { initialized: false, ..u0 })
                &&& b1 == b0
            } else {
                &&& u1 == (BybitBookUpdater {
                    updates_processed: (u0.updates_processed + 1) as u64,
                    last_update_id: d.data.update_id,
                    initialized: true,
                })
                &&& u1.last_update_id > u0.last_update_id
                &&& if d.data.bids@.len() == 0 && d.data.asks@.len() == 0 {
                    &&& r == Ok::<Option<OrderBook>, DataError>(None)
                    &&& b1 == b0
                } else {
                    &&& b1.last_update_time == d.time
                    &&& side_map(b1.bids@) == apply_levels(
                        side_map(b0.bids@),
                        levels_of(d.data.bids@),
                    )
                    &&& side_map(b1.asks@) == apply_levels(
                        side_map(b0.asks@),
                        levels_of(d.data.asks@),
                    )
                    &&& emitted_matches(r, b1)
                }
            }
        },
    }
}

impl BybitBookUpdater {
    /// The state of a fresh updater.
    pub open spec fn spec_new() -> BybitBookUpdater {
        BybitBookUpdater { updates_processed: 0, last_update_id: 0, initialized: false }
    }

    /// Deltas applied since the last snapshot never outnumber the book
    /// revision they advanced it to.
    pub open spec fn wf(&self) -> bool {
        self.updates_processed <= self.last_update_id
    }

    /// A fresh updater: nothing processed, awaiting its snapshot.
    pub fn new() -> (r: BybitBookUpdater)
        ensures
            r == BybitBookUpdater::spec_new(),
            r.wf(),
    {
        BybitBookUpdater { updates_processed: 0, last_update_id: 0, initialized: false }
    }

    /// Whether no delta has been processed since the last (re-)seed.
    pub fn is_first_update(&self) -> (r: bool)
        ensures
            r == (self.updates_processed == 0),
    {
        self.updates_processed == 0
    }

    /// A snapshot is always admissible: it re-seeds the book wholesale.
    pub fn validate_snapshot_update(&self, snapshot: &BybitOrderBookL2Snapshot) -> (r: Result<
        (),
        DataError,
    >)
        ensures
            r == Ok::<(), DataError>(()),
    {
        let _ = snapshot;
        Ok(())
    }

    /// Checks a delta's revision number against the sequence rules:
    /// revision 1 is reserved for the initial snapshot, and once the book
    /// is seeded every delta must carry the next revision exactly.
    pub fn validate_delta_update(&self, delta: &BybitOrderBookL2Delta) -> (r: Result<
        (),
        DataError,
    >)
        ensures
            r == if delta.data.update_id == 1 || (self.initialized && !(self.last_update_id
                < u64::MAX && delta.data.update_id == self.last_update_id + 1)) {
                Err::<(), DataError>(
                    DataError::InvalidSequence {
                        prev_last_update_id: self.last_update_id,
                        first_update_id: delta.data.update_id,
                    },
                )
            } else {
                Ok::<(), DataError>(())
            },
    {
        if delta.data.update_id == 1 {
            return Err(
                DataError::InvalidSequence {
                    prev_last_update_id: self.last_update_id,
                    first_update_id: delta.data.update_id,
                },
            );
        }
        if self.initialized && (self.last_update_id == u64::MAX || delta.data.update_id
            != self.last_update_id + 1) {
            return Err(
                DataError::InvalidSequence {
                    prev_last_update_id: self.last_update_id,
                    first_update_id: delta.data.update_id,
                },
            );
        }
        Ok(())
    }

    /// The entry rule of the snapshot-plus-range exchange family: the
    /// first delta after an out-of-band snapshot must straddle the next
    /// revision, `first_update_id <= last + 1 <= last_update_id`. A
    /// revision counter at its ceiling is out of sequence by the wrap
    /// rule.
    pub fn validate_first_update(&self, first_update_id: u64, last_update_id: u64) -> (r: Result<
        (),
        DataError,
    >)
        ensures
            r == if self.last_update_id < u64::MAX && first_update_id <= self.last_update_id + 1
                <= last_update_id {
                Ok::<(), DataError>(())
            } else {
                Err::<(), DataError>(
                    DataError::InvalidSequence {
                        prev_last_update_id: self.last_update_id,
                        first_update_id,
                    },
                )
            },
    {
        if self.last_update_id < u64::MAX {
            let expected_next = self.last_update_id + 1;
            if first_update_id <= expected_next && expected_next <= last_update_id {
                return Ok(());
            }
        }
        Err(
            DataError::InvalidSequence {
                prev_last_update_id: self.last_update_id,
                first_update_id,
            },
        )
    }

    /// Feeds one decoded update to the book; see [`update_transition`]
    /// for the exact effect on the state, the book, and the result.
    pub fn update(&mut self, book: &mut OrderBook, update: BybitBookUpdate) -> (r: Result<
        Option<OrderBook>,
        DataError,
    >)
        requires
            old(self).wf(),
            old(book).wf(),
        ensures
            final(self).wf(),
            final(book).wf(),
            update_transition(*old(self), *old(book), update, *final(self), *final(book), r),
    {
        match update {
            BybitBookUpdate::Snapshot(snapshot) => {
                match self.validate_snapshot_update(&snapshot) {
                    Ok(_) => {},
                    Err(e) => {
                        return Err(e);
                    },
                }
                self.last_update_id = snapshot.data.update_id;
                self.updates_processed = 0;
                self.initialized = true;
                let bids = levels_from(&snapshot.data.bids);
                let asks = levels_from(&snapshot.data.asks);
                book.apply_snapshot(snapshot.time, bids, asks);
                Ok(Some(book.snapshot()))
            },
            BybitBookUpdate::Delta(delta) => {
                match self.validate_delta_update(&delta) {
                    Ok(_) => {},
                    Err(e) => {
                        if delta.data.update_id != 1 {
                            // Sequence break while live: resynchronise from
                            // the next snapshot.
                            self.initialized = false;
                        }
                        return Err(e);
                    },
                }
                if !self.initialized {
                    return Err(DataError::SnapshotMissing);
                }
                self.last_update_id = delta.data.update_id;
                self.updates_processed = self.updates_processed + 1;
                if delta.data.bids.len() == 0 && delta.data.asks.len() == 0 {
                    return Ok(None);
                }
                let bids = levels_from(&delta.data.bids);
                let asks = levels_from(&delta.data.asks);
                book.apply_delta(delta.time, bids, asks);
                Ok(Some(book.snapshot()))
            },
        }
    }
}

/// One instrument's book, its sequence state, and the instrument it
/// belongs to, owned by the transformer for the subscription's lifetime.
#[derive(PartialEq, Debug)]
pub struct InstrumentOrderBook<InstrumentId> {
    pub instrument: InstrumentId,
    pub updater: BybitBookUpdater,
    pub book: OrderBook,
}

impl BybitBookUpdater {
    /// Opens an empty per-instrument book: there is no initial snapshot,
    /// the first accepted snapshot message seeds it.
    pub fn init<InstrumentId>(instrument: InstrumentId) -> (r: Result<
        InstrumentOrderBook<InstrumentId>,
        DataError,
    >)
        ensures
            r matches Ok(b) && b.updater == (BybitBookUpdater {
                updates_processed: 0,
                last_update_id: 0,
                initialized: false,
            }) && b.book.wf() && b.book.bids@.len() == 0 && b.book.asks@.len() == 0
                && b.instrument == instrument,
    {
        Ok(
            InstrumentOrderBook {
                instrument,
                updater: BybitBookUpdater::new(),
                book: OrderBook::new_empty(0),
            },
        )
    }
}

} // verus!
