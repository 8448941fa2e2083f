//! The per-connection transformer: it owns one book per subscription key,
//! routes each decoded update to the updater that owns its key, wraps
//! accepted updates into normalized events, and terminates a subscription
//! whose stream turns fatal.

use vstd::prelude::*;
use vstd::pervasive::cloned;

use crate::book::OrderBook;
use crate::decode::{
    bybit_book_frame_ok, bybit_book_update_matches, bybit_response_frame_ok,
    decode_bybit_book_update, decode_bybit_response,
};
use crate::error::DataError;
use crate::event::{ExchangeId, MarketEvent};
use crate::message::{Identifier, SubscriptionId};
use crate::strutil::str_eq;
use crate::updater::{
    update_transition, BybitBookUpdate, BybitBookUpdater, InstrumentOrderBook,
};

verus! {

/// How a routed update's outcome is wrapped for emission: an accepted
/// update that produced a book copy becomes one normalized event, an
/// accepted empty delta emits nothing, and a validation error is handed
/// through untouched for in-band surfacing.
pub open spec fn wrapped_outcome<I: Clone>(
    r: Result<Option<MarketEvent<I, OrderBook>>, DataError>,
    inner: Result<Option<OrderBook>, DataError>,
    exchange: ExchangeId,
    instrument: I,
    received_time: u64,
) -> bool {
    match inner {
        Ok(Some(b)) => {
            &&& r matches Ok(Some(ev))
            &&& r->Ok_0->Some_0.exchange_time == b.last_update_time
            &&& r->Ok_0->Some_0.received_time == received_time
            &&& r->Ok_0->Some_0.exchange == exchange
            &&& cloned::<I>(instrument, r->Ok_0->Some_0.instrument)
            &&& r->Ok_0->Some_0.kind == b
        },
        Ok(None) => r == Ok::<Option<MarketEvent<I, OrderBook>>, DataError>(None),
        Err(e) => r == Err::<Option<MarketEvent<I, OrderBook>>, DataError>(e),
    }
}

/// A delta carrying the reserved initial revision while the book is
/// live: terminal for the subscription (but not for the connection).
pub open spec fn fatal_update(u: BybitBookUpdater, update: BybitBookUpdate) -> bool {
    update matches BybitBookUpdate::Delta(d) && d.data.update_id == 1 && u.initialized
}

/// The full effect of routing one decoded update through the
/// transformer: an unknown key is surfaced and dropped; a fatal delta
/// surfaces the exact sequence error and terminates its subscription,
/// whose entry is removed; any other update advances exactly the keyed
/// entry by the updater's transition, leaves every other entry
/// untouched, and wraps the outcome for emission.
pub open spec fn routed<I: Clone>(
    pre: MultiBookTransformer<I>,
    post: MultiBookTransformer<I>,
    update: BybitBookUpdate,
    exchange: ExchangeId,
    received_time: u64,
    r: Result<Option<MarketEvent<I, OrderBook>>, DataError>,
) -> bool {
    match update.spec_id() {
        Some(key) => if !pre.has_key(key@) {
            &&& r == Err::<Option<MarketEvent<I, OrderBook>>, DataError>(
                DataError::UnknownSubscription,
            )
            &&& post.subscriptions@ == pre.subscriptions@
        } else {
            exists|k: int|
                {
                    &&& 0 <= k < pre.subscriptions@.len()
                    &&& (#[trigger] pre.subscriptions@[k]).0@ == key@
                    &&& if fatal_update(pre.subscriptions@[k].1.updater, update) {
                        &&& r == Err::<Option<MarketEvent<I, OrderBook>>, DataError>(
                            DataError::InvalidSequence {
                                prev_last_update_id:
                                    pre.subscriptions@[k].1.updater.last_update_id,
                                first_update_id: 1,
                            },
                        )
                        &&& post.subscriptions@ == pre.subscriptions@.remove(k)
                    } else {
                        &&& post.subscriptions@.len() == pre.subscriptions@.len()
                        &&& forall|j: int|
                            0 <= j < pre.subscriptions@.len() && j != k
                                ==> post.subscriptions@[j] == pre.subscriptions@[j]
                        &&& post.subscriptions@[k].0 == pre.subscriptions@[k].0
                        &&& post.subscriptions@[k].1.instrument
                            == pre.subscriptions@[k].1.instrument
                        &&& exists|inner: Result<Option<OrderBook>, DataError>|
                            {
                                &&& update_transition(
                                    pre.subscriptions@[k].1.updater,
                                    pre.subscriptions@[k].1.book,
                                    update,
                                    post.subscriptions@[k].1.updater,
                                    post.subscriptions@[k].1.book,
                                    inner,
                                )
                                &&& wrapped_outcome(
                                    r,
                                    inner,
                                    exchange,
                                    pre.subscriptions@[k].1.instrument,
                                    received_time,
                                )
                            }
                    }
                }
        },
        None => {
            &&& r == Err::<Option<MarketEvent<I, OrderBook>>, DataError>(
                DataError::UnknownSubscription,
            )
            &&& post.subscriptions@ == pre.subscriptions@
        },
    }
}

/// Owns one connection's mutable state: the map from subscription key to
/// per-instrument book, confined to the connection's driver task.
pub struct MultiBookTransformer<InstrumentId> {
    pub subscriptions: Vec<(SubscriptionId, InstrumentOrderBook<InstrumentId>)>,
}

impl<I: Clone> MultiBookTransformer<I> {
    /// Every owned book and updater is well formed and no two
    /// subscriptions share a key.
    pub open spec fn wf(&self) -> bool {
        &&& forall|i: int|
            0 <= i < self.subscriptions@.len() ==> (#[trigger] self.subscriptions@[i]).1.book.wf()
                && self.subscriptions@[i].1.updater.wf()
        &&& forall|i: int, j: int|
            0 <= i < j < self.subscriptions@.len() ==> self.subscriptions@[i].0@
                != self.subscriptions@[j].0@
    }

    /// Some subscription carries this key.
    pub open spec fn has_key(&self, k: Seq<char>) -> bool {
        exists|i: int|
            0 <= i < self.subscriptions@.len() && (#[trigger] self.subscriptions@[i]).0@ == k
    }

    /// Opens one empty book per requested subscription. The caller hands
    /// each key once: keys are the demultiplexing tags of one connection.
    pub fn new(mut entries: Vec<(SubscriptionId, I)>) -> (r: MultiBookTransformer<I>)
        requires
            forall|i: int, j: int|
                0 <= i < j < entries@.len() ==> entries@[i].0@ != entries@[j].0@,
        ensures
            r.wf(),
            r.subscriptions@.len() == entries@.len(),
            forall|i: int|
                0 <= i < entries@.len() ==> {
                    &&& (#[trigger] r.subscriptions@[i]).0 == entries@[i].0
                    &&& r.subscriptions@[i].1.instrument == entries@[i].1
                    &&& r.subscriptions@[i].1.updater == BybitBookUpdater::spec_new()
                    &&& r.subscriptions@[i].1.book.bids@.len() == 0
                    &&& r.subscriptions@[i].1.book.asks@.len() == 0
                },
    {
        let ghost orig = entries@;
        let mut subscriptions: Vec<(SubscriptionId, InstrumentOrderBook<I>)> = Vec::new();
        while entries.len() > 0
            invariant
                subscriptions@.len() + entries@.len() == orig.len(),
                entries@ =~= orig.subrange(subscriptions@.len() as int, orig.len() as int),
                forall|i: int|
                    0 <= i < subscriptions@.len() ==> {
                        &&& (#[trigger] subscriptions@[i]).0 == orig[i].0
                        &&& subscriptions@[i].1.instrument == orig[i].1
                        &&& subscriptions@[i].1.updater == BybitBookUpdater::spec_new()
                        &&& subscriptions@[i].1.book.wf()
                        &&& subscriptions@[i].1.book.bids@.len() == 0
                        &&& subscriptions@[i].1.book.asks@.len() == 0
                    },
            decreases entries@.len(),
        {
            let (key, instrument) = entries.remove(0);
            let book = match BybitBookUpdater::init(instrument) {
                Ok(b) => b,
                Err(_) => {
                    // init never fails; unreachable by its contract
                    proof {
                        assert(false);
                    }
                    continue ;
                },
            };
            subscriptions.push((key, book));
        }
        let r = MultiBookTransformer { subscriptions };
        proof {
            assert forall|i: int, j: int|
                0 <= i < j < r.subscriptions@.len() implies r.subscriptions@[i].0@
                != r.subscriptions@[j].0@ by {
            }
        }
        r
    }

    /// Index of the subscription that owns this key.
    fn find_index(&self, key: &str) -> (r: Option<usize>)
        ensures
            match r {
                Some(k) => k < self.subscriptions@.len() && self.subscriptions@[k as int].0@
                    == key@,
                None => !self.has_key(key@),
            },
    {
        let n = self.subscriptions.len();
        let mut i: usize = 0;
        while i < n
            invariant
                n == self.subscriptions@.len(),
                i <= n,
                forall|j: int| 0 <= j < i ==> (#[trigger] self.subscriptions@[j]).0@ != key@,
            decreases n - i,
        {
            if str_eq(self.subscriptions[i].0.as_str(), key) {
                return Some(i);
            }
            i = i + 1;
        }
        None
    }

    /// Routes one decoded book update to the subscription that owns its
    /// key; see [`routed`] for the exact effect. A delta carrying the
    /// reserved revision 1 while that book is live is fatal for the
    /// subscription: its entry is removed and later frames for its key
    /// surface `UnknownSubscription`.
    pub fn handle_book_update(
        &mut self,
        update: BybitBookUpdate,
        exchange: ExchangeId,
        received_time: u64,
    ) -> (r: Result<Option<MarketEvent<I, OrderBook>>, DataError>)
        requires
            old(self).wf(),
        ensures
            final(self).wf(),
            routed(*old(self), *final(self), update, exchange, received_time, r),
    {
        let key = match update.id() {
            Some(k) => k,
            None => {
                return Err(DataError::UnknownSubscription);
            },
        };
        let k = match self.find_index(key.as_str()) {
            Some(k) => k,
            None => {
                return Err(DataError::UnknownSubscription);
            },
        };
        let ghost subs0 = self.subscriptions@;
        let mut entry = self.subscriptions.remove(k);
        let fatal = match &update {
            BybitBookUpdate::Delta(d) => d.data.update_id == 1 && entry.1.updater.initialized,
            BybitBookUpdate::Snapshot(_) => false,
        };
        if fatal {
            // terminal for this subscription: its entry is dropped
            let prev = entry.1.updater.last_update_id;
            proof {
                let ki = k as int;
                let rem = subs0.remove(ki);
                assert forall|a: int, b: int|
                    0 <= a < b < rem.len() implies rem[a].0@ != rem[b].0@ by {
                    let a0 = if a < ki { a } else { a + 1 };
                    let b0 = if b < ki { b } else { b + 1 };
                    assert(rem[a] == subs0[a0] && rem[b] == subs0[b0]);
                }
                assert forall|a: int|
                    0 <= a < rem.len() implies (#[trigger] rem[a]).1.book.wf()
                    && rem[a].1.updater.wf() by {
                    let a0 = if a < ki { a } else { a + 1 };
                    assert(rem[a] == subs0[a0]);
                }
                assert(fatal_update(subs0[ki].1.updater, update));
            }
            return Err(
                DataError::InvalidSequence { prev_last_update_id: prev, first_update_id: 1 },
            );
        }
        let inner = entry.1.updater.update(&mut entry.1.book, update);
        let instrument = entry.1.instrument.clone();
        self.subscriptions.insert(k, entry);
        proof {
            assert(self.subscriptions@ =~= subs0.update(
                k as int,
                self.subscriptions@[k as int],
            ));
        }
        let r = match inner {
            Ok(Some(book_copy)) => {
                Ok(
                    Some(
                        MarketEvent {
                            exchange_time: book_copy.last_update_time,
                            received_time,
                            exchange,
                            instrument,
                            kind: book_copy,
                        },
                    ),
                )
            },
            Ok(None) => Ok(None),
            Err(e) => Err(e),
        };
        proof {
            let ki = k as int;
            assert(old(self).subscriptions@[ki].0@ == key@);
            assert(!fatal_update(subs0[ki].1.updater, update));
            assert(cloned::<I>(old(self).subscriptions@[ki].1.instrument, instrument));
            assert(wrapped_outcome(
                r,
                inner,
                exchange,
                old(self).subscriptions@[ki].1.instrument,
                received_time,
            ));
            assert(update_transition(
                old(self).subscriptions@[ki].1.updater,
                old(self).subscriptions@[ki].1.book,
                update,
                self.subscriptions@[ki].1.updater,
                self.subscriptions@[ki].1.book,
                inner,
            ));
            assert forall|j: int|
                0 <= j < old(self).subscriptions@.len() && j != ki implies self.subscriptions@[j]
                == old(self).subscriptions@[j] by {
            }
        }
        r
    }

    /// Handles one raw inbound frame. A decodable book frame is decoded
    /// to the update it spells and routed by its key; a control response
    /// is acknowledged and emits nothing; anything else is a decode
    /// error and the state is untouched. Whatever arrives, every owned
    /// book stays well formed.
    pub fn process_frame(
        &mut self,
        frame: &str,
        exchange: ExchangeId,
        received_time: u64,
    ) -> (r: Result<Option<MarketEvent<I, OrderBook>>, DataError>)
        requires
            old(self).wf(),
        ensures
            final(self).wf(),
            if bybit_book_frame_ok(frame@) {
                exists|u: BybitBookUpdate|
                    #[trigger] bybit_book_update_matches(frame@, u) && routed(
                        *old(self),
                        *final(self),
                        u,
                        exchange,
                        received_time,
                        r,
                    )
            } else if bybit_response_frame_ok(frame@) {
                &&& r == Ok::<Option<MarketEvent<I, OrderBook>>, DataError>(None)
                &&& final(self).subscriptions@ == old(self).subscriptions@
            } else {
                &&& (r matches Err(e) && e matches DataError::DecodeError { .. })
                &&& final(self).subscriptions@ == old(self).subscriptions@
            },
    {
        match decode_bybit_book_update(frame) {
            Ok(update) => self.handle_book_update(update, exchange, received_time),
            Err(decode_err) => {
                match decode_bybit_response(frame) {
                    Ok(_response) => Ok(None),
                    Err(_) => Err(decode_err),
                }
            },
        }
    }
}

} // verus!
