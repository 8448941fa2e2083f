//! Normalized market events emitted downstream.

use vstd::prelude::*;

use crate::error::DataError;
use crate::side::Side;

verus! {

/// The exchange a connection speaks to.
#[derive(Clone, Copy, PartialEq, Eq, Structural, Debug)]
pub enum ExchangeId {
    BybitSpot,
    BybitPerpetualsUsd,
    Okx,
}

/// What kind of market an instrument trades on.
#[derive(Clone, Copy, PartialEq, Eq, Structural, Hash, Debug)]
pub enum InstrumentKind {
    Spot,
    Perpetual,
    Future,
    OptionContract,
}

/// A domain identifier for one tradable instrument, owned by the
/// transformer for the lifetime of a subscription.
#[derive(Clone, PartialEq, Eq, Hash, Debug)]
pub struct Instrument {
    pub base: String,
    pub quote: String,
    pub kind: InstrumentKind,
}

impl Instrument {
    pub fn new(base: String, quote: String, kind: InstrumentKind) -> (r: Instrument)
        ensures
            r.base == base,
            r.quote == quote,
            r.kind == kind,
    {
        Instrument { base, quote, kind }
    }
}

/// One public trade, normalized across exchanges.
#[derive(PartialEq, Debug)]
pub struct PublicTrade {
    pub id: String,
    pub price: u64,
    pub amount: u64,
    pub side: Side,
}

/// One normalized market event: immutable once emitted.
#[derive(PartialEq, Debug)]
pub struct MarketEvent<InstrumentId, T> {
    pub exchange_time: u64,
    pub received_time: u64,
    pub exchange: ExchangeId,
    pub instrument: InstrumentId,
    pub kind: T,
}

/// A batch of events (or in-band errors) produced from one frame.
#[derive(PartialEq, Debug)]
pub struct MarketIter<InstrumentId, T>(pub Vec<Result<MarketEvent<InstrumentId, T>, DataError>>);

} // verus!
