//! Exchange channel names and server endpoints.

use vstd::prelude::*;

verus! {

/// [`Bybit`] websocket server base url for the spot market.
pub const WEBSOCKET_BASE_URL_BYBIT_SPOT: &'static str = "wss://stream.bybit.com/v5/public/spot";

/// [`Bybit`] websocket server base url for USD perpetuals.
pub const WEBSOCKET_BASE_URL_BYBIT_PERPETUALS_USD: &'static str =
    "wss://stream.bybit.com/v5/public/linear";

/// A Bybit channel name, as it appears in subscribe requests and topics.
#[derive(Clone, Copy, PartialEq, Eq, Hash, Debug)]
pub struct BybitChannel(pub &'static str);

impl BybitChannel {
    /// The real-time trades channel.
    pub fn trades() -> (r: BybitChannel)
        ensures
            r.0@ == "publicTrade"@,
    {
        BybitChannel("publicTrade")
    }

    /// The level-one order book channel.
    pub fn order_book_l1() -> (r: BybitChannel)
        ensures
            r.0@ == "orderbook.1"@,
    {
        BybitChannel("orderbook.1")
    }

    /// The level-two order book channel. The depth is exchange-dependent
    /// and configurable per subscription; this is the deepest feed.
    pub fn order_book_l2() -> (r: BybitChannel)
        ensures
            r.0@ == "orderbook.200"@,
    {
        BybitChannel("orderbook.200")
    }

    pub fn as_str(&self) -> (r: &str)
        ensures
            r@ == self.0@,
    {
        self.0
    }
}

/// An OKX channel name.
#[derive(Clone, Copy, PartialEq, Eq, Hash, Debug)]
pub struct OkxChannel(pub &'static str);

impl OkxChannel {
    /// The real-time trades channel.
    pub fn trades() -> (r: OkxChannel)
        ensures
            r.0@ == "trades"@,
    {
        OkxChannel("trades")
    }

    /// The level-one order book channel.
    pub fn order_book_l1() -> (r: OkxChannel)
        ensures
            r.0@ == "bbo-tbt"@,
    {
        OkxChannel("bbo-tbt")
    }

    pub fn as_str(&self) -> (r: &str)
        ensures
            r@ == self.0@,
    {
        self.0
    }
}

/// The Bybit spot server.
#[derive(Clone, Copy, PartialEq, Eq, Structural, Hash, Debug)]
pub struct BybitServerSpot;

impl BybitServerSpot {
    pub fn websocket_url() -> (r: &'static str)
        ensures
            r@ == WEBSOCKET_BASE_URL_BYBIT_SPOT@,
    {
        WEBSOCKET_BASE_URL_BYBIT_SPOT
    }
}

/// The Bybit USD perpetuals server.
#[derive(Clone, Copy, PartialEq, Eq, Structural, Hash, Debug)]
pub struct BybitServerPerpetualsUsd;

impl BybitServerPerpetualsUsd {
    pub fn websocket_url() -> (r: &'static str)
        ensures
            r@ == WEBSOCKET_BASE_URL_BYBIT_PERPETUALS_USD@,
    {
        WEBSOCKET_BASE_URL_BYBIT_PERPETUALS_USD
    }
}

} // verus!
