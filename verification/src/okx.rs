//! OKX message types, their frame decoders, and their conversion into
//! normalized market events.
//!
//! As for the Bybit decoders, the JSON engine stands behind the trusted
//! boundary of `crate::json`; the decoders' contracts state in both
//! directions that a frame decodes exactly when every named field
//! projection is acceptable, and that the message carries exactly those
//! values.

use vstd::prelude::*;
use vstd::pervasive::cloned;
use vstd::string::StringExecFns;

use crate::book::{spec_l1, is_snapshot_result, OrderBook, OrderBookL1};
use crate::decimal::{
    all_digits, dec_ticks, dec_valid, digits_val, parse_decimal_ticks, parse_u64_digits,
};
use crate::error::DataError;
use crate::event::{ExchangeId, MarketEvent, MarketIter, PublicTrade};
use crate::json::{
    okx_channel, okx_inst, okx_item_ask_strs, okx_item_bid_strs, okx_item_checksum,
    okx_item_count, okx_item_seq_id, okx_item_trade, okx_item_ts, quads_view,
    raw_okx_ask_strs_of, raw_okx_bid_strs_of, raw_okx_channel_of, raw_okx_checksum_of,
    raw_okx_count_of, raw_okx_inst_of, raw_okx_seq_id_of, raw_okx_trade_of, raw_okx_ts_of,
};
use crate::message::{subscription_id_of, Identifier, SubscriptionId};
use crate::side::{Level, Side};
use crate::strutil::str_eq;

verus! {

/// One OKX depth level: price, amount, a deprecated field the exchange
/// still sends, and the number of orders at the level; all fixed-point
/// ticks.
#[derive(Clone, Copy, PartialEq, Eq, Structural, Debug)]
pub struct OxkLevel {
    pub price: u64,
    pub amount: u64,
    pub deprecated: u64,
    pub no_orders: u64,
}

/// The book level an OKX depth level stands for.
pub open spec fn level_of_okx(l: OxkLevel) -> Level {
    Level { price: l.price, amount: l.amount }
}

/// The book levels an OKX depth sequence stands for.
pub open spec fn levels_of_okx(s: Seq<OxkLevel>) -> Seq<Level> {
    s.map_values(|l: OxkLevel| level_of_okx(l))
}

impl Level {
    /// Conversion from an OKX depth level.
    pub fn from_okx(level: OxkLevel) -> (r: Level)
        ensures
            r == level_of_okx(level),
    {
        Level { price: level.price, amount: level.amount }
    }
}

/// One OKX order-book message body: both sides, the exchange time, the
/// book checksum where the channel provides one, and the sequence id.
#[derive(PartialEq, Debug)]
pub struct OkxOrderBookInner {
    pub asks: Vec<OxkLevel>,
    pub bids: Vec<OxkLevel>,
    pub ts: u64,
    pub checksum: Option<i64>,
    pub seq_id: i64,
}

/// One OKX public trade.
#[derive(PartialEq, Debug)]
pub struct OkxTrade {
    pub id: String,
    pub price: u64,
    pub amount: u64,
    pub side: Side,
    pub time: u64,
}

/// An OKX market-data message: the canonical subscription key derived
/// from its `arg` field, and a batch of typed bodies.
#[derive(PartialEq, Debug)]
pub struct OkxMessage<T> {
    pub subscription_id: SubscriptionId,
    pub data: Vec<T>,
}

impl<T> Identifier<Option<SubscriptionId>> for OkxMessage<T> {
    open spec fn spec_id(&self) -> Option<SubscriptionId> {
        Some(self.subscription_id)
    }

    fn id(&self) -> (r: Option<SubscriptionId>) {
        Some(self.subscription_id.duplicate())
    }
}

/// A real-time OKX trades message.
pub type OkxTrades = OkxMessage<OkxTrade>;

/// A real-time OKX order-book message.
pub type OkxOrderBook = OkxMessage<OkxOrderBookInner>;

/// All four strings of an OKX depth level spell decimals whose tick
/// values fit.
pub open spec fn okx_level_strs_ok(p: (Seq<char>, Seq<char>, Seq<char>, Seq<char>)) -> bool {
    &&& dec_valid(p.0) && dec_ticks(p.0) <= u64::MAX
    &&& dec_valid(p.1) && dec_ticks(p.1) <= u64::MAX
    &&& dec_valid(p.2) && dec_ticks(p.2) <= u64::MAX
    &&& dec_valid(p.3) && dec_ticks(p.3) <= u64::MAX
}

/// The depth level an OKX four-string entry spells, in ticks.
pub open spec fn okx_level_of_strs(p: (Seq<char>, Seq<char>, Seq<char>, Seq<char>)) -> OxkLevel {
    OxkLevel {
        price: dec_ticks(p.0) as u64,
        amount: dec_ticks(p.1) as u64,
        deprecated: dec_ticks(p.2) as u64,
        no_orders: dec_ticks(p.3) as u64,
    }
}

/// Every depth entry of the side is acceptable.
pub open spec fn okx_side_strs_ok(ps: Seq<(Seq<char>, Seq<char>, Seq<char>, Seq<char>)>) -> bool {
    forall|i: int| 0 <= i < ps.len() ==> okx_level_strs_ok(#[trigger] ps[i])
}

/// The depth levels a side's string entries spell, in order.
pub open spec fn okx_side_levels_of(ps: Seq<(Seq<char>, Seq<char>, Seq<char>, Seq<char>)>) -> Seq<
    OxkLevel,
> {
    ps.map_values(|p: (Seq<char>, Seq<char>, Seq<char>, Seq<char>)| okx_level_of_strs(p))
}

/// The string spells a non-negative epoch-millisecond count in range.
pub open spec fn ts_str_ok(t: Seq<char>) -> bool {
    t.len() >= 1 && all_digits(t) && digits_val(t) <= u64::MAX
}

/// The frame carries the OKX envelope: a channel, an instrument id, and
/// a `data` array.
pub open spec fn okx_envelope_ok(f: Seq<char>) -> bool {
    &&& raw_okx_channel_of(f) is Some
    &&& raw_okx_inst_of(f) is Some
    &&& raw_okx_count_of(f) is Some
}

/// The canonical subscription key the frame's envelope names.
pub open spec fn okx_key_of(f: Seq<char>) -> Seq<char> {
    raw_okx_channel_of(f)->Some_0 + "|"@ + raw_okx_inst_of(f)->Some_0
}

/// The `i`th body of an OKX book frame is decodable.
pub open spec fn okx_book_item_ok(f: Seq<char>, i: int) -> bool {
    &&& raw_okx_ask_strs_of(f, i) matches Some(a) && okx_side_strs_ok(a)
    &&& raw_okx_bid_strs_of(f, i) matches Some(b) && okx_side_strs_ok(b)
    &&& raw_okx_ts_of(f, i) matches Some(t) && ts_str_ok(t)
    &&& raw_okx_seq_id_of(f, i) is Some
}

/// An OKX book frame is decodable: the envelope is present and every
/// body within the counted range is acceptable.
pub open spec fn okx_book_frame_ok(f: Seq<char>) -> bool {
    &&& okx_envelope_ok(f)
    &&& forall|i: int| 0 <= i < raw_okx_count_of(f)->Some_0 ==> okx_book_item_ok(f, i)
}

/// The decoded body carries exactly the `i`th body's named values.
pub open spec fn okx_book_item_matches(f: Seq<char>, i: int, inner: OkxOrderBookInner) -> bool {
    &&& raw_okx_ask_strs_of(f, i) matches Some(a) && inner.asks@ == okx_side_levels_of(a)
    &&& raw_okx_bid_strs_of(f, i) matches Some(b) && inner.bids@ == okx_side_levels_of(b)
    &&& raw_okx_ts_of(f, i) matches Some(t) && inner.ts == digits_val(t)
    &&& inner.checksum == raw_okx_checksum_of(f, i)
    &&& Some(inner.seq_id) == raw_okx_seq_id_of(f, i)
}

/// The decoded message is the frame's: its key, its body count, and
/// every body's named values.
pub open spec fn okx_book_matches(f: Seq<char>, msg: OkxOrderBook) -> bool {
    &&& msg.subscription_id@ == okx_key_of(f)
    &&& Some(msg.data@.len() as int) == raw_okx_count_of(f)
    &&& forall|i: int|
        0 <= i < msg.data@.len() ==> okx_book_item_matches(f, i, #[trigger] msg.data@[i])
}

/// The `i`th trade record of an OKX trades frame is decodable: its price
/// and size spell in-range decimals, its side is `buy` or `sell`, and
/// its time spells an epoch-millisecond count.
pub open spec fn okx_trade_strs_ok(t: (Seq<char>, Seq<char>, Seq<char>, Seq<char>, Seq<char>)) -> bool {
    &&& dec_valid(t.1) && dec_ticks(t.1) <= u64::MAX
    &&& dec_valid(t.2) && dec_ticks(t.2) <= u64::MAX
    &&& t.3 == "buy"@ || t.3 == "sell"@
    &&& ts_str_ok(t.4)
}

/// The `i`th trade record is present and decodable.
pub open spec fn okx_trade_item_ok(f: Seq<char>, i: int) -> bool {
    raw_okx_trade_of(f, i) matches Some(t) && okx_trade_strs_ok(t)
}

/// An OKX trades frame is decodable.
pub open spec fn okx_trades_frame_ok(f: Seq<char>) -> bool {
    &&& okx_envelope_ok(f)
    &&& forall|i: int|
        0 <= i < raw_okx_count_of(f)->Some_0 ==> #[trigger] okx_trade_item_ok(f, i)
}

/// The decoded trade carries exactly the `i`th record's named values.
pub open spec fn okx_trade_matches(f: Seq<char>, i: int, tr: OkxTrade) -> bool {
    raw_okx_trade_of(f, i) matches Some(t) && {
        &&& tr.id@ == t.0
        &&& tr.price == dec_ticks(t.1)
        &&& tr.amount == dec_ticks(t.2)
        &&& tr.side == if t.3 == "buy"@ {
            Side::Buy
        } else {
            Side::Sell
        }
        &&& tr.time == digits_val(t.4)
    }
}

/// The decoded trades message is the frame's.
pub open spec fn okx_trades_matches(f: Seq<char>, msg: OkxTrades) -> bool {
    &&& msg.subscription_id@ == okx_key_of(f)
    &&& Some(msg.data@.len() as int) == raw_okx_count_of(f)
    &&& forall|i: int|
        0 <= i < msg.data@.len() ==> okx_trade_matches(f, i, #[trigger] msg.data@[i])
}

/// A decode error with a short fixed reason.
fn okx_decode_error(reason: &str) -> (r: DataError)
    ensures
        r matches DataError::DecodeError { .. },
{
    DataError::DecodeError { reason: String::from_str(reason) }
}

/// Reads one side's four-string depth entries as fixed-point ticks.
fn parse_okx_side(quads: &Vec<(String, String, String, String)>) -> (r: Result<
    Vec<OxkLevel>,
    DataError,
>)
    ensures
        match r {
            Ok(out) => okx_side_strs_ok(quads_view(quads@)) && out@ == okx_side_levels_of(
                quads_view(quads@),
            ),
            Err(e) => !okx_side_strs_ok(quads_view(quads@)) && e
                matches DataError::DecodeError { .. },
        },
{
    let ghost qv = quads_view(quads@);
    let mut out: Vec<OxkLevel> = Vec::new();
    let n = quads.len();
    let mut i: usize = 0;
    while i < n
        invariant
            n == quads@.len(),
            qv == quads_view(quads@),
            qv.len() == n,
            i <= n,
            out@.len() == i,
            forall|j: int| 0 <= j < i ==> okx_level_strs_ok(#[trigger] qv[j]),
            forall|j: int| 0 <= j < i ==> out@[j] == okx_level_of_strs(#[trigger] qv[j]),
        decreases n - i,
    {
        let q = &quads[i];
        proof {
            assert(qv[i as int] == (q.0@, q.1@, q.2@, q.3@));
        }
        let fields = (
            parse_decimal_ticks(q.0.as_str()),
            parse_decimal_ticks(q.1.as_str()),
            parse_decimal_ticks(q.2.as_str()),
            parse_decimal_ticks(q.3.as_str()),
        );
        match fields {
            (Some(price), Some(amount), Some(deprecated), Some(no_orders)) => {
                out.push(OxkLevel { price, amount, deprecated, no_orders });
            },
            _ => {
                proof {
                    assert(!okx_level_strs_ok(qv[i as int]));
                    if okx_side_strs_ok(qv) {
                        assert(okx_level_strs_ok(qv[i as int]));
                    }
                }
                return Err(okx_decode_error("depth field is not a decimal in tick range"));
            },
        }
        i = i + 1;
    }
    proof {
        assert(out@ =~= okx_side_levels_of(qv));
    }
    Ok(out)
}

/// Decodes one OKX order-book frame. The result is `Ok` exactly when the
/// frame is decodable ([`okx_book_frame_ok`]), and then carries the
/// frame's named values exactly ([`okx_book_matches`]).
pub fn decode_okx_order_book(frame: &str) -> (r: Result<OkxOrderBook, DataError>)
    ensures
        match r {
            Ok(msg) => okx_book_frame_ok(frame@) && okx_book_matches(frame@, msg),
            Err(e) => !okx_book_frame_ok(frame@) && e matches DataError::DecodeError { .. },
        },
{
    let channel = match okx_channel(frame) {
        Some(c) => c,
        None => {
            return Err(okx_decode_error("frame has no arg.channel string"));
        },
    };
    let inst = match okx_inst(frame) {
        Some(c) => c,
        None => {
            return Err(okx_decode_error("frame has no arg.instId string"));
        },
    };
    let subscription_id = subscription_id_of(channel.as_str(), inst.as_str());
    let n = match okx_item_count(frame) {
        Some(n) => n,
        None => {
            return Err(okx_decode_error("frame has no data array"));
        },
    };
    let mut data: Vec<OkxOrderBookInner> = Vec::new();
    let mut i: usize = 0;
    while i < n
        invariant
            Some(n as int) == raw_okx_count_of(frame@),
            i <= n,
            data@.len() == i,
            forall|j: int| 0 <= j < i ==> okx_book_item_ok(frame@, j),
            forall|j: int| 0 <= j < i ==> okx_book_item_matches(frame@, j, #[trigger] data@[j]),
        decreases n - i,
    {
        let ask_strs = match okx_item_ask_strs(frame, i) {
            Some(v) => v,
            None => {
                proof {
                    book_frame_not_ok(frame@, i as int);
                }
                return Err(okx_decode_error("book item has no asks array"));
            },
        };
        let bid_strs = match okx_item_bid_strs(frame, i) {
            Some(v) => v,
            None => {
                proof {
                    book_frame_not_ok(frame@, i as int);
                }
                return Err(okx_decode_error("book item has no bids array"));
            },
        };
        let ts_str = match okx_item_ts(frame, i) {
            Some(t) => t,
            None => {
                proof {
                    book_frame_not_ok(frame@, i as int);
                }
                return Err(okx_decode_error("book item has no ts string"));
            },
        };
        let ts = match parse_u64_digits(ts_str.as_str()) {
            Some(v) => v,
            None => {
                proof {
                    book_frame_not_ok(frame@, i as int);
                }
                return Err(okx_decode_error("ts is not an epoch millisecond count"));
            },
        };
        let checksum = okx_item_checksum(frame, i);
        let seq_id = match okx_item_seq_id(frame, i) {
            Some(v) => v,
            None => {
                proof {
                    book_frame_not_ok(frame@, i as int);
                }
                return Err(okx_decode_error("book item has no seqId"));
            },
        };
        let asks = match parse_okx_side(&ask_strs) {
            Ok(v) => v,
            Err(e) => {
                proof {
                    book_frame_not_ok(frame@, i as int);
                }
                return Err(e);
            },
        };
        let bids = match parse_okx_side(&bid_strs) {
            Ok(v) => v,
            Err(e) => {
                proof {
                    book_frame_not_ok(frame@, i as int);
                }
                return Err(e);
            },
        };
        data.push(OkxOrderBookInner { asks, bids, ts, checksum, seq_id });
        i = i + 1;
    }
    Ok(OkxMessage { subscription_id, data })
}

/// When the `i`th counted body fails one of its conditions, the whole
/// book frame is undecodable.
proof fn book_frame_not_ok(f: Seq<char>, i: int)
    requires
        0 <= i < raw_okx_count_of(f)->Some_0,
        !okx_book_item_ok(f, i),
    ensures
        !okx_book_frame_ok(f),
{
    if okx_book_frame_ok(f) {
        assert(okx_book_item_ok(f, i));
    }
}

/// When the `i`th counted trade record fails one of its conditions, the
/// whole trades frame is undecodable.
proof fn trades_frame_not_ok(f: Seq<char>, i: int)
    requires
        0 <= i < raw_okx_count_of(f)->Some_0,
        !okx_trade_item_ok(f, i),
    ensures
        !okx_trades_frame_ok(f),
{
    if okx_trades_frame_ok(f) {
        assert(okx_trade_item_ok(f, i));
    }
}

/// Decodes one OKX trades frame. The result is `Ok` exactly when the
/// frame is decodable ([`okx_trades_frame_ok`]), and then carries the
/// frame's named values exactly ([`okx_trades_matches`]).
pub fn decode_okx_trades(frame: &str) -> (r: Result<OkxTrades, DataError>)
    ensures
        match r {
            Ok(msg) => okx_trades_frame_ok(frame@) && okx_trades_matches(frame@, msg),
            Err(e) => !okx_trades_frame_ok(frame@) && e matches DataError::DecodeError { .. },
        },
{
    let channel = match okx_channel(frame) {
        Some(c) => c,
        None => {
            return Err(okx_decode_error("frame has no arg.channel string"));
        },
    };
    let inst = match okx_inst(frame) {
        Some(c) => c,
        None => {
            return Err(okx_decode_error("frame has no arg.instId string"));
        },
    };
    let subscription_id = subscription_id_of(channel.as_str(), inst.as_str());
    let n = match okx_item_count(frame) {
        Some(n) => n,
        None => {
            return Err(okx_decode_error("frame has no data array"));
        },
    };
    let mut data: Vec<OkxTrade> = Vec::new();
    let mut i: usize = 0;
    while i < n
        invariant
            Some(n as int) == raw_okx_count_of(frame@),
            i <= n,
            data@.len() == i,
            forall|j: int| 0 <= j < i ==> #[trigger] okx_trade_item_ok(frame@, j),
            forall|j: int| 0 <= j < i ==> okx_trade_matches(frame@, j, #[trigger] data@[j]),
        decreases n - i,
    {
        let t = match okx_item_trade(frame, i) {
            Some(t) => t,
            None => {
                proof {
                    trades_frame_not_ok(frame@, i as int);
                }
                return Err(okx_decode_error("trade record is missing a field"));
            },
        };
        let price = match parse_decimal_ticks(t.1.as_str()) {
            Some(v) => v,
            None => {
                proof {
                    trades_frame_not_ok(frame@, i as int);
                }
                return Err(okx_decode_error("px is not a decimal in tick range"));
            },
        };
        let amount = match parse_decimal_ticks(t.2.as_str()) {
            Some(v) => v,
            None => {
                proof {
                    trades_frame_not_ok(frame@, i as int);
                }
                return Err(okx_decode_error("sz is not a decimal in tick range"));
            },
        };
        let side = if str_eq(t.3.as_str(), "buy") {
            Side::Buy
        } else if str_eq(t.3.as_str(), "sell") {
            Side::Sell
        } else {
            proof {
                trades_frame_not_ok(frame@, i as int);
            }
            return Err(okx_decode_error("side must be buy or sell"));
        };
        let time = match parse_u64_digits(t.4.as_str()) {
            Some(v) => v,
            None => {
                proof {
                    trades_frame_not_ok(frame@, i as int);
                }
                return Err(okx_decode_error("ts is not an epoch millisecond count"));
            },
        };
        data.push(OkxTrade { id: t.0, price, amount, side, time });
        i = i + 1;
    }
    Ok(OkxMessage { subscription_id, data })
}

/// The market event one OKX trade stands for, up to the instrument copy.
pub open spec fn okx_trade_event_ok<I: Clone>(
    r: Result<MarketEvent<I, PublicTrade>, DataError>,
    exchange: ExchangeId,
    instrument: I,
    received_time: u64,
    t: OkxTrade,
) -> bool {
    &&& r matches Ok(ev)
    &&& r->Ok_0.exchange_time == t.time
    &&& r->Ok_0.received_time == received_time
    &&& r->Ok_0.exchange == exchange
    &&& cloned::<I>(instrument, r->Ok_0.instrument)
    &&& r->Ok_0.kind == (PublicTrade { id: t.id, price: t.price, amount: t.amount, side: t.side })
}

/// Turns a decoded OKX trades message into normalized public-trade
/// events, one per trade, stamped with the given receipt time.
pub fn market_iter_from_okx_trades<I: Clone>(
    exchange: ExchangeId,
    instrument: &I,
    trades: OkxTrades,
    received_time: u64,
) -> (r: MarketIter<I, PublicTrade>)
    ensures
        r.0@.len() == trades.data@.len(),
        forall|i: int|
            0 <= i < r.0@.len() ==> okx_trade_event_ok(
                #[trigger] r.0@[i],
                exchange,
                *instrument,
                received_time,
                trades.data@[i],
            ),
{
    let mut out: Vec<Result<MarketEvent<I, PublicTrade>, DataError>> = Vec::new();
    let n = trades.data.len();
    let mut i: usize = 0;
    while i < n
        invariant
            n == trades.data@.len(),
            i <= n,
            out@.len() == i,
            forall|j: int|
                0 <= j < i ==> okx_trade_event_ok(
                    #[trigger] out@[j],
                    exchange,
                    *instrument,
                    received_time,
                    trades.data@[j],
                ),
        decreases n - i,
    {
        let t = &trades.data[i];
        let ev = MarketEvent {
            exchange_time: t.time,
            received_time,
            exchange,
            instrument: instrument.clone(),
            kind: PublicTrade {
                id: t.id.clone(),
                price: t.price,
                amount: t.amount,
                side: t.side,
            },
        };
        out.push(Ok(ev));
        i = i + 1;
    }
    MarketIter(out)
}

/// The top-of-book event one OKX book body stands for: the sides are
/// sorted and deduplicated by the core (never trusted as delivered), and
/// the best level of each side is taken from the resulting book.
pub open spec fn okx_l1_event_ok<I: Clone>(
    r: Result<MarketEvent<I, OrderBookL1>, DataError>,
    exchange: ExchangeId,
    instrument: I,
    received_time: u64,
    inner: OkxOrderBookInner,
) -> bool {
    &&& r matches Ok(ev)
    &&& r->Ok_0.exchange_time == inner.ts
    &&& r->Ok_0.received_time == received_time
    &&& r->Ok_0.exchange == exchange
    &&& cloned::<I>(instrument, r->Ok_0.instrument)
    &&& exists|b: OrderBook|
        is_snapshot_result(
            b,
            inner.ts,
            levels_of_okx(inner.bids@),
            levels_of_okx(inner.asks@),
        ) && r->Ok_0.kind == spec_l1(b)
}

/// Turns a decoded OKX order-book message into normalized top-of-book
/// events, one per body.
pub fn market_iter_from_okx_order_book<I: Clone>(
    exchange: ExchangeId,
    instrument: &I,
    book_msg: OkxOrderBook,
    received_time: u64,
) -> (r: MarketIter<I, OrderBookL1>)
    ensures
        r.0@.len() == book_msg.data@.len(),
        forall|i: int|
            0 <= i < r.0@.len() ==> okx_l1_event_ok(
                #[trigger] r.0@[i],
                exchange,
                *instrument,
                received_time,
                book_msg.data@[i],
            ),
{
    let mut out: Vec<Result<MarketEvent<I, OrderBookL1>, DataError>> = Vec::new();
    let n = book_msg.data.len();
    let mut i: usize = 0;
    while i < n
        invariant
            n == book_msg.data@.len(),
            i <= n,
            out@.len() == i,
            forall|j: int|
                0 <= j < i ==> okx_l1_event_ok(
                    #[trigger] out@[j],
                    exchange,
                    *instrument,
                    received_time,
                    book_msg.data@[j],
                ),
        decreases n - i,
    {
        let inner = &book_msg.data[i];
        let mut book = OrderBook::new_empty(0);
        let bids = okx_levels_from(&inner.bids);
        let asks = okx_levels_from(&inner.asks);
        book.apply_snapshot(inner.ts, bids, asks);
        let l1 = book.into_l1();
        let ev = MarketEvent {
            exchange_time: inner.ts,
            received_time,
            exchange,
            instrument: instrument.clone(),
            kind: l1,
        };
        proof {
            assert(is_snapshot_result(
                book,
                inner.ts,
                levels_of_okx(inner.bids@),
                levels_of_okx(inner.asks@),
            ));
        }
        out.push(Ok(ev));
        i = i + 1;
    }
    MarketIter(out)
}

/// Converts an OKX depth side into book levels.
pub fn okx_levels_from(v: &Vec<OxkLevel>) -> (r: Vec<Level>)
    ensures
        r@ == levels_of_okx(v@),
{
    let mut r: Vec<Level> = Vec::new();
    let n = v.len();
    let mut i: usize = 0;
    while i < n
        invariant
            n == v@.len(),
            i <= n,
            r@ =~= levels_of_okx(v@.subrange(0, i as int)),
        decreases n - i,
    {
        r.push(Level::from_okx(v[i]));
        proof {
            assert(v@.subrange(0, i + 1 as int) =~= v@.subrange(0, i as int).push(v@[i as int]));
            assert(levels_of_okx(v@.subrange(0, i + 1 as int)) =~= levels_of_okx(
                v@.subrange(0, i as int),
            ).push(level_of_okx(v@[i as int])));
        }
        i = i + 1;
    }
    proof {
        assert(v@.subrange(0, n as int) =~= v@);
    }
    r
}

} // verus!
