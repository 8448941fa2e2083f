//! Decoders for raw Bybit frames.
//!
//! The JSON engine stands behind the trusted boundary of `crate::json`,
//! which names each field projection as a pure function of the frame
//! text. The decoders here are verified: their contracts state, field by
//! field and in both directions, that a frame decodes successfully
//! exactly when every named projection yields an acceptable value, and
//! that the decoded message carries exactly those values (keys derived by
//! [`de_message_subscription_id`], decimal strings read as ticks by
//! [`parse_decimal_ticks`]).

use vstd::prelude::*;
use vstd::string::StringExecFns;

use crate::decimal::{dec_ticks, dec_valid, parse_decimal_ticks};
use crate::error::DataError;
use crate::json::{
    bybit_ask_strs, bybit_bid_strs, bybit_ret_msg, bybit_seq, bybit_success, bybit_topic,
    bybit_ts, bybit_type, bybit_u, pairs_view, raw_ask_strs_of, raw_bid_strs_of,
    raw_ret_msg_of, raw_seq_of, raw_success_of, raw_topic_of, raw_ts_of, raw_type_of,
    raw_u_of,
};
use crate::message::{
    de_message_subscription_id, de_message_type, topic_key, BybitPayload, BybitResponse,
    BybitReturnMessage, Delta, Snapshot, ValidateType,
};
use crate::strutil::str_eq;
use crate::updater::{BybitBookUpdate, BybitLevel, BybitOrderBookInner};

verus! {

/// Both strings of a level spell decimals whose tick values fit.
pub open spec fn level_strs_ok(p: (Seq<char>, Seq<char>)) -> bool {
    &&& dec_valid(p.0) && dec_ticks(p.0) <= u64::MAX
    &&& dec_valid(p.1) && dec_ticks(p.1) <= u64::MAX
}

/// The level a (price, amount) string pair spells, in ticks.
pub open spec fn level_of_strs(p: (Seq<char>, Seq<char>)) -> BybitLevel {
    BybitLevel { price: dec_ticks(p.0) as u64, amount: dec_ticks(p.1) as u64 }
}

/// Every level string pair of the side is acceptable.
pub open spec fn side_strs_ok(ps: Seq<(Seq<char>, Seq<char>)>) -> bool {
    forall|i: int| 0 <= i < ps.len() ==> level_strs_ok(#[trigger] ps[i])
}

/// The levels a side's string pairs spell, in order.
pub open spec fn side_levels_of(ps: Seq<(Seq<char>, Seq<char>)>) -> Seq<BybitLevel> {
    ps.map_values(|p: (Seq<char>, Seq<char>)| level_of_strs(p))
}

/// A Bybit book frame is decodable: it carries a topic that maps to a
/// subscription key, a `snapshot` or `delta` type tag, a `ts` time, the
/// `u` and `seq` counters, and two level arrays whose strings all spell
/// in-range decimals.
pub open spec fn bybit_book_frame_ok(f: Seq<char>) -> bool {
    &&& raw_topic_of(f) matches Some(t) && topic_key(t) is Some
    &&& raw_type_of(f) matches Some(tag) && (tag == "snapshot"@ || tag == "delta"@)
    &&& raw_ts_of(f) is Some
    &&& raw_u_of(f) is Some
    &&& raw_seq_of(f) is Some
    &&& raw_bid_strs_of(f) matches Some(bs) && side_strs_ok(bs)
    &&& raw_ask_strs_of(f) matches Some(az) && side_strs_ok(az)
}

/// The payload carries exactly the frame's named field values: the key
/// derived from its topic, its type tag, its time and counters, and the
/// tick parses of its level strings.
pub open spec fn payload_matches<V: ValidateType>(
    f: Seq<char>,
    p: BybitPayload<BybitOrderBookInner, V>,
) -> bool {
    &&& raw_topic_of(f) matches Some(t) && topic_key(t) == Some(p.subscription_id@)
    &&& Some(p.message_type@) == raw_type_of(f)
    &&& Some(p.time) == raw_ts_of(f)
    &&& Some(p.data.update_id) == raw_u_of(f)
    &&& Some(p.data.seq) == raw_seq_of(f)
    &&& raw_bid_strs_of(f) matches Some(bs) && p.data.bids@ == side_levels_of(bs)
    &&& raw_ask_strs_of(f) matches Some(az) && p.data.asks@ == side_levels_of(az)
}

/// The decoded update is the frame's: its variant follows the type tag
/// and its payload carries the named field values.
pub open spec fn bybit_book_update_matches(f: Seq<char>, u: BybitBookUpdate) -> bool {
    match u {
        BybitBookUpdate::Snapshot(s) => raw_type_of(f) == Some("snapshot"@) && payload_matches(
            f,
            s,
        ),
        BybitBookUpdate::Delta(d) => raw_type_of(f) == Some("delta"@) && payload_matches(f, d),
    }
}

/// A Bybit control response is decodable: it carries a boolean `success`
/// flag (its `ret_msg`, when absent or not a string, reads as `Other`).
pub open spec fn bybit_response_frame_ok(f: Seq<char>) -> bool {
    raw_success_of(f) is Some
}

/// The acknowledgement text a named `ret_msg` value reads as.
pub open spec fn ret_msg_of(m: Option<Seq<char>>) -> BybitReturnMessage {
    match m {
        Some(s) => if s == "pong"@ {
            BybitReturnMessage::Pong
        } else if s == "subscribe"@ {
            BybitReturnMessage::Subscribe
        } else {
            BybitReturnMessage::Other
        },
        None => BybitReturnMessage::Other,
    }
}

/// The decoded response carries exactly the frame's named values.
pub open spec fn bybit_response_matches(f: Seq<char>, resp: BybitResponse) -> bool {
    &&& Some(resp.success) == raw_success_of(f)
    &&& resp.ret_msg == ret_msg_of(raw_ret_msg_of(f))
}

/// A decode error with a short fixed reason.
fn decode_error(reason: &str) -> (r: DataError)
    ensures
        r matches DataError::DecodeError { .. },
{
    DataError::DecodeError { reason: String::from_str(reason) }
}

/// Reads one side's (price, amount) string pairs as fixed-point ticks.
fn parse_side(pairs: &Vec<(String, String)>) -> (r: Result<Vec<BybitLevel>, DataError>)
    ensures
        match r {
            Ok(out) => side_strs_ok(pairs_view(pairs@)) && out@ == side_levels_of(
                pairs_view(pairs@),
            ),
            Err(e) => !side_strs_ok(pairs_view(pairs@)) && e matches DataError::DecodeError {
                ..
            },
        },
{
    let ghost pv = pairs_view(pairs@);
    let mut out: Vec<BybitLevel> = Vec::new();
    let n = pairs.len();
    let mut i: usize = 0;
    while i < n
        invariant
            n == pairs@.len(),
            pv == pairs_view(pairs@),
            pv.len() == n,
            i <= n,
            out@.len() == i,
            forall|j: int| 0 <= j < i ==> level_strs_ok(#[trigger] pv[j]),
            forall|j: int| 0 <= j < i ==> out@[j] == level_of_strs(#[trigger] pv[j]),
        decreases n - i,
    {
        let p = &pairs[i];
        proof {
            assert(pv[i as int] == (p.0@, p.1@));
        }
        let price = match parse_decimal_ticks(p.0.as_str()) {
            Some(v) => v,
            None => {
                proof {
                    assert(!level_strs_ok(pv[i as int]));
                    if side_strs_ok(pv) {
                        assert(level_strs_ok(pv[i as int]));
                    }
                }
                return Err(decode_error("book level price is not a decimal in tick range"));
            },
        };
        let amount = match parse_decimal_ticks(p.1.as_str()) {
            Some(v) => v,
            None => {
                proof {
                    assert(!level_strs_ok(pv[i as int]));
                    if side_strs_ok(pv) {
                        assert(level_strs_ok(pv[i as int]));
                    }
                }
                return Err(decode_error("book level amount is not a decimal in tick range"));
            },
        };
        out.push(BybitLevel { price, amount });
        i = i + 1;
    }
    proof {
        assert(out@ =~= side_levels_of(pv));
    }
    Ok(out)
}

/// Decodes one Bybit book frame into a tagged snapshot or delta.
///
/// The result is `Ok` exactly when the frame is decodable
/// ([`bybit_book_frame_ok`]), and then carries the frame's named field
/// values exactly ([`bybit_book_update_matches`]): the subscription key
/// derived from the topic, the validated type tag choosing the variant,
/// the exchange time and counters, and every level string read as
/// fixed-point ticks. Any other frame is a decode error: it is dropped
/// and the connection stays up.
pub fn decode_bybit_book_update(frame: &str) -> (r: Result<BybitBookUpdate, DataError>)
    ensures
        match r {
            Ok(u) => bybit_book_frame_ok(frame@) && bybit_book_update_matches(frame@, u),
            Err(e) => !bybit_book_frame_ok(frame@) && e matches DataError::DecodeError { .. },
        },
{
    let topic = match bybit_topic(frame) {
        Some(t) => t,
        None => {
            return Err(decode_error("frame has no topic string"));
        },
    };
    let subscription_id = match de_message_subscription_id(topic.as_str()) {
        Ok(id) => id,
        Err(e) => {
            return Err(e);
        },
    };
    let tag = match bybit_type(frame) {
        Some(t) => t,
        None => {
            return Err(decode_error("frame has no type string"));
        },
    };
    let time = match bybit_ts(frame) {
        Some(v) => v,
        None => {
            return Err(decode_error("frame has no ts millisecond count"));
        },
    };
    let update_id = match bybit_u(frame) {
        Some(v) => v,
        None => {
            return Err(decode_error("frame has no data.u revision number"));
        },
    };
    let seq = match bybit_seq(frame) {
        Some(v) => v,
        None => {
            return Err(decode_error("frame has no data.seq counter"));
        },
    };
    let bid_strs = match bybit_bid_strs(frame) {
        Some(v) => v,
        None => {
            return Err(decode_error("frame has no data.b level array"));
        },
    };
    let ask_strs = match bybit_ask_strs(frame) {
        Some(v) => v,
        None => {
            return Err(decode_error("frame has no data.a level array"));
        },
    };
    let bids = match parse_side(&bid_strs) {
        Ok(v) => v,
        Err(e) => {
            return Err(e);
        },
    };
    let asks = match parse_side(&ask_strs) {
        Ok(v) => v,
        Err(e) => {
            return Err(e);
        },
    };
    let data = BybitOrderBookInner { bids, asks, update_id, seq };
    match de_message_type::<Snapshot>(tag.as_str()) {
        Ok(message_type) => {
            return Ok(
                BybitBookUpdate::Snapshot(
                    BybitPayload {
                        subscription_id,
                        message_type,
                        time,
                        data,
                        _phantom: core::marker::PhantomData,
                    },
                ),
            );
        },
        Err(_) => {},
    }
    match de_message_type::<Delta>(tag.as_str()) {
        Ok(message_type) => Ok(
            BybitBookUpdate::Delta(
                BybitPayload {
                    subscription_id,
                    message_type,
                    time,
                    data,
                    _phantom: core::marker::PhantomData,
                },
            ),
        ),
        Err(_) => Err(decode_error("type must be snapshot or delta")),
    }
}

/// Decodes one Bybit control response. The result is `Ok` exactly when
/// the frame carries a boolean `success` flag, and then holds that flag
/// and the reading of its `ret_msg` text (`"pong"`, `"subscribe"`, or
/// anything else).
pub fn decode_bybit_response(frame: &str) -> (r: Result<BybitResponse, DataError>)
    ensures
        match r {
            Ok(resp) => bybit_response_frame_ok(frame@) && bybit_response_matches(frame@, resp),
            Err(e) => !bybit_response_frame_ok(frame@) && e matches DataError::DecodeError {
                ..
            },
        },
{
    let success = match bybit_success(frame) {
        Some(b) => b,
        None => {
            return Err(decode_error("response has no boolean success flag"));
        },
    };
    let ret_msg = match bybit_ret_msg(frame) {
        Some(s) => {
            if str_eq(s.as_str(), "pong") {
                BybitReturnMessage::Pong
            } else if str_eq(s.as_str(), "subscribe") {
                BybitReturnMessage::Subscribe
            } else {
                BybitReturnMessage::Other
            }
        },
        None => BybitReturnMessage::Other,
    };
    Ok(BybitResponse { success, ret_msg })
}

} // verus!
