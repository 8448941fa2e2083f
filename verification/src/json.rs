//! The trusted boundary to the JSON engine and the clock.
//!
//! Each `raw_*` name below stands for what parsing a frame and projecting
//! one field yields — a pure function of the frame text, since the JSON
//! engine is deterministic. The accessor beside each name relays exactly
//! the named value and nothing else; every further conclusion the
//! decoders draw (subscription keys, ticks, variants) is proved in
//! verified code from these plain values.

use vstd::prelude::*;

verus! {

/// The views of a sequence of string pairs.
pub open spec fn pairs_view(v: Seq<(String, String)>) -> Seq<(Seq<char>, Seq<char>)> {
    v.map_values(|p: (String, String)| (p.0@, p.1@))
}

/// The views of a sequence of string quadruples.
pub open spec fn quads_view(v: Seq<(String, String, String, String)>) -> Seq<
    (Seq<char>, Seq<char>, Seq<char>, Seq<char>),
> {
    v.map_values(|p: (String, String, String, String)| (p.0@, p.1@, p.2@, p.3@))
}

/// The `topic` string of a Bybit frame.
pub uninterp spec fn raw_topic_of(s: Seq<char>) -> Option<Seq<char>>;

/// Relies on serde_json's from_str, Value::get and Value::as_str: yields
/// exactly the frame's `topic` string, a function of the frame text alone.
#[verifier::external_body]
pub(crate) fn bybit_topic(frame: &str) -> (r: Option<String>)
    ensures
        match r {
            Some(t) => raw_topic_of(frame@) == Some(t@),
            None => raw_topic_of(frame@) is None,
        },
{
    let doc: serde_json::Value = serde_json::from_str(frame).ok()?;
    Some(doc.get("topic")?.as_str()?.to_owned())
}

/// The `type` tag of a Bybit frame.
pub uninterp spec fn raw_type_of(s: Seq<char>) -> Option<Seq<char>>;

/// Relies on serde_json's from_str, Value::get and Value::as_str: yields
/// exactly the frame's `type` string.
#[verifier::external_body]
pub(crate) fn bybit_type(frame: &str) -> (r: Option<String>)
    ensures
        match r {
            Some(t) => raw_type_of(frame@) == Some(t@),
            None => raw_type_of(frame@) is None,
        },
{
    let doc: serde_json::Value = serde_json::from_str(frame).ok()?;
    Some(doc.get("type")?.as_str()?.to_owned())
}

/// The `ts` field of a Bybit frame, when it is a `u64` number.
pub uninterp spec fn raw_ts_of(s: Seq<char>) -> Option<u64>;

/// Relies on serde_json's from_str, Value::get and Value::as_u64.
#[verifier::external_body]
pub(crate) fn bybit_ts(frame: &str) -> (r: Option<u64>)
    ensures
        r == raw_ts_of(frame@),
{
    let doc: serde_json::Value = serde_json::from_str(frame).ok()?;
    doc.get("ts")?.as_u64()
}

/// The `data.u` book revision of a Bybit frame.
pub uninterp spec fn raw_u_of(s: Seq<char>) -> Option<u64>;

/// Relies on serde_json's from_str, Value::get and Value::as_u64.
#[verifier::external_body]
pub(crate) fn bybit_u(frame: &str) -> (r: Option<u64>)
    ensures
        r == raw_u_of(frame@),
{
    let doc: serde_json::Value = serde_json::from_str(frame).ok()?;
    doc.get("data")?.get("u")?.as_u64()
}

/// The `data.seq` counter of a Bybit frame.
pub uninterp spec fn raw_seq_of(s: Seq<char>) -> Option<u64>;

/// Relies on serde_json's from_str, Value::get and Value::as_u64.
#[verifier::external_body]
pub(crate) fn bybit_seq(frame: &str) -> (r: Option<u64>)
    ensures
        r == raw_seq_of(frame@),
{
    let doc: serde_json::Value = serde_json::from_str(frame).ok()?;
    doc.get("data")?.get("seq")?.as_u64()
}

/// The `data.b` bid levels of a Bybit frame, each a (price, amount)
/// string pair; nothing when the array or any entry is malformed.
pub uninterp spec fn raw_bid_strs_of(s: Seq<char>) -> Option<Seq<(Seq<char>, Seq<char>)>>;

/// Relies on serde_json's from_str, Value::get, Value::as_array and
/// Value::as_str: maps each level entry to its two strings, one for one.
#[verifier::external_body]
pub(crate) fn bybit_bid_strs(frame: &str) -> (r: Option<Vec<(String, String)>>)
    ensures
        match r {
            Some(v) => raw_bid_strs_of(frame@) == Some(pairs_view(v@)),
            None => raw_bid_strs_of(frame@) is None,
        },
{
    let doc: serde_json::Value = serde_json::from_str(frame).ok()?;
    let arr = doc.get("data")?.get("b")?.as_array()?;
    let mut out = Vec::new();
    for v in arr {
        out.push((v.get(0)?.as_str()?.to_owned(), v.get(1)?.as_str()?.to_owned()));
    }
    Some(out)
}

/// The `data.a` ask levels of a Bybit frame, as for the bids.
pub uninterp spec fn raw_ask_strs_of(s: Seq<char>) -> Option<Seq<(Seq<char>, Seq<char>)>>;

/// Relies on serde_json's from_str, Value::get, Value::as_array and
/// Value::as_str: maps each level entry to its two strings, one for one.
#[verifier::external_body]
pub(crate) fn bybit_ask_strs(frame: &str) -> (r: Option<Vec<(String, String)>>)
    ensures
        match r {
            Some(v) => raw_ask_strs_of(frame@) == Some(pairs_view(v@)),
            None => raw_ask_strs_of(frame@) is None,
        },
{
    let doc: serde_json::Value = serde_json::from_str(frame).ok()?;
    let arr = doc.get("data")?.get("a")?.as_array()?;
    let mut out = Vec::new();
    for v in arr {
        out.push((v.get(0)?.as_str()?.to_owned(), v.get(1)?.as_str()?.to_owned()));
    }
    Some(out)
}

/// The `success` flag of a Bybit control response.
pub uninterp spec fn raw_success_of(s: Seq<char>) -> Option<bool>;

/// Relies on serde_json's from_str, Value::get and Value::as_bool.
#[verifier::external_body]
pub(crate) fn bybit_success(frame: &str) -> (r: Option<bool>)
    ensures
        r == raw_success_of(frame@),
{
    let doc: serde_json::Value = serde_json::from_str(frame).ok()?;
    doc.get("success")?.as_bool()
}

/// The `ret_msg` string of a Bybit control response.
pub uninterp spec fn raw_ret_msg_of(s: Seq<char>) -> Option<Seq<char>>;

/// Relies on serde_json's from_str, Value::get and Value::as_str.
#[verifier::external_body]
pub(crate) fn bybit_ret_msg(frame: &str) -> (r: Option<String>)
    ensures
        match r {
            Some(t) => raw_ret_msg_of(frame@) == Some(t@),
            None => raw_ret_msg_of(frame@) is None,
        },
{
    let doc: serde_json::Value = serde_json::from_str(frame).ok()?;
    Some(doc.get("ret_msg")?.as_str()?.to_owned())
}

/// The `arg.channel` string of an OKX frame.
pub uninterp spec fn raw_okx_channel_of(s: Seq<char>) -> Option<Seq<char>>;

/// Relies on serde_json's from_str, Value::get and Value::as_str.
#[verifier::external_body]
pub(crate) fn okx_channel(frame: &str) -> (r: Option<String>)
    ensures
        match r {
            Some(t) => raw_okx_channel_of(frame@) == Some(t@),
            None => raw_okx_channel_of(frame@) is None,
        },
{
    let doc: serde_json::Value = serde_json::from_str(frame).ok()?;
    Some(doc.get("arg")?.get("channel")?.as_str()?.to_owned())
}

/// The `arg.instId` string of an OKX frame.
pub uninterp spec fn raw_okx_inst_of(s: Seq<char>) -> Option<Seq<char>>;

/// Relies on serde_json's from_str, Value::get and Value::as_str.
#[verifier::external_body]
pub(crate) fn okx_inst(frame: &str) -> (r: Option<String>)
    ensures
        match r {
            Some(t) => raw_okx_inst_of(frame@) == Some(t@),
            None => raw_okx_inst_of(frame@) is None,
        },
{
    let doc: serde_json::Value = serde_json::from_str(frame).ok()?;
    Some(doc.get("arg")?.get("instId")?.as_str()?.to_owned())
}

/// How many entries the `data` array of an OKX frame holds.
pub uninterp spec fn raw_okx_count_of(s: Seq<char>) -> Option<int>;

/// Relies on serde_json's from_str, Value::get and Value::as_array: the
/// length of the frame's `data` array.
#[verifier::external_body]
pub(crate) fn okx_item_count(frame: &str) -> (r: Option<usize>)
    ensures
        match r {
            Some(n) => raw_okx_count_of(frame@) == Some(n as int),
            None => raw_okx_count_of(frame@) is None,
        },
{
    let doc: serde_json::Value = serde_json::from_str(frame).ok()?;
    Some(doc.get("data")?.as_array()?.len())
}

/// The `ts` string of the `i`th `data` entry of an OKX frame.
pub uninterp spec fn raw_okx_ts_of(s: Seq<char>, i: int) -> Option<Seq<char>>;

/// Relies on serde_json's from_str, Value::get and Value::as_str.
#[verifier::external_body]
pub(crate) fn okx_item_ts(frame: &str, i: usize) -> (r: Option<String>)
    ensures
        match r {
            Some(t) => raw_okx_ts_of(frame@, i as int) == Some(t@),
            None => raw_okx_ts_of(frame@, i as int) is None,
        },
{
    let doc: serde_json::Value = serde_json::from_str(frame).ok()?;
    Some(doc.get("data")?.get(i)?.get("ts")?.as_str()?.to_owned())
}

/// The `checksum` of the `i`th `data` entry of an OKX frame, when
/// present as an `i64` number.
pub uninterp spec fn raw_okx_checksum_of(s: Seq<char>, i: int) -> Option<i64>;

/// Relies on serde_json's from_str, Value::get and Value::as_i64.
#[verifier::external_body]
pub(crate) fn okx_item_checksum(frame: &str, i: usize) -> (r: Option<i64>)
    ensures
        r == raw_okx_checksum_of(frame@, i as int),
{
    let doc: serde_json::Value = serde_json::from_str(frame).ok()?;
    doc.get("data")?.get(i)?.get("checksum")?.as_i64()
}

/// The `seqId` of the `i`th `data` entry of an OKX frame.
pub uninterp spec fn raw_okx_seq_id_of(s: Seq<char>, i: int) -> Option<i64>;

/// Relies on serde_json's from_str, Value::get and Value::as_i64.
#[verifier::external_body]
pub(crate) fn okx_item_seq_id(frame: &str, i: usize) -> (r: Option<i64>)
    ensures
        r == raw_okx_seq_id_of(frame@, i as int),
{
    let doc: serde_json::Value = serde_json::from_str(frame).ok()?;
    doc.get("data")?.get(i)?.get("seqId")?.as_i64()
}

/// The `asks` of the `i`th `data` entry of an OKX frame, each a
/// four-string depth level.
pub uninterp spec fn raw_okx_ask_strs_of(s: Seq<char>, i: int) -> Option<
    Seq<(Seq<char>, Seq<char>, Seq<char>, Seq<char>)>,
>;

/// Relies on serde_json's from_str, Value::get, Value::as_array and
/// Value::as_str: maps each depth entry to its four strings, one for one.
#[verifier::external_body]
pub(crate) fn okx_item_ask_strs(frame: &str, i: usize) -> (r: Option<
    Vec<(String, String, String, String)>,
>)
    ensures
        match r {
            Some(v) => raw_okx_ask_strs_of(frame@, i as int) == Some(quads_view(v@)),
            None => raw_okx_ask_strs_of(frame@, i as int) is None,
        },
{
    let doc: serde_json::Value = serde_json::from_str(frame).ok()?;
    let arr = doc.get("data")?.get(i)?.get("asks")?.as_array()?;
    let mut out = Vec::new();
    for v in arr {
        out.push((v.get(0)?.as_str()?.to_owned(), v.get(1)?.as_str()?.to_owned(),
                v.get(2)?.as_str()?.to_owned(), v.get(3)?.as_str()?.to_owned()));
    }
    Some(out)
}

/// The `bids` of the `i`th `data` entry of an OKX frame, as for the asks.
pub uninterp spec fn raw_okx_bid_strs_of(s: Seq<char>, i: int) -> Option<
    Seq<(Seq<char>, Seq<char>, Seq<char>, Seq<char>)>,
>;

/// Relies on serde_json's from_str, Value::get, Value::as_array and
/// Value::as_str: maps each depth entry to its four strings, one for one.
#[verifier::external_body]
pub(crate) fn okx_item_bid_strs(frame: &str, i: usize) -> (r: Option<
    Vec<(String, String, String, String)>,
>)
    ensures
        match r {
            Some(v) => raw_okx_bid_strs_of(frame@, i as int) == Some(quads_view(v@)),
            None => raw_okx_bid_strs_of(frame@, i as int) is None,
        },
{
    let doc: serde_json::Value = serde_json::from_str(frame).ok()?;
    let arr = doc.get("data")?.get(i)?.get("bids")?.as_array()?;
    let mut out = Vec::new();
    for v in arr {
        out.push((v.get(0)?.as_str()?.to_owned(), v.get(1)?.as_str()?.to_owned(),
                v.get(2)?.as_str()?.to_owned(), v.get(3)?.as_str()?.to_owned()));
    }
    Some(out)
}

/// The `tradeId`, `px`, `sz`, `side` and `ts` strings of the `i`th
/// `data` entry of an OKX trades frame.
pub uninterp spec fn raw_okx_trade_of(s: Seq<char>, i: int) -> Option<
    (Seq<char>, Seq<char>, Seq<char>, Seq<char>, Seq<char>),
>;

/// Relies on serde_json's from_str, Value::get and Value::as_str: yields
/// the five string fields of one trade record.
#[verifier::external_body]
pub(crate) fn okx_item_trade(frame: &str, i: usize) -> (r: Option<
    (String, String, String, String, String),
>)
    ensures
        match r {
            Some(t) => raw_okx_trade_of(frame@, i as int) == Some(
                (t.0@, t.1@, t.2@, t.3@, t.4@),
            ),
            None => raw_okx_trade_of(frame@, i as int) is None,
        },
{
    let doc: serde_json::Value = serde_json::from_str(frame).ok()?;
    let item = doc.get("data")?.get(i)?;
    Some((
        item.get("tradeId")?.as_str()?.to_owned(),
        item.get("px")?.as_str()?.to_owned(),
        item.get("sz")?.as_str()?.to_owned(),
        item.get("side")?.as_str()?.to_owned(),
        item.get("ts")?.as_str()?.to_owned(),
    ))
}

/// Relies on std's SystemTime::now and its distance from the Unix epoch:
/// reports the clock as an epoch-millisecond count, or zero for a clock
/// set before the epoch (the Err arm of duration_since); neither path
/// can abort. Nothing is assumed of the value.
#[verifier::external_body]
fn now_epoch_ms() -> (r: u64) {
    match std::time::SystemTime::now().duration_since(std::time::UNIX_EPOCH) {
        Ok(d) => d.as_millis() as u64,
        Err(_) => 0,
    }
}

/// The current time as an epoch-millisecond count; a clock set before
/// the epoch is reported as zero by the boundary itself.
pub fn received_time_now() -> (r: u64) {
    now_epoch_ms()
}

} // verus!
