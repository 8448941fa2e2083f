//! Message envelopes shared by the Bybit decoders: the payload wrapper, its
//! type-tag validation, subscription identifiers, and control responses.

use vstd::prelude::*;
use vstd::string::{StrSliceExecFns, StringExecFns};

use crate::decimal::{dot_pos, lemma_dot_pos_bounds, lemma_dot_pos_concat_free, lemma_dot_pos_concat_left, lemma_dot_pos_scan};
use crate::error::DataError;
use crate::strutil::str_eq;

verus! {

/// Canonical demultiplexing tag `"<channel>|<market>"`; comparable by value.
#[derive(Clone, PartialEq, Eq, Hash, Debug)]
pub struct SubscriptionId(pub String);

impl View for SubscriptionId {
    type V = Seq<char>;

    open spec fn view(&self) -> Seq<char> {
        self.0@
    }
}

impl SubscriptionId {
    pub fn from(s: &str) -> (r: SubscriptionId)
        ensures
            r@ == s@,
    {
        SubscriptionId(s.to_owned())
    }

    /// A deep copy of the identifier.
    pub fn duplicate(&self) -> (r: SubscriptionId)
        ensures
            r == *self,
    {
        SubscriptionId(self.0.clone())
    }

    pub fn as_str(&self) -> (r: &str)
        ensures
            r@ == self@,
    {
        self.0.as_str()
    }
}

/// Something that carries a subscription identifier (or none) by which the
/// transformer routes it.
pub trait Identifier<T> {
    /// The identifier the implementor answers with.
    spec fn spec_id(&self) -> T;

    fn id(&self) -> (r: T)
        ensures
            r == self.spec_id(),
    ;
}

/// A message kind that knows which type tag the exchange labels it with.
pub trait ValidateType {
    /// Whether `s` is the type tag of this message kind.
    spec fn spec_validate(s: Seq<char>) -> bool;

    fn validate_type(val: &String) -> (r: bool)
        ensures
            r == Self::spec_validate(val@),
    ;
}

/// Marker for complete-replacement book messages.
#[derive(Clone, Copy, PartialEq, Eq, Structural, Debug)]
pub struct Snapshot;

impl ValidateType for Snapshot {
    open spec fn spec_validate(s: Seq<char>) -> bool {
        s == "snapshot"@
    }

    fn validate_type(val: &String) -> (r: bool) {
        str_eq(val.as_str(), "snapshot")
    }
}

/// Marker for incremental book messages.
#[derive(Clone, Copy, PartialEq, Eq, Structural, Debug)]
pub struct Delta;

impl ValidateType for Delta {
    open spec fn spec_validate(s: Seq<char>) -> bool {
        s == "delta"@
    }

    fn validate_type(val: &String) -> (r: bool) {
        str_eq(val.as_str(), "delta")
    }
}

/// One decoded Bybit event payload: the routing tag, the exchange's type
/// tag, the exchange time in epoch milliseconds, and the typed body.
#[derive(PartialEq, Debug)]
pub struct BybitPayload<T, V: ValidateType> {
    pub subscription_id: SubscriptionId,
    pub message_type: String,
    pub time: u64,
    pub data: T,
    pub _phantom: core::marker::PhantomData<V>,
}

impl<T, V: ValidateType> BybitPayload<T, V> {
    /// Whether the payload's type tag matches the kind `V` expects.
    pub fn validate_type(&self) -> (r: bool)
        ensures
            r == V::spec_validate(self.message_type@),
    {
        V::validate_type(&self.message_type)
    }
}

impl<T: Default, V: ValidateType> Default for BybitPayload<T, V> {
    /// A stand-in payload: the default routing tag, a snapshot type tag,
    /// the epoch as its time, and the body's own default.
    fn default() -> (r: Self)
        ensures
            r.subscription_id@ == "orderbook.50|DEFAULT"@,
            r.message_type@ == "snapshot"@,
            r.time == 0,
    {
        BybitPayload {
            subscription_id: SubscriptionId::from("orderbook.50|DEFAULT"),
            message_type: String::from_str("snapshot"),
            time: 0,
            data: T::default(),
            _phantom: core::marker::PhantomData,
        }
    }
}

impl<T, V: ValidateType> Identifier<Option<SubscriptionId>> for BybitPayload<T, V> {
    open spec fn spec_id(&self) -> Option<SubscriptionId> {
        Some(self.subscription_id)
    }

    fn id(&self) -> (r: Option<SubscriptionId>) {
        Some(self.subscription_id.duplicate())
    }
}

/// The acknowledgement text of a Bybit control response.
#[derive(Clone, PartialEq, Eq, Structural, Debug)]
pub enum BybitReturnMessage {
    Pong,
    Subscribe,
    Other,
}

/// A Bybit control response: subscription acknowledgements and pongs.
#[derive(Clone, PartialEq, Eq, Structural, Debug)]
pub struct BybitResponse {
    pub success: bool,
    pub ret_msg: BybitReturnMessage,
}

/// A Bybit websocket message: either a control response or an event frame.
#[derive(PartialEq, Debug)]
pub enum BybitMessage<T> {
    Response(BybitResponse),
    Event(T),
}

impl<T: Identifier<Option<SubscriptionId>>> Identifier<Option<SubscriptionId>> for BybitMessage<
    T,
> {
    open spec fn spec_id(&self) -> Option<SubscriptionId> {
        match self {
            BybitMessage::Response(_) => None,
            BybitMessage::Event(t) => t.spec_id(),
        }
    }

    fn id(&self) -> (r: Option<SubscriptionId>) {
        match self {
            BybitMessage::Response(_) => None,
            BybitMessage::Event(t) => t.id(),
        }
    }
}

/// The canonical subscription key a Bybit topic string maps to:
/// `publicTrade.<market>` becomes `publicTrade|<market>`, and
/// `orderbook.<levels>.<market>` becomes `orderbook.<levels>|<market>`
/// (anything after a fourth segment is ignored, as the exchange never
/// sends one). Any other shape is rejected.
pub open spec fn topic_key(s: Seq<char>) -> Option<Seq<char>> {
    let d1 = dot_pos(s);
    if d1 >= s.len() {
        None
    } else {
        let seg0 = s.subrange(0, d1);
        let rest = s.subrange(d1 + 1, s.len() as int);
        let d2 = dot_pos(rest);
        if seg0 == "publicTrade"@ && d2 >= rest.len() {
            Some("publicTrade|"@ + rest)
        } else if seg0 == "orderbook"@ && d2 < rest.len() {
            let seg1 = rest.subrange(0, d2);
            let rest2 = rest.subrange(d2 + 1, rest.len() as int);
            let seg2 = rest2.subrange(0, dot_pos(rest2));
            Some("orderbook."@ + seg1 + "|"@ + seg2)
        } else {
            None
        }
    }
}

/// Law (key mapping, trades channel): a topic of exactly the shape
/// `publicTrade.<market>`, the market free of dots, maps to the key
/// `publicTrade|<market>`.
pub proof fn lemma_topic_key_public_trade(s: Seq<char>, m: Seq<char>)
    requires
        s == "publicTrade."@ + m,
        forall|j: int| 0 <= j < m.len() ==> m[j] != '.',
    ensures
        topic_key(s) == Some("publicTrade|"@ + m),
{
    reveal_strlit("publicTrade.");
    reveal_strlit("publicTrade");
    let lit = "publicTrade."@;
    assert(lit.len() == 12);
    assert(dot_pos(lit) == 11) by {
        reveal_with_fuel(dot_pos, 13);
    }
    lemma_dot_pos_concat_left(lit, m);
    assert(dot_pos(s) == 11);
    assert(s.subrange(0, 11) =~= "publicTrade"@);
    let rest = s.subrange(12, s.len() as int);
    assert(rest =~= m);
    lemma_dot_pos_scan(m, m.len() as int);
    lemma_dot_pos_bounds(m);
    assert(dot_pos(m) == m.len());
}

/// Law (key mapping, book channels): a topic of exactly the shape
/// `orderbook.<levels>.<market>`, both segments free of dots, maps to
/// the key `orderbook.<levels>|<market>`.
pub proof fn lemma_topic_key_orderbook(s: Seq<char>, l: Seq<char>, m: Seq<char>)
    requires
        s == "orderbook."@ + l + "."@ + m,
        forall|j: int| 0 <= j < l.len() ==> l[j] != '.',
        forall|j: int| 0 <= j < m.len() ==> m[j] != '.',
    ensures
        topic_key(s) == Some("orderbook."@ + l + "|"@ + m),
{
    reveal_strlit("orderbook.");
    reveal_strlit("orderbook");
    reveal_strlit(".");
    let lit = "orderbook."@;
    assert(lit.len() == 10);
    assert(dot_pos(lit) == 9) by {
        reveal_with_fuel(dot_pos, 11);
    }
    let tail = l + ("."@ + m);
    assert(s =~= lit + tail);
    lemma_dot_pos_concat_left(lit, tail);
    assert(dot_pos(s) == 9);
    assert(s.subrange(0, 9) =~= "orderbook"@);
    let rest = s.subrange(10, s.len() as int);
    assert(rest =~= tail);
    lemma_dot_pos_scan(l, l.len() as int);
    lemma_dot_pos_bounds(l);
    assert(dot_pos(l) == l.len());
    assert(("."@ + m).len() > 0);
    assert(("."@ + m).first() == '.');
    assert(dot_pos("."@ + m) == 0);
    lemma_dot_pos_concat_free(l, "."@ + m);
    assert(dot_pos(rest) == l.len());
    assert(rest.subrange(0, l.len() as int) =~= l);
    let rest2 = rest.subrange(l.len() as int + 1, rest.len() as int);
    assert(rest2 =~= m);
    lemma_dot_pos_scan(m, m.len() as int);
    lemma_dot_pos_bounds(m);
    assert(dot_pos(m) == m.len());
    assert(rest2.subrange(0, dot_pos(rest2)) =~= m);
    assert(topic_key(s) == Some("orderbook."@ + rest.subrange(0, l.len() as int) + "|"@
        + rest2.subrange(0, dot_pos(rest2))));
}

/// Law (key mapping, rejection): a topic without any dot — a single
/// segment such as `orderbook` — maps to no key and the frame is a
/// decode error.
pub proof fn lemma_topic_key_single_segment(s: Seq<char>)
    requires
        forall|j: int| 0 <= j < s.len() ==> s[j] != '.',
    ensures
        topic_key(s) is None,
{
    lemma_dot_pos_scan(s, s.len() as int);
    lemma_dot_pos_bounds(s);
}

/// Index of the first `.` of `s`, or its length when there is none.
fn find_dot(s: &str) -> (idx: usize)
    ensures
        idx == dot_pos(s@),
        idx <= s@.len(),
{
    let n = s.unicode_len();
    let mut i: usize = 0;
    loop
        invariant
            n == s@.len(),
            0 <= i <= n,
            forall|j: int| 0 <= j < i ==> s@[j] != '.',
        ensures
            i <= n,
            forall|j: int| 0 <= j < i ==> s@[j] != '.',
            i < n ==> s@[i as int] == '.',
        decreases n - i,
    {
        if i == n {
            break;
        }
        if s.get_char(i) == '.' {
            break;
        }
        i = i + 1;
    }
    proof {
        lemma_dot_pos_scan(s@, i as int);
        lemma_dot_pos_bounds(s@);
    }
    i
}

/// Derives the canonical subscription key from a Bybit frame's topic
/// field, e.g. `"orderbook.50.ETHUSDT"` to `"orderbook.50|ETHUSDT"`. A
/// topic of any other shape (such as a single segment) is a decode error
/// and the frame is dropped.
pub fn de_message_subscription_id(topic: &str) -> (r: Result<SubscriptionId, DataError>)
    ensures
        match r {
            Ok(id) => topic_key(topic@) == Some(id@),
            Err(e) => topic_key(topic@) is None && e matches DataError::DecodeError { .. },
        },
{
    let n = topic.unicode_len();
    let d1 = find_dot(topic);
    if d1 == n {
        return Err(
            DataError::DecodeError {
                reason: String::from_str("topic must look like <type>.<symbol>"),
            },
        );
    }
    let seg0 = topic.substring_char(0, d1);
    let rest = topic.substring_char(d1 + 1, n);
    let rest_len = n - d1 - 1;
    let d2 = find_dot(rest);
    proof {
        assert(rest@.len() == rest_len);
    }
    if str_eq(seg0, "publicTrade") && d2 == rest_len {
        let mut out = String::from_str("publicTrade|");
        out.append(rest);
        proof {
            assert(out@ == "publicTrade|"@ + rest@);
        }
        return Ok(SubscriptionId(out));
    }
    if str_eq(seg0, "orderbook") && d2 < rest_len {
        let seg1 = rest.substring_char(0, d2);
        let rest2 = rest.substring_char(d2 + 1, rest_len);
        let d3 = find_dot(rest2);
        let seg2 = rest2.substring_char(0, d3);
        let mut out = String::from_str("orderbook.");
        out.append(seg1);
        out.append("|");
        out.append(seg2);
        proof {
            assert(out@ =~= "orderbook."@ + seg1@ + "|"@ + seg2@);
        }
        return Ok(SubscriptionId(out));
    }
    Err(
        DataError::DecodeError {
            reason: String::from_str("topic must look like <type>.<symbol>"),
        },
    )
}

/// Accepts a frame's type tag when it is the one the message kind `V`
/// expects, and rejects the frame otherwise.
pub fn de_message_type<V: ValidateType>(input: &str) -> (r: Result<String, DataError>)
    ensures
        match r {
            Ok(s) => V::spec_validate(input@) && s@ == input@,
            Err(e) => !V::spec_validate(input@) && e matches DataError::DecodeError { .. },
        },
{
    let owned = input.to_owned();
    if V::validate_type(&owned) {
        Ok(owned)
    } else {
        Err(DataError::DecodeError { reason: String::from_str("unexpected message type tag") })
    }
}

/// The subscription key of a market on the deepest Bybit book channel,
/// e.g. `"BTCUSDT"` to `"orderbook.200|BTCUSDT"`.
pub fn de_ob_l2_subscription_id(market: &str) -> (r: SubscriptionId)
    ensures
        r@ == "orderbook.200"@ + "|"@ + market@,
{
    let channel = crate::channel::BybitChannel::order_book_l2();
    subscription_id_of(channel.as_str(), market)
}

/// The canonical subscription key of a channel and market pair:
/// `"<channel>|<market>"`.
pub fn subscription_id_of(channel: &str, market: &str) -> (r: SubscriptionId)
    ensures
        r@ == channel@ + "|"@ + market@,
{
    let mut out = String::new();
    out.append(channel);
    out.append("|");
    out.append(market);
    proof {
        assert(out@ =~= channel@ + "|"@ + market@);
    }
    SubscriptionId(out)
}

} // verus!
