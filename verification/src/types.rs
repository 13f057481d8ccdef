//! Core protocol data types: universal market identifiers and the enums
//! and plain records of markets, orders, positions and trades.
use vstd::prelude::*;
use crate::text::{lacks_char, upp_prefix, find_char_from, substring, str_eq};

verus! {

/// Universal Market Identifier: `upp:{provider}:{native_id}`.
#[derive(Debug, Clone)]
pub struct UniversalMarketId {
    pub provider: String,
    pub native_id: String,
}

/// The full textual form of a market identifier.
pub open spec fn full_id_of(provider: Seq<char>, native_id: Seq<char>) -> Seq<char> {
    upp_prefix() + seq![':'] + provider + seq![':'] + native_id
}

/// `s` splits at its first two colons into the scheme `upp`, `provider`
/// and `native_id` (the native part may itself hold colons).
pub open spec fn splits_as_full_id(s: Seq<char>, provider: Seq<char>, native_id: Seq<char>) -> bool {
    &&& s == full_id_of(provider, native_id)
    &&& lacks_char(provider, ':')
}

impl UniversalMarketId {
    pub fn new(provider: &str, native_id: &str) -> (r: Self)
        ensures
            r.provider@ == provider@,
            r.native_id@ == native_id@,
    {
        UniversalMarketId { provider: String::from_str(provider), native_id: String::from_str(native_id) }
    }

    /// Format as `upp:{provider}:{native_id}`.
    pub fn to_full_id(&self) -> (r: String)
        ensures
            r@ == full_id_of(self.provider@, self.native_id@),
    {
        let mut s = String::from_str("upp:");
        s.append(self.provider.as_str());
        s.append(":");
        s.append(self.native_id.as_str());
        proof {
            reveal_strlit("upp:");
            reveal_strlit(":");
            assert(s@ =~= full_id_of(self.provider@, self.native_id@));
        }
        s
    }

    /// Parse from the `upp:{provider}:{native_id}` format.
    pub fn parse(full_id: &str) -> (r: Option<Self>)
        ensures
            match r {
                Some(id) => splits_as_full_id(full_id@, id.provider@, id.native_id@),
                None => forall|p: Seq<char>, n: Seq<char>| !splits_as_full_id(full_id@, p, n),
            },
    {
        let ghost s = full_id@;
        let len = full_id.unicode_len();
        let first = find_char_from(full_id, ':', 0);
        match first {
            None => {
                proof {
                    assert forall|p: Seq<char>, n: Seq<char>| !splits_as_full_id(s, p, n) by {
                        if splits_as_full_id(s, p, n) {
                            lemma_full_id_colons(s, p, n);
                            assert(s.subrange(0, s.len() as int)[3] == s[3]);
                        }
                    }
                }
                None
            },
            Some(i) => {
                let head = substring(full_id, 0, i);
                proof {
                    assert forall|p: Seq<char>, n: Seq<char>| splits_as_full_id(s, p, n) implies i == 3 by {
                        lemma_full_id_colons(s, p, n);
                        if i > 3 {
                            assert(s.subrange(0, i as int)[3] == s[3]);
                        }
                        if i < 3 {
                            assert(s.subrange(0, 3)[i as int] == s[i as int]);
                        }
                    }
                }
                if !str_eq(head.as_str(), "upp") {
                    proof {
                        reveal_strlit("upp");
                        assert forall|p: Seq<char>, n: Seq<char>| !splits_as_full_id(s, p, n) by {
                            if splits_as_full_id(s, p, n) {
                                lemma_full_id_colons(s, p, n);
                                assert(i == 3);
                                assert(head@ =~= upp_prefix());
                                assert("upp"@ =~= upp_prefix());
                            }
                        }
                    }
                    return None;
                }
                let second = find_char_from(full_id, ':', i + 1);
                match second {
                    None => {
                        proof {
                            assert forall|p: Seq<char>, n: Seq<char>| !splits_as_full_id(s, p, n) by {
                                if splits_as_full_id(s, p, n) {
                                    lemma_full_id_colons(s, p, n);
                                    let j: int = 4 + p.len() as int;
                                    assert(s.subrange(4, s.len() as int)[j - 4] == s[j]);
                                }
                            }
                        }
                        None
                    },
                    Some(j) => {
                        let provider = substring(full_id, i + 1, j);
                        let native_id = substring(full_id, j + 1, len);
                        proof {
                            reveal_strlit("upp");
                            assert(head@ =~= upp_prefix());
                            assert(s =~= full_id_of(provider@, native_id@));
                        }
                        Some(UniversalMarketId { provider, native_id })
                    },
                }
            },
        }
    }
}

/// A full identifier reads back as the provider and native id it was
/// written from, whenever the provider holds no colon: the split is the only one.
pub proof fn law_full_id_round_trip(provider: Seq<char>, native_id: Seq<char>)
    requires
        lacks_char(provider, ':'),
    ensures
        splits_as_full_id(full_id_of(provider, native_id), provider, native_id),
        forall|p: Seq<char>, n: Seq<char>|
            splits_as_full_id(full_id_of(provider, native_id), p, n) ==> p == provider && n == native_id,
{
    let s = full_id_of(provider, native_id);
    lemma_full_id_colons(s, provider, native_id);
    assert forall|p: Seq<char>, n: Seq<char>|
        splits_as_full_id(s, p, n) implies p == provider && n == native_id by {
        lemma_full_id_colons(s, p, n);
        if p.len() < provider.len() {
            assert(s.subrange(4, 4 + provider.len() as int)[p.len() as int] == s[4 + p.len() as int]);
        } else if p.len() > provider.len() {
            assert(s.subrange(4, 4 + p.len() as int)[provider.len() as int] == s[4 + provider.len() as int]);
        }
        assert(p.len() == provider.len());
    }
}

/// Where the colons of a full identifier stand.
proof fn lemma_full_id_colons(s: Seq<char>, p: Seq<char>, n: Seq<char>)
    requires
        splits_as_full_id(s, p, n),
    ensures
        s.len() >= 4 + p.len(),
        s[3] == ':',
        s.subrange(0, 3) == upp_prefix(),
        lacks_char(s.subrange(0, 3), ':'),
        s[4 + p.len() as int] == ':',
        s.subrange(4, 4 + p.len() as int) == p,
        lacks_char(s.subrange(4, 4 + p.len() as int), ':'),
        s.subrange(5 + p.len() as int, s.len() as int) == n,
{
    assert(s.subrange(0, 3) =~= upp_prefix());
    assert(s.subrange(4, 4 + p.len() as int) =~= p);
    assert(s.subrange(5 + p.len() as int, s.len() as int) =~= n);
}

/// Market structure.
#[derive(Debug, Clone, Copy, PartialEq, Eq, Structural)]
pub enum MarketType {
    Binary,
    Categorical,
    Scalar,
}

/// Market lifecycle status.
#[derive(Debug, Clone, Copy, PartialEq, Eq, Structural)]
pub enum MarketStatus {
    Pending,
    Open,
    Halted,
    Closed,
    Resolved,
    Disputed,
    Voided,
}

/// Required know-your-customer level.
#[derive(Debug, Clone, Copy, PartialEq, Eq, Structural)]
pub enum KycLevel {
    NoneRequired,
    Basic,
    Enhanced,
    Institutional,
}

/// Order side.
#[derive(Debug, Clone, Copy, PartialEq, Eq, Structural)]
pub enum Side {
    Buy,
    Sell,
}

/// Order type.
#[derive(Debug, Clone, Copy, PartialEq, Eq, Structural)]
pub enum OrderType {
    Limit,
    Market,
}

/// Time in force.
#[derive(Debug, Clone, Copy, PartialEq, Eq, Structural)]
pub enum TimeInForce {
    Gtc,
    Gtd,
    Fok,
    Ioc,
}

/// Order lifecycle status.
#[derive(Debug, Clone, Copy, PartialEq, Eq, Structural)]
pub enum OrderStatus {
    Pending,
    Open,
    PartiallyFilled,
    Filled,
    Cancelled,
    Rejected,
    Expired,
}

/// Position lifecycle status.
#[derive(Debug, Clone, Copy, PartialEq, Eq, Structural)]
pub enum PositionStatus {
    Open,
    Closed,
    Settled,
    Expired,
}

/// Role of a trade in the book.
#[derive(Debug, Clone, Copy, PartialEq, Eq, Structural)]
pub enum TradeRole {
    Maker,
    Taker,
}

/// The event a market belongs to.
#[derive(Debug, Clone)]
pub struct Event {
    pub id: String,
    pub title: String,
    pub description: String,
    pub category: String,
    pub tags: Vec<String>,
    pub image_url: Option<String>,
    pub series_id: Option<String>,
    pub series_title: Option<String>,
}

/// One possible outcome of a market.
#[derive(Debug, Clone)]
pub struct Outcome {
    pub id: String,
    pub label: String,
    pub token_id: Option<String>,
}

/// Trading rules of a market.
#[derive(Debug, Clone)]
pub struct MarketRules {
    pub allowed_order_types: Vec<OrderType>,
    pub allowed_tif: Vec<TimeInForce>,
    pub allows_short_selling: bool,
    pub allows_partial_fill: bool,
    pub maker_fee_rate: String,
    pub taker_fee_rate: String,
    pub max_position_size: i32,
}

/// Regulatory metadata of a market.
#[derive(Debug, Clone)]
pub struct MarketRegulatory {
    pub jurisdiction: String,
    pub compliant: bool,
    pub eligible_regions: Vec<String>,
    pub restricted_regions: Vec<String>,
    pub regulator: String,
    pub license_type: String,
    pub contract_type: String,
    pub required_kyc: KycLevel,
}

/// One entry of a keyed text table, such as a price per outcome.
#[derive(Debug, Clone)]
pub struct KeyValue {
    pub key: String,
    pub value: String,
}

/// Prices of a market per outcome, as decimal strings. Each table lists
/// its entries in insertion order; a later entry for the same outcome
/// overrides an earlier one.
#[derive(Debug, Clone)]
pub struct MarketPricing {
    pub last_price: Vec<KeyValue>,
    pub best_bid: Vec<KeyValue>,
    pub best_ask: Vec<KeyValue>,
    pub mid_price: Vec<KeyValue>,
    pub spread: Vec<KeyValue>,
    pub tick_size: String,
    pub currency: String,
    pub min_order_size: i32,
    pub max_order_size: i32,
    /// Milliseconds since the Unix epoch.
    pub updated_at: i64,
}

/// Traded volume of a market, as decimal strings.
#[derive(Debug, Clone)]
pub struct MarketVolume {
    pub total_volume: String,
    pub volume_24h: String,
    pub volume_7d: Option<String>,
    pub open_interest: String,
    pub num_traders: Option<i32>,
    /// Milliseconds since the Unix epoch.
    pub updated_at: i64,
}

/// Lifecycle of a market; times in milliseconds since the Unix epoch.
#[derive(Debug, Clone)]
pub struct MarketLifecycle {
    pub status: MarketStatus,
    pub created_at: i64,
    pub opens_at: Option<i64>,
    pub closes_at: Option<i64>,
    pub resolved_at: Option<i64>,
    pub expires_at: Option<i64>,
    pub resolution_source: Option<String>,
}

/// A market in the protocol's normalised form.
#[derive(Debug, Clone)]
pub struct Market {
    pub id: UniversalMarketId,
    pub event: Event,
    pub market_type: MarketType,
    pub outcomes: Vec<Outcome>,
    pub pricing: MarketPricing,
    pub volume: MarketVolume,
    pub lifecycle: MarketLifecycle,
    pub rules: MarketRules,
    pub regulatory: MarketRegulatory,
    pub provider_metadata: Vec<KeyValue>,
}

/// Fees charged on an order or trade, as decimal strings.
#[derive(Debug, Clone, Default)]
pub struct OrderFees {
    pub maker_fee: String,
    pub taker_fee: String,
    pub total_fee: String,
}

/// Page request.
#[derive(Debug, Clone, Default)]
pub struct PaginationRequest {
    pub limit: Option<i32>,
    pub cursor: Option<String>,
}

/// Page metadata of a response.
#[derive(Debug, Clone)]
pub struct PaginationResponse {
    pub cursor: String,
    pub has_more: bool,
    pub total: i32,
}

/// Protocol-level error record.
#[derive(Debug, Clone)]
pub struct UppError {
    pub code: String,
    pub message: String,
    pub provider: Option<String>,
    pub request_id: String,
    pub details: std::collections::HashMap<String, String>,
}

/// Renders a fresh random identifier: calls `uuid::Uuid::new_v4` and formats it
/// with `to_string`, the 36-character hyphenated form. Which identifier comes
/// out is left open: it is random.
#[verifier::external_body]
pub(crate) fn new_request_id() -> (r: String)
    ensures
        r@.len() == 36,
{
    uuid::Uuid::new_v4().to_string()
}

/// The text `chrono::DateTime::<Utc>::from_timestamp_millis` followed by
/// `to_rfc3339` gives for an instant in milliseconds since the Unix epoch;
/// `None` when the instant is outside chrono's range.
pub uninterp spec fn millis_rfc3339(ms: int) -> Option<Seq<char>>;

/// Calls `chrono::DateTime::<Utc>::from_timestamp_millis` and renders what
/// it gives with `to_rfc3339`; the result is named by `millis_rfc3339`.
#[verifier::external_body]
fn rfc3339_at_millis(ms: i64) -> (r: Option<String>)
    ensures
        match r {
            Some(t) => millis_rfc3339(ms as int) == Some(t@),
            None => millis_rfc3339(ms as int) is None,
        },
{
    chrono::DateTime::<chrono::Utc>::from_timestamp_millis(ms).map(|d| d.to_rfc3339())
}

/// The wall clock in milliseconds since the Unix epoch, as `clock_millis`
/// reads it (0 before 1970), capped at `i64::MAX`.
pub(crate) fn now_millis() -> (r: i64)
    ensures
        r >= 0,
{
    let m = crate::hardening::clock_millis();
    if m > i64::MAX as u64 { i64::MAX } else { m as i64 }
}

/// The current time as RFC 3339 text; the Unix epoch's text when the clock
/// reads outside the range chrono can render.
pub(crate) fn now_rfc3339() -> (r: String)
    ensures
        exists|t: int| #![trigger millis_rfc3339(t)]
            match millis_rfc3339(t) {
                Some(text) => r@ == text,
                None => r@ == "1970-01-01T00:00:00+00:00"@,
            },
{
    let ms = now_millis();
    match rfc3339_at_millis(ms) {
        Some(t) => t,
        None => "1970-01-01T00:00:00+00:00".to_string(),
    }
}

/// The instant that `chrono::DateTime::parse_from_rfc3339` reads in a text,
/// in milliseconds since the Unix epoch; `None` when it reads none.
pub uninterp spec fn rfc3339_instant_ms(s: Seq<char>) -> Option<int>;

/// Calls `chrono::DateTime::parse_from_rfc3339` and takes `timestamp_millis`
/// of what it reads; the result is named by `rfc3339_instant_ms`.
#[verifier::external_body]
pub(crate) fn parse_rfc3339_ms(s: &str) -> (r: Option<i64>)
    ensures
        match r {
            Some(v) => rfc3339_instant_ms(s@) == Some(v as int),
            None => rfc3339_instant_ms(s@) is None,
        },
{
    chrono::DateTime::parse_from_rfc3339(s).ok().map(|d| d.timestamp_millis())
}

impl UppError {
    pub fn not_found(msg: &str) -> (r: Self)
        ensures
            r.code@ == "NOT_FOUND"@,
            r.message@ == msg@,
            r.provider is None,
            r.request_id@.len() == 36,
            r.details@ == Map::<String, String>::empty(),
    {
        UppError {
            code: String::from_str("NOT_FOUND"),
            message: String::from_str(msg),
            provider: None,
            request_id: new_request_id(),
            details: std::collections::HashMap::new(),
        }
    }

    pub fn internal(msg: &str) -> (r: Self)
        ensures
            r.code@ == "INTERNAL"@,
            r.message@ == msg@,
            r.provider is None,
            r.request_id@.len() == 36,
            r.details@ == Map::<String, String>::empty(),
    {
        UppError {
            code: String::from_str("INTERNAL"),
            message: String::from_str(msg),
            provider: None,
            request_id: new_request_id(),
            details: std::collections::HashMap::new(),
        }
    }
}

} // verus!
