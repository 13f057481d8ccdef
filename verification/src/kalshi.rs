//! Kalshi: its wire records and their translation into the protocol's
//! markets and order books. Kalshi quotes prices in whole cents.
use vstd::prelude::*;
use crate::adapters::{
    capabilities_view, capability, capability_view, OrderBookLevel, OrderBookSnapshot, ProviderInfo, ProviderManifest, RateLimitInfo,
    TransportInfo,
};
use crate::adapters::MarketFilter;
use crate::decimal::int_string;
use crate::listing::MarketPage;
use crate::text::texts;
use crate::types::PaginationResponse;
use crate::decimal::{decimal_micros, fixed_text, format_micros, i64_text_value, parse_i64, parse_price_micros};
use crate::types::{
    now_millis, Event, KeyValue, KycLevel, Market, MarketLifecycle, MarketPricing, MarketRegulatory, MarketRules,
    MarketStatus, MarketType, MarketVolume, OrderType, Outcome, TimeInForce, UniversalMarketId,
};

verus! {

/// A market as Kalshi's API describes it.
#[derive(Debug, Clone)]
pub struct KalshiMarket {
    pub ticker: String,
    pub event_ticker: String,
    pub market_type: Option<String>,
    pub title: String,
    pub subtitle: Option<String>,
    pub yes_sub_title: Option<String>,
    pub no_sub_title: Option<String>,
    pub open_time: Option<String>,
    pub close_time: Option<String>,
    pub expiration_time: Option<String>,
    pub status: String,
    pub result: Option<String>,
    pub yes_bid: Option<i64>,
    pub yes_ask: Option<i64>,
    pub no_bid: Option<i64>,
    pub no_ask: Option<i64>,
    pub last_price: Option<i64>,
    pub volume: Option<i64>,
    pub volume_24h: Option<i64>,
    pub open_interest: Option<i64>,
    pub can_close_early: Option<bool>,
    pub category: Option<String>,
}

/// Kalshi's order book: per side, rows of `[price in cents, quantity]`,
/// each cell read as an integer when it is one.
#[derive(Debug, Clone)]
pub struct KalshiOrderbook {
    pub yes: Option<Vec<Vec<Option<i64>>>>,
    pub no: Option<Vec<Vec<Option<i64>>>>,
}

/// The instant an RFC 3339 text names, in milliseconds since the Unix
/// epoch, as `chrono` reads it; `None` when it reads no instant.
pub uninterp spec fn rfc3339_millis(s: Seq<char>) -> Option<int>;

/// Parses a timestamp with `str::parse::<chrono::DateTime<chrono::Utc>>`
/// and takes `timestamp_millis`; the result is named by `rfc3339_millis`.
#[verifier::external_body]
fn parse_timestamp_ms(s: &str) -> (r: Option<i64>)
    ensures
        match r {
            Some(v) => rfc3339_millis(s@) == Some(v as int),
            None => rfc3339_millis(s@) is None,
        },
{
    s.parse::<chrono::DateTime<chrono::Utc>>().ok().map(|d| d.timestamp_millis())
}

/// A parsed optional timestamp.
pub open spec fn timestamp_of(t: Option<String>) -> Option<int> {
    match t {
        Some(s) => rfc3339_millis(s@),
        None => None,
    }
}

fn optional_timestamp(t: &Option<String>) -> (r: Option<i64>)
    ensures
        match r {
            Some(v) => timestamp_of(*t) == Some(v as int),
            None => timestamp_of(*t) is None,
        },
{
    match t {
        Some(s) => parse_timestamp_ms(s.as_str()),
        None => None,
    }
}

// ─── Prices ─────────────────────────────────────────────────

/// Cents as a decimal price with two places: `65` is `"0.65"`.
pub open spec fn cents_text(cents: int) -> Seq<char> {
    fixed_text(cents * 10_000, 2)
}

/// Cents written as a protocol price.
pub fn cents_to_upp(cents: i64) -> (s: String)
    ensures
        s@ == cents_text(cents as int),
{
    format_micros((cents as i128) * 10_000, 2)
}

/// Cents of a protocol price: micros over ten thousand, a half rounding
/// away from zero.
pub open spec fn cents_of_micros(v: int) -> int {
    if v >= 0 { (v + 5_000) / 10_000 } else { -((-v + 5_000) / 10_000) }
}

/// A protocol price in whole cents; an error for a text that is no price.
pub fn upp_to_cents(decimal: &str) -> (r: Result<i64, String>)
    ensures
        match decimal_micros(decimal@) {
            Some(v) => r == Ok::<i64, String>(cents_of_micros(v) as i64),
            None => r matches Err(m) && m@ == "Invalid decimal price"@,
        },
{
    proof {
        crate::decimal::lemma_decimal_micros_bounded(decimal@);
    }
    match parse_price_micros(decimal) {
        Some(v) => {
            if v >= 0 {
                Ok((v + 5_000) / 10_000)
            } else {
                Ok(-((-v + 5_000) / 10_000))
            }
        },
        None => Err(String::from_str("Invalid decimal price")),
    }
}

/// Whole cents of a price text, truncated; zero when it is no price.
pub open spec fn truncated_cents(p: Seq<char>) -> int {
    match decimal_micros(p) {
        Some(v) => if v >= 0 { v / 10_000 } else { -((-v) / 10_000) },
        None => 0,
    }
}

// ─── Order books ────────────────────────────────────────────

/// The levels of one side: one per row holding at least two cells, the
/// first as the price in cents and the second as the quantity (zero for a
/// cell that is no integer).
pub open spec fn rows_levels(rows: Seq<Vec<Option<i64>>>) -> Seq<(Seq<char>, i64)>
    decreases rows.len(),
{
    if rows.len() == 0 {
        Seq::empty()
    } else {
        let rest = rows_levels(rows.drop_last());
        let row = rows.last()@;
        if row.len() >= 2 {
            let c = match row[0] { Some(v) => v, None => 0i64 };
            let q = match row[1] { Some(v) => v, None => 0i64 };
            rest.push((cents_text(c as int), q))
        } else {
            rest
        }
    }
}

/// The asks implied by the other outcome's bids: each at 100 cents minus
/// that bid, with the same quantity.
pub open spec fn mirrored(bids: Seq<(Seq<char>, i64)>) -> Seq<(Seq<char>, i64)> {
    bids.map_values(|b: (Seq<char>, i64)| (cents_text(100 - truncated_cents(b.0)), b.1))
}

/// Levels as texts and quantities.
pub open spec fn levels_view(ls: Seq<OrderBookLevel>) -> Seq<(Seq<char>, i64)> {
    ls.map_values(|l: OrderBookLevel| (l.price@, l.quantity))
}

/// A side's rows, or none.
pub open spec fn side_rows(side: Option<Vec<Vec<Option<i64>>>>) -> Seq<Vec<Option<i64>>> {
    match side {
        Some(v) => v@,
        None => Seq::empty(),
    }
}

fn levels_of_rows(rows: &Option<Vec<Vec<Option<i64>>>>) -> (r: Vec<OrderBookLevel>)
    ensures
        levels_view(r@) == rows_levels(side_rows(*rows)),
{
    let mut out: Vec<OrderBookLevel> = Vec::new();
    match rows {
        Some(rs) => {
            let mut i: usize = 0;
            while i < rs.len()
                invariant
                    i <= rs@.len(),
                    levels_view(out@) == rows_levels(rs@.take(i as int)),
                decreases rs@.len() - i,
            {
                let ghost t = rs@.take(i as int + 1);
                assert(t.drop_last() =~= rs@.take(i as int));
                let row = &rs[i];
                if row.len() >= 2 {
                    let c: i64 = match row[0] { Some(v) => v, None => 0 };
                    let q: i64 = match row[1] { Some(v) => v, None => 0 };
                    let ghost before = levels_view(out@);
                    out.push(OrderBookLevel { price: cents_to_upp(c), quantity: q });
                    assert(levels_view(out@) =~= before.push((cents_text(c as int), q)));
                }
                i = i + 1;
            }
            assert(rs@.take(rs@.len() as int) =~= rs@);
        },
        None => {
            assert(levels_view(out@) =~= Seq::<(Seq<char>, i64)>::empty());
        },
    }
    out
}

fn mirror_levels(bids: &Vec<OrderBookLevel>) -> (r: Vec<OrderBookLevel>)
    ensures
        levels_view(r@) == mirrored(levels_view(bids@)),
{
    let mut out: Vec<OrderBookLevel> = Vec::new();
    let mut i: usize = 0;
    while i < bids.len()
        invariant
            i <= bids@.len(),
            levels_view(out@) == mirrored(levels_view(bids@.take(i as int))),
        decreases bids@.len() - i,
    {
        let b = &bids[i];
        proof {
            crate::decimal::lemma_decimal_micros_bounded(b.price@);
        }
        let cents: i64 = match parse_price_micros(b.price.as_str()) {
            Some(v) => if v >= 0 { v / 10_000 } else { -((-v) / 10_000) },
            None => 0,
        };
        let ghost before = levels_view(out@);
        out.push(OrderBookLevel { price: cents_to_upp(100 - cents), quantity: b.quantity });
        assert(levels_view(out@) =~= before.push((cents_text(100 - truncated_cents(b.price@)), b.quantity)));
        assert(mirrored(levels_view(bids@.take(i as int + 1))) =~= mirrored(levels_view(bids@.take(i as int))).push(
            (cents_text(100 - truncated_cents(b.price@)), b.quantity),
        ));
        i = i + 1;
    }
    assert(bids@.take(bids@.len() as int) =~= bids@);
    out
}

/// Kalshi's book as protocol snapshots: one for `yes` and one for `no`,
/// each with the bids Kalshi lists and asks mirrored from the other
/// outcome's bids (marked as computed).
pub fn transform_orderbook(ob: &KalshiOrderbook) -> (snaps: Vec<OrderBookSnapshot>)
    ensures
        snaps@.len() == 2,
        snaps@[0].outcome_id@ == "yes"@,
        levels_view(snaps@[0].bids@) == rows_levels(side_rows(ob.yes)),
        levels_view(snaps@[0].asks@) == mirrored(rows_levels(side_rows(ob.no))),
        snaps@[0].asks_computed,
        snaps@[1].outcome_id@ == "no"@,
        levels_view(snaps@[1].bids@) == rows_levels(side_rows(ob.no)),
        levels_view(snaps@[1].asks@) == mirrored(rows_levels(side_rows(ob.yes))),
        snaps@[1].asks_computed,
{
    let yes_bids = levels_of_rows(&ob.yes);
    let no_bids = levels_of_rows(&ob.no);
    let yes_asks = mirror_levels(&no_bids);
    let no_asks = mirror_levels(&yes_bids);
    proof {
        reveal_strlit("yes");
        reveal_strlit("no");
    }
    let mut snaps: Vec<OrderBookSnapshot> = Vec::new();
    snaps.push(OrderBookSnapshot { outcome_id: "yes".to_string(), bids: yes_bids, asks: yes_asks, asks_computed: true });
    snaps.push(OrderBookSnapshot { outcome_id: "no".to_string(), bids: no_bids, asks: no_asks, asks_computed: true });
    snaps
}


// ─── Markets ────────────────────────────────────────────────

/// An optional count, zero when absent.
pub open spec fn or_zero(o: Option<i64>) -> int {
    match o {
        Some(v) => v as int,
        None => 0,
    }
}

/// An optional text, or a default.
pub open spec fn text_or(o: Option<String>, d: Seq<char>) -> Seq<char> {
    match o {
        Some(s) => s@,
        None => d,
    }
}

/// An integer written in decimal, as `to_string` writes it.
pub open spec fn int_text(v: int) -> Seq<char> {
    fixed_text(v * 1_000_000, 0)
}

/// Half of an integer, rounded toward zero.
pub open spec fn half(v: int) -> int {
    if v >= 0 { v / 2 } else { -((-v) / 2) }
}

/// Market status of a Kalshi status word.
pub open spec fn kalshi_status(s: Seq<char>) -> MarketStatus {
    if s == "open"@ {
        MarketStatus::Open
    } else if s == "closed"@ {
        MarketStatus::Closed
    } else if s == "settled"@ {
        MarketStatus::Resolved
    } else {
        MarketStatus::Pending
    }
}

/// A two-entry table: `yes` then `no`.
pub open spec fn yes_no(t: Seq<KeyValue>, yes: Seq<char>, no: Seq<char>) -> bool {
    &&& t.len() == 2
    &&& t[0].key@ == "yes"@ && t[0].value@ == yes
    &&& t[1].key@ == "no"@ && t[1].value@ == no
}

/// The prices of a Kalshi market never overflow when derived.
pub open spec fn kalshi_prices_fit(km: KalshiMarket) -> bool {
    let yb = or_zero(km.yes_bid);
    let ya = or_zero(km.yes_ask);
    let nb = or_zero(km.no_bid);
    let na = or_zero(km.no_ask);
    let last = or_zero(km.last_price);
    &&& i64::MIN <= 100 - last <= i64::MAX
    &&& i64::MIN <= yb + ya <= i64::MAX
    &&& i64::MIN <= ya - yb <= i64::MAX
    &&& i64::MIN <= nb + na <= i64::MAX
    &&& i64::MIN <= na - nb <= i64::MAX
}

/// `m` is the protocol form of the Kalshi market `km`: a binary yes/no
/// market whose prices come from Kalshi's cents (the `no` last price is the
/// complement of the `yes` one, mid prices the halved sums of bid and ask,
/// spreads ask minus bid), whose status follows Kalshi's status word, and
/// whose rules and regulation are those of a CFTC-regulated contract
/// market. Only the times read from the clock are left open.
pub open spec fn is_kalshi_market(m: Market, km: KalshiMarket) -> bool {
    let yb = or_zero(km.yes_bid);
    let ya = or_zero(km.yes_ask);
    let nb = or_zero(km.no_bid);
    let na = or_zero(km.no_ask);
    let last = or_zero(km.last_price);
    &&& m.id.provider@ == "kalshi.com"@
    &&& m.id.native_id@ == km.ticker@
    &&& m.event.id@ == km.event_ticker@
    &&& m.event.title@ == km.title@
    &&& m.event.description@ == text_or(km.subtitle, Seq::empty())
    &&& m.event.category@ == text_or(km.category, "general"@)
    &&& m.event.tags@.len() == 0
    &&& m.event.image_url is None
    &&& m.event.series_id matches Some(sid) && sid@ == km.event_ticker@
    &&& m.event.series_title is None
    &&& m.market_type == MarketType::Binary
    &&& m.outcomes@.len() == 2
    &&& m.outcomes@[0].id@ == "yes"@ && m.outcomes@[0].label@ == text_or(km.yes_sub_title, "Yes"@)
        && m.outcomes@[0].token_id is None
    &&& m.outcomes@[1].id@ == "no"@ && m.outcomes@[1].label@ == text_or(km.no_sub_title, "No"@)
        && m.outcomes@[1].token_id is None
    &&& yes_no(m.pricing.last_price@, cents_text(last), cents_text(100 - last))
    &&& yes_no(m.pricing.best_bid@, cents_text(yb), cents_text(nb))
    &&& yes_no(m.pricing.best_ask@, cents_text(ya), cents_text(na))
    &&& yes_no(m.pricing.mid_price@, cents_text(half(yb + ya)), cents_text(half(nb + na)))
    &&& yes_no(m.pricing.spread@, cents_text(ya - yb), cents_text(na - nb))
    &&& m.pricing.tick_size@ == "0.01"@
    &&& m.pricing.currency@ == "USD"@
    &&& m.pricing.min_order_size == 1
    &&& m.pricing.max_order_size == 25000
    &&& m.volume.total_volume@ == int_text(or_zero(km.volume))
    &&& m.volume.volume_24h@ == int_text(or_zero(km.volume_24h))
    &&& m.volume.volume_7d is None
    &&& m.volume.open_interest@ == int_text(or_zero(km.open_interest))
    &&& m.volume.num_traders is None
    &&& m.lifecycle.status == kalshi_status(km.status@)
    &&& (match m.lifecycle.opens_at { Some(t) => timestamp_of(km.open_time) == Some(t as int), None => timestamp_of(km.open_time) is None })
    &&& (match m.lifecycle.closes_at { Some(t) => timestamp_of(km.close_time) == Some(t as int), None => timestamp_of(km.close_time) is None })
    &&& m.lifecycle.resolved_at is None
    &&& (match m.lifecycle.expires_at { Some(t) => timestamp_of(km.expiration_time) == Some(t as int), None => timestamp_of(km.expiration_time) is None })
    &&& m.lifecycle.resolution_source matches Some(src) && src@ == "Kalshi Official Data Feed"@
    &&& m.rules.allowed_order_types@ == seq![OrderType::Limit, OrderType::Market]
    &&& m.rules.allowed_tif@ == seq![TimeInForce::Gtc, TimeInForce::Gtd, TimeInForce::Fok, TimeInForce::Ioc]
    &&& !m.rules.allows_short_selling
    &&& m.rules.allows_partial_fill
    &&& m.rules.maker_fee_rate@ == "0.00"@
    &&& m.rules.taker_fee_rate@ == "0.00"@
    &&& m.rules.max_position_size == 25000
    &&& m.regulatory.jurisdiction@ == "US"@
    &&& m.regulatory.compliant
    &&& m.regulatory.eligible_regions@.len() == 1 && m.regulatory.eligible_regions@[0]@ == "US"@
    &&& m.regulatory.restricted_regions@.len() == 0
    &&& m.regulatory.regulator@ == "CFTC"@
    &&& m.regulatory.license_type@ == "DCM"@
    &&& m.regulatory.contract_type@ == "event_contract"@
    &&& m.regulatory.required_kyc == KycLevel::Enhanced
    &&& m.provider_metadata@.len() == 2
    &&& m.provider_metadata@[0].key@ == "kalshi_ticker"@ && m.provider_metadata@[0].value@ == km.ticker@
    &&& m.provider_metadata@[1].key@ == "kalshi_event_ticker"@ && m.provider_metadata@[1].value@ == km.event_ticker@
}

fn text_or_default(o: &Option<String>, d: &str) -> (r: String)
    ensures
        r@ == text_or(*o, d@),
{
    match o {
        Some(s) => s.clone(),
        None => d.to_string(),
    }
}

fn count_text(v: Option<i64>) -> (r: String)
    ensures
        r@ == int_text(or_zero(v)),
{
    let n: i64 = match v {
        Some(x) => x,
        None => 0,
    };
    format_micros((n as i128) * 1_000_000, 0)
}

fn yes_no_table(yes: String, no: String) -> (t: Vec<KeyValue>)
    ensures
        yes_no(t@, yes@, no@),
{
    proof {
        reveal_strlit("yes");
        reveal_strlit("no");
    }
    let mut t: Vec<KeyValue> = Vec::new();
    t.push(KeyValue { key: "yes".to_string(), value: yes });
    t.push(KeyValue { key: "no".to_string(), value: no });
    t
}

fn kalshi_status_of(s: &str) -> (r: MarketStatus)
    ensures
        r == kalshi_status(s@),
{
    if crate::text::str_eq(s, "open") {
        MarketStatus::Open
    } else if crate::text::str_eq(s, "closed") {
        MarketStatus::Closed
    } else if crate::text::str_eq(s, "settled") {
        MarketStatus::Resolved
    } else {
        MarketStatus::Pending
    }
}

/// Whether a market's prices are small enough for `transform_market`: the
/// sums and differences it forms of them fit in `i64`.
pub fn prices_fit(km: &KalshiMarket) -> (r: bool)
    ensures
        r == kalshi_prices_fit(*km),
{
    let yb: i128 = match km.yes_bid { Some(v) => v as i128, None => 0 };
    let ya: i128 = match km.yes_ask { Some(v) => v as i128, None => 0 };
    let nb: i128 = match km.no_bid { Some(v) => v as i128, None => 0 };
    let na: i128 = match km.no_ask { Some(v) => v as i128, None => 0 };
    let last: i128 = match km.last_price { Some(v) => v as i128, None => 0 };
    let lo: i128 = i64::MIN as i128;
    let hi: i128 = i64::MAX as i128;
    lo <= 100 - last && 100 - last <= hi && lo <= yb + ya && yb + ya <= hi && lo <= ya - yb && ya - yb <= hi
        && lo <= nb + na && nb + na <= hi && lo <= na - nb && na - nb <= hi
}

/// A Kalshi market in the protocol's form.
#[verifier::rlimit(60)]
pub fn transform_market(km: &KalshiMarket) -> (m: Market)
    requires
        kalshi_prices_fit(*km),
    ensures
        is_kalshi_market(m, *km),
{
    let yes_bid: i64 = match km.yes_bid { Some(v) => v, None => 0 };
    let yes_ask: i64 = match km.yes_ask { Some(v) => v, None => 0 };
    let no_bid: i64 = match km.no_bid { Some(v) => v, None => 0 };
    let no_ask: i64 = match km.no_ask { Some(v) => v, None => 0 };
    let last: i64 = match km.last_price { Some(v) => v, None => 0 };
    let yes_mid_sum: i128 = yes_bid as i128 + yes_ask as i128;
    let no_mid_sum: i128 = no_bid as i128 + no_ask as i128;
    let yes_mid: i64 = (if yes_mid_sum >= 0 { yes_mid_sum / 2 } else { -((-yes_mid_sum) / 2) }) as i64;
    let no_mid: i64 = (if no_mid_sum >= 0 { no_mid_sum / 2 } else { -((-no_mid_sum) / 2) }) as i64;
    proof {
        reveal_strlit("kalshi.com");
        reveal_strlit("general");
        reveal_strlit("Yes");
        reveal_strlit("No");
        reveal_strlit("yes");
        reveal_strlit("no");
        reveal_strlit("0.01");
        reveal_strlit("USD");
        reveal_strlit("Kalshi Official Data Feed");
        reveal_strlit("0.00");
        reveal_strlit("US");
        reveal_strlit("CFTC");
        reveal_strlit("DCM");
        reveal_strlit("event_contract");
        reveal_strlit("kalshi_ticker");
        reveal_strlit("kalshi_event_ticker");
    }
    let now = now_millis();
    let mut outcomes: Vec<Outcome> = Vec::new();
    outcomes.push(Outcome { id: "yes".to_string(), label: text_or_default(&km.yes_sub_title, "Yes"), token_id: None });
    outcomes.push(Outcome { id: "no".to_string(), label: text_or_default(&km.no_sub_title, "No"), token_id: None });
    let pricing = MarketPricing {
        last_price: yes_no_table(cents_to_upp(last), cents_to_upp(100 - last)),
        best_bid: yes_no_table(cents_to_upp(yes_bid), cents_to_upp(no_bid)),
        best_ask: yes_no_table(cents_to_upp(yes_ask), cents_to_upp(no_ask)),
        mid_price: yes_no_table(cents_to_upp(yes_mid), cents_to_upp(no_mid)),
        spread: yes_no_table(cents_to_upp(yes_ask - yes_bid), cents_to_upp(no_ask - no_bid)),
        tick_size: "0.01".to_string(),
        currency: "USD".to_string(),
        min_order_size: 1,
        max_order_size: 25000,
        updated_at: now,
    };
    let volume = MarketVolume {
        total_volume: count_text(km.volume),
        volume_24h: count_text(km.volume_24h),
        volume_7d: None,
        open_interest: count_text(km.open_interest),
        num_traders: None,
        updated_at: now,
    };
    let lifecycle = MarketLifecycle {
        status: kalshi_status_of(km.status.as_str()),
        created_at: now,
        opens_at: optional_timestamp(&km.open_time),
        closes_at: optional_timestamp(&km.close_time),
        resolved_at: None,
        expires_at: optional_timestamp(&km.expiration_time),
        resolution_source: Some("Kalshi Official Data Feed".to_string()),
    };
    let rules = MarketRules {
        allowed_order_types: vec![OrderType::Limit, OrderType::Market],
        allowed_tif: vec![TimeInForce::Gtc, TimeInForce::Gtd, TimeInForce::Fok, TimeInForce::Ioc],
        allows_short_selling: false,
        allows_partial_fill: true,
        maker_fee_rate: "0.00".to_string(),
        taker_fee_rate: "0.00".to_string(),
        max_position_size: 25000,
    };
    let regulatory = MarketRegulatory {
        jurisdiction: "US".to_string(),
        compliant: true,
        eligible_regions: vec!["US".to_string()],
        restricted_regions: Vec::new(),
        regulator: "CFTC".to_string(),
        license_type: "DCM".to_string(),
        contract_type: "event_contract".to_string(),
        required_kyc: KycLevel::Enhanced,
    };
    let mut metadata: Vec<KeyValue> = Vec::new();
    metadata.push(KeyValue { key: "kalshi_ticker".to_string(), value: km.ticker.clone() });
    metadata.push(KeyValue { key: "kalshi_event_ticker".to_string(), value: km.event_ticker.clone() });
    let event = Event {
        id: km.event_ticker.clone(),
        title: km.title.clone(),
        description: text_or_default(&km.subtitle, ""),
        category: text_or_default(&km.category, "general"),
        tags: Vec::new(),
        image_url: None,
        series_id: Some(km.event_ticker.clone()),
        series_title: None,
    };
    proof {
        reveal_strlit("");
        assert(""@ =~= Seq::<char>::empty());
    }
    Market {
        id: UniversalMarketId::new("kalshi.com", km.ticker.as_str()),
        event,
        market_type: MarketType::Binary,
        outcomes,
        pricing,
        volume,
        lifecycle,
        rules,
        regulatory,
        provider_metadata: metadata,
    }
}


// ─── Manifest ───────────────────────────────────────────────

/// Kalshi's REST base.
pub open spec fn kalshi_rest_base() -> Seq<char> {
    "https://api.elections.kalshi.com/trade-api/v2"@
}

/// Kalshi's WebSocket base.
pub open spec fn kalshi_ws_base() -> Seq<char> {
    "wss://api.elections.kalshi.com/trade-api/ws/v2"@
}

/// Kalshi's manifest: market data always; trading and portfolio only with
/// credentials.
pub fn manifest(authenticated: bool) -> (m: ProviderManifest)
    ensures
        m.upp_version@ == "2026-03-11"@,
        m.provider.name@ == "Kalshi"@,
        m.provider.id@ == "kalshi.com"@,
        m.provider.provider_type@ == (if authenticated { "regulated_exchange"@ } else { "regulated_exchange_readonly"@ }),
        texts(m.provider.jurisdictions@) == seq!["US"@],
        capabilities_view(m) == seq![
            (
                "markets"@,
                "2026-03-11"@,
                seq!["listMarkets"@, "getMarket"@, "searchMarkets"@, "getOrderBook"@],
                seq!["analytics"@, "streaming"@],
            ),
        ] + if authenticated {
            seq![
                ("trading"@, "2026-03-11"@, seq!["createOrder"@, "cancelOrder"@, "cancelAll"@], Seq::<Seq<char>>::empty()),
                ("portfolio"@, "2026-03-11"@, seq!["getPositions"@, "getBalance"@], Seq::<Seq<char>>::empty()),
            ]
        } else {
            Seq::empty()
        },
        m.transport.rest_base_url matches Some(u) && u@ == kalshi_rest_base(),
        m.transport.websocket_url matches Some(u) && u@ == kalshi_ws_base(),
        m.transport.grpc_endpoint is None,
        texts(m.authentication@) == seq![if authenticated { "api_key_rsa"@ } else { "none_public"@ }],
        m.rate_limits matches Some(r) && r.requests_per_second == 10 && r.requests_per_minute == 100
            && r.tier@ == "standard"@,
{
    proof {
        reveal_strlit("2026-03-11");
        reveal_strlit("Kalshi");
        reveal_strlit("kalshi.com");
        reveal_strlit("regulated_exchange");
        reveal_strlit("regulated_exchange_readonly");
        reveal_strlit("US");
        reveal_strlit("api_key_rsa");
        reveal_strlit("none_public");
        reveal_strlit("standard");
    }
    let mut capabilities = Vec::new();
    let markets = capability(
        "markets",
        vec!["listMarkets", "getMarket", "searchMarkets", "getOrderBook"],
        vec!["analytics", "streaming"],
    );
    assert(capability_view(markets).2 =~= seq!["listMarkets"@, "getMarket"@, "searchMarkets"@, "getOrderBook"@]);
    assert(capability_view(markets).3 =~= seq!["analytics"@, "streaming"@]);
    capabilities.push(markets);
    if authenticated {
        let trading = capability("trading", vec!["createOrder", "cancelOrder", "cancelAll"], vec![]);
        assert(capability_view(trading).2 =~= seq!["createOrder"@, "cancelOrder"@, "cancelAll"@]);
        assert(capability_view(trading).3 =~= Seq::<Seq<char>>::empty());
        capabilities.push(trading);
        let portfolio = capability("portfolio", vec!["getPositions", "getBalance"], vec![]);
        assert(capability_view(portfolio).2 =~= seq!["getPositions"@, "getBalance"@]);
        assert(capability_view(portfolio).3 =~= Seq::<Seq<char>>::empty());
        capabilities.push(portfolio);
    }
    let mut jurisdictions = Vec::new();
    jurisdictions.push("US".to_string());
    let mut authentication = Vec::new();
    authentication.push(if authenticated { "api_key_rsa".to_string() } else { "none_public".to_string() });
    let m = ProviderManifest {
        upp_version: "2026-03-11".to_string(),
        provider: ProviderInfo {
            name: "Kalshi".to_string(),
            id: "kalshi.com".to_string(),
            provider_type: if authenticated {
                "regulated_exchange".to_string()
            } else {
                "regulated_exchange_readonly".to_string()
            },
            jurisdictions,
        },
        capabilities,
        transport: TransportInfo {
            rest_base_url: Some("https://api.elections.kalshi.com/trade-api/v2".to_string()),
            websocket_url: Some("wss://api.elections.kalshi.com/trade-api/ws/v2".to_string()),
            grpc_endpoint: None,
        },
        authentication,
        rate_limits: Some(RateLimitInfo { requests_per_second: 10, requests_per_minute: 100, tier: "standard".to_string() }),
    };
    proof {
        reveal_strlit("https://api.elections.kalshi.com/trade-api/v2");
        reveal_strlit("wss://api.elections.kalshi.com/trade-api/ws/v2");
        reveal_strlit("markets");
        reveal_strlit("listMarkets");
        reveal_strlit("getMarket");
        reveal_strlit("searchMarkets");
        reveal_strlit("getOrderBook");
        reveal_strlit("analytics");
        reveal_strlit("streaming");
        reveal_strlit("trading");
        reveal_strlit("createOrder");
        reveal_strlit("cancelOrder");
        reveal_strlit("cancelAll");
        reveal_strlit("portfolio");
        reveal_strlit("getPositions");
        reveal_strlit("getBalance");
        assert(texts(m.provider.jurisdictions@) =~= seq!["US"@]);
        assert(texts(m.authentication@) =~= seq![if authenticated { "api_key_rsa"@ } else { "none_public"@ }]);
        assert(capabilities_view(m) =~= seq![
            (
                "markets"@,
                "2026-03-11"@,
                seq!["listMarkets"@, "getMarket"@, "searchMarkets"@, "getOrderBook"@],
                seq!["analytics"@, "streaming"@],
            ),
        ] + if authenticated {
            seq![
                ("trading"@, "2026-03-11"@, seq!["createOrder"@, "cancelOrder"@, "cancelAll"@], Seq::<Seq<char>>::empty()),
                ("portfolio"@, "2026-03-11"@, seq!["getPositions"@, "getBalance"@], Seq::<Seq<char>>::empty()),
            ]
        } else {
            Seq::empty()
        });
    }
    m
}


// ─── Price normalisation ────────────────────────────────────

/// A Kalshi price (whole cents) as a protocol price. Protocol prices lie
/// in [0.00, 1.00], so a price outside 0 to 100 cents is refused.
pub fn normalize_price(raw_price: &str) -> (r: Result<String, String>)
    ensures
        match i64_text_value(raw_price@) {
            Some(c) => if 0 <= c <= 100 {
                r matches Ok(s) && s@ == cents_text(c)
            } else {
                r matches Err(m) && m@ == "Kalshi price out of range [0, 100]: "@ + raw_price@
            },
            None => r matches Err(m) && m@ == "Invalid Kalshi price"@,
        },
{
    proof {
        reveal_strlit("Kalshi price out of range [0, 100]: ");
    }
    match parse_i64(raw_price) {
        Some(c) => {
            if 0 <= c && c <= 100 {
                Ok(cents_to_upp(c))
            } else {
                let mut m = "Kalshi price out of range [0, 100]: ".to_string();
                m.append(raw_price);
                Err(m)
            }
        },
        None => Err("Invalid Kalshi price".to_string()),
    }
}

/// A protocol price as Kalshi's whole cents, written out.
pub fn denormalize_price(probability: &str) -> (r: Result<String, String>)
    ensures
        match decimal_micros(probability@) {
            Some(v) => r matches Ok(s) && s@ == int_text(cents_of_micros(v)),
            None => r matches Err(m) && m@ == "Invalid decimal price"@,
        },
{
    proof {
        crate::decimal::lemma_decimal_micros_bounded(probability@);
    }
    match upp_to_cents(probability) {
        Ok(c) => Ok(format_micros((c as i128) * 1_000_000, 0)),
        Err(e) => Err(e),
    }
}


// ─── Laws ───────────────────────────────────────────────────

/// Cents written as a protocol price read back as the same cents: what
/// `cents_to_upp` writes, `upp_to_cents` turns back into the same amount.
pub proof fn law_cents_round_trip(cents: int)
    requires
        -100_000_000_000_000 <= cents <= 100_000_000_000_000,
    ensures
        decimal_micros(cents_text(cents)) == Some(cents * 10_000),
        cents_of_micros(cents * 10_000) == cents,
{
    crate::decimal::lemma_pow10_table();
    assert((cents * 10_000) % 10_000 == 0) by {
        vstd::arithmetic::div_mod::lemma_mod_multiples_basic(cents, 10_000);
    }
    crate::decimal::lemma_fixed_text_reads_back(cents * 10_000, 2);
    if cents >= 0 {
        assert((cents * 10_000 + 5_000) / 10_000 == cents) by {
            vstd::arithmetic::div_mod::lemma_div_multiples_vanish_fancy(cents, 5_000, 10_000);
            assert(10_000 * cents == cents * 10_000) by (nonlinear_arith);
        }
    } else {
        assert((-(cents * 10_000) + 5_000) / 10_000 == -cents) by {
            vstd::arithmetic::div_mod::lemma_div_multiples_vanish_fancy(-cents, 5_000, 10_000);
            assert(10_000 * (-cents) == -(cents * 10_000)) by (nonlinear_arith);
        }
    }
}

/// An ask mirrored from the other outcome's bid is priced at exactly 100
/// cents minus that bid.
pub proof fn law_mirrored_ask_is_complement(bid_cents: int)
    requires
        -100_000_000_000_000 <= bid_cents <= 100_000_000_000_000,
    ensures
        truncated_cents(cents_text(bid_cents)) == bid_cents,
        cents_text(100 - truncated_cents(cents_text(bid_cents))) == cents_text(100 - bid_cents),
{
    law_cents_round_trip(bid_cents);
    if bid_cents >= 0 {
        vstd::arithmetic::div_mod::lemma_div_multiples_vanish(bid_cents, 10_000);
        assert(10_000 * bid_cents == bid_cents * 10_000) by (nonlinear_arith);
    } else {
        vstd::arithmetic::div_mod::lemma_div_multiples_vanish(-bid_cents, 10_000);
        assert(10_000 * (-bid_cents) == -(bid_cents * 10_000)) by (nonlinear_arith);
    }
}


// ─── Listing ────────────────────────────────────────────────

/// Kalshi's status word for a listing filter: `settled` for resolved
/// markets, `open` for anything but closed ones.
pub open spec fn status_param(s: MarketStatus) -> Seq<char> {
    match s {
        MarketStatus::Closed => "closed"@,
        MarketStatus::Resolved => "settled"@,
        _ => "open"@,
    }
}

/// The listing URL for a filter: the page size (20 when unset), the cursor
/// when one is given and not empty, and the status when one is given.
pub open spec fn markets_url_text(f: MarketFilter) -> Seq<char> {
    kalshi_rest_base() + "/markets?limit="@ + int_text(
        match f.pagination.limit {
            Some(l) => l as int,
            None => 20,
        },
    ) + match f.pagination.cursor {
        Some(c) => if c@.len() > 0 { "&cursor="@ + c@ } else { Seq::empty() },
        None => Seq::empty(),
    } + match f.status {
        Some(s) => "&status="@ + status_param(s),
        None => Seq::empty(),
    }
}

/// The URL that lists Kalshi markets for a filter.
pub fn markets_url(filter: &MarketFilter) -> (url: String)
    ensures
        url@ == markets_url_text(*filter),
{
    proof {
        reveal_strlit("https://api.elections.kalshi.com/trade-api/v2/markets?limit=");
        reveal_strlit("https://api.elections.kalshi.com/trade-api/v2");
        reveal_strlit("/markets?limit=");
        reveal_strlit("&cursor=");
        reveal_strlit("&status=");
        reveal_strlit("closed");
        reveal_strlit("settled");
        reveal_strlit("open");
    }
    let mut url = "https://api.elections.kalshi.com/trade-api/v2/markets?limit=".to_string();
    let limit: i32 = match filter.pagination.limit {
        Some(l) => l,
        None => 20,
    };
    let lt = int_string(limit as i64);
    url.append(lt.as_str());
    let ghost head = url@;
    match &filter.pagination.cursor {
        Some(c) => {
            if c.unicode_len() > 0 {
                url.append("&cursor=");
                url.append(c.as_str());
            }
        },
        None => {},
    }
    let ghost mid = url@;
    match &filter.status {
        Some(st) => {
            url.append("&status=");
            let word = match st {
                MarketStatus::Closed => "closed",
                MarketStatus::Resolved => "settled",
                _ => "open",
            };
            url.append(word);
        },
        None => {},
    }
    assert(url@ =~= markets_url_text(*filter));
    url
}

/// A page of listed markets: Kalshi gives no total, and more follow when
/// it returns a non-empty cursor.
pub fn markets_page(markets: Vec<Market>, cursor: Option<String>) -> (page: MarketPage)
    ensures
        page.markets@ == markets@,
        page.pagination.cursor@ == (match cursor {
            Some(c) => c@,
            None => Seq::<char>::empty(),
        }),
        page.pagination.has_more == (match cursor {
            Some(c) => c@.len() > 0,
            None => false,
        }),
        page.pagination.total == -1,
{
    let (c, has_more) = match cursor {
        Some(c) => {
            let more = c.unicode_len() > 0;
            (c, more)
        },
        None => (String::new(), false),
    };
    MarketPage { markets, pagination: PaginationResponse { cursor: c, has_more, total: -1 } }
}


/// Kalshi's status words and market statuses correspond one to one: the
/// status a word `open`, `closed` or `settled` is read as is written back
/// as the same word when listing by status (so a settled market is resolved).
pub proof fn law_status_words_round_trip(word: Seq<char>)
    requires
        word == "open"@ || word == "closed"@ || word == "settled"@,
    ensures
        status_param(kalshi_status(word)) == word,
{
    reveal_strlit("open");
    reveal_strlit("closed");
    reveal_strlit("settled");
}


/// Cents that fit the round trip of `law_cents_round_trip`.
pub open spec fn modest_cents(c: int) -> bool {
    -100_000_000_000 <= c <= 100_000_000_000
}

/// The prices of a normalised Kalshi market read back as the market's own
/// cents: the `yes` and `no` bids and asks are Kalshi's, the two last
/// prices add up to one dollar, each spread is its ask minus its bid, and
/// each mid price lies between its bid and ask.
pub proof fn law_kalshi_prices_read_back(m: Market, km: KalshiMarket)
    requires
        is_kalshi_market(m, km),
        modest_cents(or_zero(km.yes_bid)),
        modest_cents(or_zero(km.yes_ask)),
        modest_cents(or_zero(km.no_bid)),
        modest_cents(or_zero(km.no_ask)),
        modest_cents(or_zero(km.last_price)),
    ensures
        decimal_micros(m.pricing.best_bid@[0].value@) == Some(or_zero(km.yes_bid) * 10_000),
        decimal_micros(m.pricing.best_ask@[0].value@) == Some(or_zero(km.yes_ask) * 10_000),
        decimal_micros(m.pricing.best_bid@[1].value@) == Some(or_zero(km.no_bid) * 10_000),
        decimal_micros(m.pricing.best_ask@[1].value@) == Some(or_zero(km.no_ask) * 10_000),
        decimal_micros(m.pricing.last_price@[0].value@)->0 + decimal_micros(m.pricing.last_price@[1].value@)->0
            == 1_000_000,
        decimal_micros(m.pricing.last_price@[0].value@) is Some && decimal_micros(m.pricing.last_price@[1].value@) is Some,
        decimal_micros(m.pricing.spread@[0].value@) == Some(
            decimal_micros(m.pricing.best_ask@[0].value@)->0 - decimal_micros(m.pricing.best_bid@[0].value@)->0,
        ),
        decimal_micros(m.pricing.spread@[1].value@) == Some(
            decimal_micros(m.pricing.best_ask@[1].value@)->0 - decimal_micros(m.pricing.best_bid@[1].value@)->0,
        ),
        or_zero(km.yes_bid) <= or_zero(km.yes_ask) ==> decimal_micros(m.pricing.best_bid@[0].value@)->0
            <= decimal_micros(m.pricing.mid_price@[0].value@)->0 <= decimal_micros(m.pricing.best_ask@[0].value@)->0,
        or_zero(km.no_bid) <= or_zero(km.no_ask) ==> decimal_micros(m.pricing.best_bid@[1].value@)->0
            <= decimal_micros(m.pricing.mid_price@[1].value@)->0 <= decimal_micros(m.pricing.best_ask@[1].value@)->0,
{
    let yb = or_zero(km.yes_bid);
    let ya = or_zero(km.yes_ask);
    let nb = or_zero(km.no_bid);
    let na = or_zero(km.no_ask);
    let last = or_zero(km.last_price);
    law_cents_round_trip(yb);
    law_cents_round_trip(ya);
    law_cents_round_trip(nb);
    law_cents_round_trip(na);
    law_cents_round_trip(last);
    law_cents_round_trip(100 - last);
    law_cents_round_trip(ya - yb);
    law_cents_round_trip(na - nb);
    law_cents_round_trip(half(yb + ya));
    law_cents_round_trip(half(nb + na));
    assert((ya - yb) * 10_000 == ya * 10_000 - yb * 10_000);
    assert((na - nb) * 10_000 == na * 10_000 - nb * 10_000);
    assert(last * 10_000 + (100 - last) * 10_000 == 1_000_000);
    assert(yb <= ya ==> yb <= half(yb + ya) <= ya);
    assert(nb <= na ==> nb <= half(nb + na) <= na);
    assert(yb <= ya ==> yb * 10_000 <= half(yb + ya) * 10_000 <= ya * 10_000);
    assert(nb <= na ==> nb * 10_000 <= half(nb + na) * 10_000 <= na * 10_000);
}

} // verus!
