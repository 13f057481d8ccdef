//! Opinion.trade: market records and their translation into the protocol's
//! markets. Opinion's prices are held here in millionths.
use vstd::prelude::*;
use crate::adapters::{MarketFilter, capabilities_view, capability, capability_view, ProviderInfo, ProviderManifest, TransportInfo};
use crate::decimal::{i32_text_value, int_string, parse_i32, decimal_micros, fixed_text, format_micros, parse_price_micros, trim_fraction, trim_fraction_exec};
use crate::kalshi::int_text;
use crate::listing::MarketPage;
use crate::types::PaginationResponse;
use crate::polymarket::{figure, instant_of, opt_text, table};
use crate::text::{lowercase, str_eq, texts, to_lowercase};
use crate::types::{
    now_millis, parse_rfc3339_ms, Event, KeyValue, KycLevel, Market, MarketLifecycle, MarketPricing,
    MarketRegulatory, MarketRules, MarketStatus, MarketType, MarketVolume, OrderType, Outcome, TimeInForce,
    UniversalMarketId,
};

verus! {

/// One outcome of a categorical Opinion market.
#[derive(Debug, Clone)]
pub struct OpinionChildMarket {
    pub market_id: Option<i64>,
    pub label: Option<String>,
    pub token_id: Option<String>,
    pub price_micros: Option<i64>,
    pub volume: Option<String>,
}

/// A market as Opinion's API describes it; prices in millionths.
#[derive(Debug, Clone)]
pub struct OpinionMarket {
    pub market_id: i64,
    pub market_title: String,
    pub description: Option<String>,
    /// 0 for binary, 1 for categorical.
    pub market_type: Option<i32>,
    pub status: Option<i32>,
    pub status_enum: Option<String>,
    pub yes_token_id: Option<String>,
    pub no_token_id: Option<String>,
    pub yes_label: Option<String>,
    pub no_label: Option<String>,
    pub child_markets: Option<Vec<OpinionChildMarket>>,
    pub yes_price_micros: Option<i64>,
    pub no_price_micros: Option<i64>,
    pub volume: Option<String>,
    pub volume_24h: Option<String>,
    pub volume_7d: Option<String>,
    pub created_at: Option<String>,
    pub cutoff_at: Option<String>,
    pub resolved_at: Option<String>,
    pub chain_id: Option<i64>,
    pub condition_id: Option<String>,
    pub question_id: Option<String>,
    pub quote_token: Option<String>,
    pub result_token_id: Option<String>,
    pub rules: Option<String>,
    pub incentive_factor_micros: Option<i64>,
    pub image: Option<String>,
    pub category: Option<String>,
    pub tags: Option<Vec<String>>,
}

// ─── Status ─────────────────────────────────────────────────

/// Market status of an already lower-cased status word; unknown words
/// count as open.
pub open spec fn status_named(s: Seq<char>) -> MarketStatus {
    if s == "activated"@ || s == "active"@ || s == "open"@ {
        MarketStatus::Open
    } else if s == "resolved"@ || s == "settled"@ {
        MarketStatus::Resolved
    } else if s == "pending"@ || s == "created"@ {
        MarketStatus::Pending
    } else if s == "halted"@ || s == "paused"@ {
        MarketStatus::Halted
    } else if s == "closed"@ {
        MarketStatus::Closed
    } else if s == "voided"@ || s == "cancelled"@ {
        MarketStatus::Voided
    } else {
        MarketStatus::Open
    }
}

/// Market status of a status code; unknown codes count as open.
pub open spec fn status_coded(c: int) -> MarketStatus {
    if c == 0 || c == 1 {
        MarketStatus::Pending
    } else if c == 2 {
        MarketStatus::Open
    } else if c == 3 {
        MarketStatus::Resolved
    } else if c == 4 {
        MarketStatus::Voided
    } else if c == 5 {
        MarketStatus::Closed
    } else {
        MarketStatus::Open
    }
}

/// Market status of an Opinion market: by its status word in any letter
/// case when it has one, else by its status code (0 when absent).
pub open spec fn opinion_status(status: Option<i32>, status_enum: Option<String>) -> MarketStatus {
    match status_enum {
        Some(s) => status_named(lowercase(s@)),
        None => status_coded(
            match status {
                Some(c) => c as int,
                None => 0,
            },
        ),
    }
}

fn status_from_word(s: &str) -> (r: MarketStatus)
    ensures
        r == status_named(s@),
{
    if str_eq(s, "activated") || str_eq(s, "active") || str_eq(s, "open") {
        MarketStatus::Open
    } else if str_eq(s, "resolved") || str_eq(s, "settled") {
        MarketStatus::Resolved
    } else if str_eq(s, "pending") || str_eq(s, "created") {
        MarketStatus::Pending
    } else if str_eq(s, "halted") || str_eq(s, "paused") {
        MarketStatus::Halted
    } else if str_eq(s, "closed") {
        MarketStatus::Closed
    } else if str_eq(s, "voided") || str_eq(s, "cancelled") {
        MarketStatus::Voided
    } else {
        MarketStatus::Open
    }
}

/// Status of an Opinion market from its status code and word.
pub fn map_status(status: Option<i32>, status_enum: &Option<String>) -> (r: MarketStatus)
    ensures
        r == opinion_status(status, *status_enum),
{
    match status_enum {
        Some(s) => {
            let lower = to_lowercase(s.as_str());
            status_from_word(lower.as_str())
        },
        None => {
            let c: i32 = match status {
                Some(c) => c,
                None => 0,
            };
            if c == 0 || c == 1 {
                MarketStatus::Pending
            } else if c == 2 {
                MarketStatus::Open
            } else if c == 3 {
                MarketStatus::Resolved
            } else if c == 4 {
                MarketStatus::Voided
            } else if c == 5 {
                MarketStatus::Closed
            } else {
                MarketStatus::Open
            }
        },
    }
}


// ─── Market ─────────────────────────────────────────────────

/// The market is binary: its type is 0 or absent.
pub open spec fn is_binary(om: OpinionMarket) -> bool {
    om.market_type is None || om.market_type == Some(0i32)
}

/// The outcome id of the `i`-th child: its market id, else `outcome_{i}`.
pub open spec fn child_id(c: OpinionChildMarket, i: int) -> Seq<char> {
    match c.market_id {
        Some(id) => int_text(id as int),
        None => "outcome_"@ + int_text(i),
    }
}

/// The label of the `i`-th child: its own, else `Option {i + 1}`.
pub open spec fn child_label(c: OpinionChildMarket, i: int) -> Seq<char> {
    match c.label {
        Some(l) => l@,
        None => "Option "@ + int_text(i + 1),
    }
}

/// An optional text, or a default.
pub open spec fn text_or(o: Option<String>, d: Seq<char>) -> Seq<char> {
    match o {
        Some(s) => s@,
        None => d,
    }
}

/// An outcome as id, label and token id.
pub open spec fn outcome_view(o: Outcome) -> (Seq<char>, Seq<char>, Option<Seq<char>>) {
    (o.id@, o.label@, opt_text(o.token_id))
}

/// The outcomes of an Opinion market: yes and no for a binary market, one
/// per child for a categorical market with children, else plain yes and no.
pub open spec fn opinion_outcomes(om: OpinionMarket) -> Seq<(Seq<char>, Seq<char>, Option<Seq<char>>)> {
    if is_binary(om) {
        seq![
            ("yes"@, text_or(om.yes_label, "Yes"@), opt_text(om.yes_token_id)),
            ("no"@, text_or(om.no_label, "No"@), opt_text(om.no_token_id)),
        ]
    } else {
        match om.child_markets {
            Some(cs) => Seq::new(
                cs@.len(),
                |i: int| (child_id(cs@[i], i), child_label(cs@[i], i), opt_text(cs@[i].token_id)),
            ),
            None => seq![("yes"@, "Yes"@, None::<Seq<char>>), ("no"@, "No"@, None::<Seq<char>>)],
        }
    }
}

/// Price entries of the first `n` children that have a price.
pub open spec fn child_prices(cs: Seq<OpinionChildMarket>, n: int) -> Seq<(Seq<char>, Seq<char>)>
    decreases n,
{
    if n <= 0 {
        Seq::empty()
    } else {
        child_prices(cs, n - 1) + match cs[n - 1].price_micros {
            Some(p) => seq![(child_id(cs[n - 1], n - 1), fixed_text(p as int, 4))],
            None => Seq::empty(),
        }
    }
}

/// A one-entry table when the price is present.
pub open spec fn price_entry(key: Seq<char>, p: Option<i64>) -> Seq<(Seq<char>, Seq<char>)> {
    match p {
        Some(x) => seq![(key, fixed_text(x as int, 4))],
        None => Seq::empty(),
    }
}

/// Last and mid prices of an Opinion market.
pub open spec fn opinion_prices(om: OpinionMarket) -> Seq<(Seq<char>, Seq<char>)> {
    if is_binary(om) {
        price_entry("yes"@, om.yes_price_micros) + price_entry("no"@, om.no_price_micros)
    } else {
        match om.child_markets {
            Some(cs) => child_prices(cs@, cs@.len() as int),
            None => Seq::empty(),
        }
    }
}

/// Provider metadata of an Opinion market.
pub open spec fn opinion_metadata(om: OpinionMarket) -> Seq<(Seq<char>, Seq<char>)> {
    seq![("provider_native_type"@, "opinion_bnb"@), ("chain"@, "BNB Chain"@)] + match om.condition_id {
        Some(c) => seq![("condition_id"@, c@)],
        None => Seq::empty(),
    } + match om.chain_id {
        Some(c) => seq![("chain_id"@, int_text(c as int))],
        None => Seq::empty(),
    }
}

/// `m` is the protocol form of the Opinion market `om`, with creation,
/// closing and resolution instants (`None` when absent or unreadable) and
/// clock reading `now`.
pub open spec fn is_opinion_market(
    m: Market,
    om: OpinionMarket,
    created: Option<int>,
    closes: Option<int>,
    resolved: Option<int>,
    now: int,
) -> bool {
    &&& m.id.provider@ == "opinion.trade"@
    &&& m.id.native_id@ == int_text(om.market_id as int)
    &&& m.event.id@ == text_or(om.question_id, int_text(om.market_id as int))
    &&& m.event.title@ == om.market_title@
    &&& m.event.description@ == text_or(om.description, Seq::empty())
    &&& m.event.category@ == text_or(om.category, "uncategorized"@)
    &&& texts(m.event.tags@) == (match om.tags {
        Some(t) => texts(t@),
        None => Seq::empty(),
    })
    &&& opt_text(m.event.image_url) == opt_text(om.image)
    &&& m.event.series_id is None
    &&& m.event.series_title is None
    &&& m.market_type == (if is_binary(om) { MarketType::Binary } else { MarketType::Categorical })
    &&& m.outcomes@.map_values(|o: Outcome| outcome_view(o)) == opinion_outcomes(om)
    &&& table(m.pricing.last_price@) == opinion_prices(om)
    &&& table(m.pricing.mid_price@) == opinion_prices(om)
    &&& m.pricing.best_bid@.len() == 0
    &&& m.pricing.best_ask@.len() == 0
    &&& m.pricing.spread@.len() == 0
    &&& m.pricing.tick_size@ == "0.01"@
    &&& m.pricing.currency@ == text_or(om.quote_token, "USDC"@)
    &&& m.pricing.min_order_size == 1
    &&& m.pricing.max_order_size == 0
    &&& m.pricing.updated_at == now
    &&& m.volume.total_volume@ == text_or(om.volume, "0"@)
    &&& m.volume.volume_24h@ == text_or(om.volume_24h, "0"@)
    &&& opt_text(m.volume.volume_7d) == opt_text(om.volume_7d)
    &&& m.volume.open_interest@ == "0"@
    &&& m.volume.num_traders is None
    &&& m.volume.updated_at == now
    &&& m.lifecycle.status == opinion_status(om.status, om.status_enum)
    &&& m.lifecycle.created_at == (match created {
        Some(t) => t,
        None => now,
    })
    &&& m.lifecycle.opens_at is None
    &&& figure(m.lifecycle.closes_at) == closes
    &&& figure(m.lifecycle.resolved_at) == resolved
    &&& figure(m.lifecycle.expires_at) == closes
    &&& opt_text(m.lifecycle.resolution_source) == Some("Opinion AI Multi-Agent Oracle"@)
    &&& m.rules.allowed_order_types@ == seq![OrderType::Limit, OrderType::Market]
    &&& m.rules.allowed_tif@ == seq![TimeInForce::Gtc, TimeInForce::Fok]
    &&& m.rules.allows_short_selling
    &&& m.rules.allows_partial_fill
    &&& m.rules.maker_fee_rate@ == "0.00"@
    &&& m.rules.taker_fee_rate@ == "0.01"@
    &&& m.rules.max_position_size == 0
    &&& m.regulatory.jurisdiction@ == "GLOBAL"@
    &&& !m.regulatory.compliant
    &&& texts(m.regulatory.eligible_regions@) == seq!["GLOBAL"@]
    &&& texts(m.regulatory.restricted_regions@) == seq!["US"@]
    &&& m.regulatory.regulator@ == "none"@
    &&& m.regulatory.license_type@ == "none"@
    &&& m.regulatory.contract_type@ == (if is_binary(om) { "binary_option"@ } else { "categorical"@ })
    &&& m.regulatory.required_kyc == KycLevel::NoneRequired
    &&& table(m.provider_metadata@) == opinion_metadata(om)
}

fn text_or_default(o: &Option<String>, d: &str) -> (r: String)
    ensures
        r@ == text_or(*o, d@),
{
    match o {
        Some(s) => s.clone(),
        None => d.to_string(),
    }
}

fn clone_text(o: &Option<String>) -> (r: Option<String>)
    ensures
        opt_text(r) == opt_text(*o),
{
    match o {
        Some(s) => Some(s.clone()),
        None => None,
    }
}

fn child_id_of(c: &OpinionChildMarket, i: usize) -> (r: String)
    ensures
        r@ == child_id(*c, i as int),
{
    match c.market_id {
        Some(id) => int_string(id),
        None => {
            proof { reveal_strlit("outcome_"); }
            let mut s = "outcome_".to_string();
            let n = format_micros((i as i128) * 1_000_000, 0);
            s.append(n.as_str());
            s
        },
    }
}

fn child_label_of(c: &OpinionChildMarket, i: usize) -> (r: String)
    ensures
        r@ == child_label(*c, i as int),
{
    match &c.label {
        Some(l) => l.clone(),
        None => {
            proof { reveal_strlit("Option "); }
            let mut s = "Option ".to_string();
            let n = format_micros((i as i128 + 1) * 1_000_000, 0);
            s.append(n.as_str());
            s
        },
    }
}

fn build_outcomes(om: &OpinionMarket) -> (outs: Vec<Outcome>)
    ensures
        outs@.map_values(|o: Outcome| outcome_view(o)) == opinion_outcomes(*om),
{
    proof {
        reveal_strlit("yes");
        reveal_strlit("no");
        reveal_strlit("Yes");
        reveal_strlit("No");
    }
    let binary = match om.market_type {
        Some(t) => t == 0,
        None => true,
    };
    let mut outs: Vec<Outcome> = Vec::new();
    if binary {
        outs.push(Outcome { id: "yes".to_string(), label: text_or_default(&om.yes_label, "Yes"), token_id: clone_text(&om.yes_token_id) });
        outs.push(Outcome { id: "no".to_string(), label: text_or_default(&om.no_label, "No"), token_id: clone_text(&om.no_token_id) });
        assert(outs@.map_values(|o: Outcome| outcome_view(o)) =~= opinion_outcomes(*om));
    } else {
        match &om.child_markets {
            Some(cs) => {
                let ghost want = opinion_outcomes(*om);
                let mut i: usize = 0;
                while i < cs.len()
                    invariant
                        i <= cs@.len(),
                        want.len() == cs@.len(),
                        forall|j: int| 0 <= j < cs@.len() ==> #[trigger] want[j] == (child_id(cs@[j], j), child_label(cs@[j], j), opt_text(cs@[j].token_id)),
                        outs@.map_values(|o: Outcome| outcome_view(o)) == want.take(i as int),
                    decreases cs@.len() - i,
                {
                    let c = &cs[i];
                    let ghost before = outs@.map_values(|o: Outcome| outcome_view(o));
                    outs.push(Outcome { id: child_id_of(c, i), label: child_label_of(c, i), token_id: clone_text(&c.token_id) });
                    assert(outs@.map_values(|o: Outcome| outcome_view(o)) =~= before.push(want[i as int]));
                    assert(want.take(i as int + 1) =~= want.take(i as int).push(want[i as int]));
                    i = i + 1;
                }
                assert(want.take(cs@.len() as int) =~= want);
            },
            None => {
                outs.push(Outcome { id: "yes".to_string(), label: "Yes".to_string(), token_id: None });
                outs.push(Outcome { id: "no".to_string(), label: "No".to_string(), token_id: None });
                assert(outs@.map_values(|o: Outcome| outcome_view(o)) =~= opinion_outcomes(*om));
            },
        }
    }
    outs
}


fn push_price(t: &mut Vec<KeyValue>, key: String, p: Option<i64>)
    ensures
        table(final(t)@) == table(old(t)@) + price_entry(key@, p),
{
    let ghost before = table(t@);
    match p {
        Some(x) => {
            t.push(KeyValue { key, value: format_micros(x as i128, 4) });
            assert(table(t@) =~= before + price_entry(key@, p));
        },
        None => {
            assert(table(t@) =~= before + price_entry(key@, p));
        },
    }
}

fn price_table(om: &OpinionMarket) -> (t: Vec<KeyValue>)
    ensures
        table(t@) == opinion_prices(*om),
{
    proof {
        reveal_strlit("yes");
        reveal_strlit("no");
    }
    let binary = match om.market_type {
        Some(t) => t == 0,
        None => true,
    };
    let mut t: Vec<KeyValue> = Vec::new();
    assert(table(t@) =~= Seq::<(Seq<char>, Seq<char>)>::empty());
    if binary {
        push_price(&mut t, "yes".to_string(), om.yes_price_micros);
        push_price(&mut t, "no".to_string(), om.no_price_micros);
        assert(table(t@) =~= opinion_prices(*om));
    } else {
        match &om.child_markets {
            Some(cs) => {
                let mut i: usize = 0;
                while i < cs.len()
                    invariant
                        i <= cs@.len(),
                        table(t@) == child_prices(cs@, i as int),
                    decreases cs@.len() - i,
                {
                    let c = &cs[i];
                    let ghost before = table(t@);
                    match c.price_micros {
                        Some(p) => {
                            let key = child_id_of(c, i);
                            t.push(KeyValue { key, value: format_micros(p as i128, 4) });
                        },
                        None => {},
                    }
                    assert(table(t@) =~= child_prices(cs@, i as int + 1));
                    i = i + 1;
                }
            },
            None => {},
        }
    }
    t
}

fn metadata_of(om: &OpinionMarket) -> (t: Vec<KeyValue>)
    ensures
        table(t@) == opinion_metadata(*om),
{
    proof {
        reveal_strlit("provider_native_type");
        reveal_strlit("opinion_bnb");
        reveal_strlit("chain");
        reveal_strlit("BNB Chain");
        reveal_strlit("condition_id");
        reveal_strlit("chain_id");
    }
    let mut t: Vec<KeyValue> = Vec::new();
    t.push(KeyValue { key: "provider_native_type".to_string(), value: "opinion_bnb".to_string() });
    t.push(KeyValue { key: "chain".to_string(), value: "BNB Chain".to_string() });
    let ghost head = table(t@);
    assert(head =~= seq![("provider_native_type"@, "opinion_bnb"@), ("chain"@, "BNB Chain"@)]);
    match &om.condition_id {
        Some(c) => {
            t.push(KeyValue { key: "condition_id".to_string(), value: c.clone() });
        },
        None => {},
    }
    let ghost mid = table(t@);
    assert(mid =~= head + match om.condition_id {
        Some(c) => seq![("condition_id"@, c@)],
        None => Seq::<(Seq<char>, Seq<char>)>::empty(),
    });
    match om.chain_id {
        Some(c) => {
            t.push(KeyValue { key: "chain_id".to_string(), value: int_string(c) });
        },
        None => {},
    }
    assert(table(t@) =~= opinion_metadata(*om));
    t
}

fn read_instant(t: &Option<String>) -> (r: Option<i64>)
    ensures
        figure(r) == instant_of(*t),
{
    match t {
        Some(s) => parse_rfc3339_ms(s.as_str()),
        None => None,
    }
}

fn clone_tags(tags: &Option<Vec<String>>) -> (r: Vec<String>)
    ensures
        texts(r@) == (match *tags {
            Some(t) => texts(t@),
            None => Seq::empty(),
        }),
{
    match tags {
        Some(t) => {
            let mut r: Vec<String> = Vec::new();
            let mut i: usize = 0;
            while i < t.len()
                invariant
                    i <= t@.len(),
                    texts(r@) == texts(t@.take(i as int)),
                decreases t@.len() - i,
            {
                let ghost before = texts(r@);
                let v = t[i].clone();
                r.push(v);
                assert(texts(r@) =~= before.push(t@[i as int]@));
                assert(texts(r@) =~= texts(t@.take(i as int + 1)));
                i = i + 1;
            }
            assert(t@.take(t@.len() as int) =~= t@);
            r
        },
        None => {
            let r: Vec<String> = Vec::new();
            assert(texts(r@) =~= Seq::<Seq<char>>::empty());
            r
        },
    }
}

/// The protocol form of an Opinion market, given its creation, closing and
/// resolution instants and the clock reading that stands in for an absent
/// creation time and marks the figures' update.
#[verifier::rlimit(60)]
pub fn market_from_parts(
    om: &OpinionMarket,
    created: Option<i64>,
    closes: Option<i64>,
    resolved: Option<i64>,
    now: i64,
) -> (m: Market)
    ensures
        is_opinion_market(m, *om, figure(created), figure(closes), figure(resolved), now as int),
{
    proof {
        reveal_strlit("opinion.trade");
        reveal_strlit("uncategorized");
        reveal_strlit("");
        reveal_strlit("0.01");
        reveal_strlit("USDC");
        reveal_strlit("0");
        reveal_strlit("Opinion AI Multi-Agent Oracle");
        reveal_strlit("0.00");
        reveal_strlit("GLOBAL");
        reveal_strlit("US");
        reveal_strlit("none");
        reveal_strlit("binary_option");
        reveal_strlit("categorical");
    }
    let binary = match om.market_type {
        Some(t) => t == 0,
        None => true,
    };
    let market_id = int_string(om.market_id);
    let outcomes = build_outcomes(om);
    let pricing = MarketPricing {
        last_price: price_table(om),
        best_bid: Vec::new(),
        best_ask: Vec::new(),
        mid_price: price_table(om),
        spread: Vec::new(),
        tick_size: "0.01".to_string(),
        currency: text_or_default(&om.quote_token, "USDC"),
        min_order_size: 1,
        max_order_size: 0,
        updated_at: now,
    };
    let volume = MarketVolume {
        total_volume: text_or_default(&om.volume, "0"),
        volume_24h: text_or_default(&om.volume_24h, "0"),
        volume_7d: clone_text(&om.volume_7d),
        open_interest: "0".to_string(),
        num_traders: None,
        updated_at: now,
    };
    let created_at = match created {
        Some(t) => t,
        None => now,
    };
    let lifecycle = MarketLifecycle {
        status: map_status(om.status, &om.status_enum),
        created_at,
        opens_at: None,
        closes_at: closes,
        resolved_at: resolved,
        expires_at: closes,
        resolution_source: Some("Opinion AI Multi-Agent Oracle".to_string()),
    };
    let event = Event {
        id: text_or_default(&om.question_id, market_id.as_str()),
        title: om.market_title.clone(),
        description: text_or_default(&om.description, ""),
        category: text_or_default(&om.category, "uncategorized"),
        tags: clone_tags(&om.tags),
        image_url: clone_text(&om.image),
        series_id: None,
        series_title: None,
    };
    let mut order_types: Vec<OrderType> = Vec::new();
    order_types.push(OrderType::Limit);
    order_types.push(OrderType::Market);
    let mut tif: Vec<TimeInForce> = Vec::new();
    tif.push(TimeInForce::Gtc);
    tif.push(TimeInForce::Fok);
    let rules = MarketRules {
        allowed_order_types: order_types,
        allowed_tif: tif,
        allows_short_selling: true,
        allows_partial_fill: true,
        maker_fee_rate: "0.00".to_string(),
        taker_fee_rate: "0.01".to_string(),
        max_position_size: 0,
    };
    let mut eligible: Vec<String> = Vec::new();
    eligible.push("GLOBAL".to_string());
    let mut restricted: Vec<String> = Vec::new();
    restricted.push("US".to_string());
    let regulatory = MarketRegulatory {
        jurisdiction: "GLOBAL".to_string(),
        compliant: false,
        eligible_regions: eligible,
        restricted_regions: restricted,
        regulator: "none".to_string(),
        license_type: "none".to_string(),
        contract_type: if binary { "binary_option".to_string() } else { "categorical".to_string() },
        required_kyc: KycLevel::NoneRequired,
    };
    let provider_metadata = metadata_of(om);
    proof {
        assert(""@ =~= Seq::<char>::empty());
        assert(texts(regulatory.eligible_regions@) =~= seq!["GLOBAL"@]);
        assert(texts(regulatory.restricted_regions@) =~= seq!["US"@]);
        assert(rules.allowed_order_types@ =~= seq![OrderType::Limit, OrderType::Market]);
        assert(rules.allowed_tif@ =~= seq![TimeInForce::Gtc, TimeInForce::Fok]);
    }
    Market {
        id: UniversalMarketId::new("opinion.trade", market_id.as_str()),
        event,
        market_type: if binary { MarketType::Binary } else { MarketType::Categorical },
        outcomes,
        pricing,
        volume,
        lifecycle,
        rules,
        regulatory,
        provider_metadata,
    }
}

/// An Opinion market in the protocol's form: its time texts are read, the
/// clock stands in for an absent creation time.
pub fn transform_market(om: &OpinionMarket) -> (m: Market)
    ensures
        exists|now: int|
            is_opinion_market(
                m,
                *om,
                instant_of(om.created_at),
                instant_of(om.cutoff_at),
                instant_of(om.resolved_at),
                now,
            ),
{
    let created = read_instant(&om.created_at);
    let closes = read_instant(&om.cutoff_at);
    let resolved = read_instant(&om.resolved_at);
    let now = now_millis();
    let m = market_from_parts(om, created, closes, resolved, now);
    assert(is_opinion_market(
        m,
        *om,
        instant_of(om.created_at),
        instant_of(om.cutoff_at),
        instant_of(om.resolved_at),
        now as int,
    ));
    m
}


// ─── Manifest ───────────────────────────────────────────────

/// Opinion's manifest: without an API key no market operation is offered.
pub fn manifest(has_api_key: bool) -> (m: ProviderManifest)
    ensures
        m.upp_version@ == "2026-03-11"@,
        m.provider.name@ == "Opinion"@,
        m.provider.id@ == "opinion.trade"@,
        m.provider.provider_type@ == "decentralized"@,
        texts(m.provider.jurisdictions@) == seq!["GLOBAL"@],
        capabilities_view(m) == seq![
            (
                "markets"@,
                "2026-03-11"@,
                if has_api_key {
                    seq!["listMarkets"@, "getMarket"@, "searchMarkets"@, "getOrderBook"@]
                } else {
                    Seq::<Seq<char>>::empty()
                },
                seq!["ai_signals"@],
            ),
            ("trading"@, "2026-03-11"@, Seq::<Seq<char>>::empty(), Seq::<Seq<char>>::empty()),
            ("resolution"@, "2026-03-11"@, seq!["getResolution"@, "getResolutionSources"@], seq!["ai_oracle"@]),
        ],
        m.transport.rest_base_url matches Some(u) && u@ == "https://openapi.opinion.trade/openapi"@,
        m.transport.websocket_url is None,
        m.transport.grpc_endpoint is None,
        texts(m.authentication@) == seq!["api_key"@],
        m.rate_limits is None,
{
    proof {
        reveal_strlit("2026-03-11");
        reveal_strlit("Opinion");
        reveal_strlit("opinion.trade");
        reveal_strlit("decentralized");
        reveal_strlit("GLOBAL");
        reveal_strlit("api_key");
        reveal_strlit("https://openapi.opinion.trade/openapi");
        reveal_strlit("markets");
        reveal_strlit("listMarkets");
        reveal_strlit("getMarket");
        reveal_strlit("searchMarkets");
        reveal_strlit("getOrderBook");
        reveal_strlit("ai_signals");
        reveal_strlit("trading");
        reveal_strlit("resolution");
        reveal_strlit("getResolution");
        reveal_strlit("getResolutionSources");
        reveal_strlit("ai_oracle");
    }
    let market_ops = if has_api_key { vec!["listMarkets", "getMarket", "searchMarkets", "getOrderBook"] } else { vec![] };
    let markets = capability("markets", market_ops, vec!["ai_signals"]);
    assert(capability_view(markets).2 =~= if has_api_key {
        seq!["listMarkets"@, "getMarket"@, "searchMarkets"@, "getOrderBook"@]
    } else {
        Seq::<Seq<char>>::empty()
    });
    assert(capability_view(markets).3 =~= seq!["ai_signals"@]);
    let trading = capability("trading", vec![], vec![]);
    assert(capability_view(trading).2 =~= Seq::<Seq<char>>::empty());
    assert(capability_view(trading).3 =~= Seq::<Seq<char>>::empty());
    let resolution = capability("resolution", vec!["getResolution", "getResolutionSources"], vec!["ai_oracle"]);
    assert(capability_view(resolution).2 =~= seq!["getResolution"@, "getResolutionSources"@]);
    assert(capability_view(resolution).3 =~= seq!["ai_oracle"@]);
    let mut capabilities = Vec::new();
    capabilities.push(markets);
    capabilities.push(trading);
    capabilities.push(resolution);
    let mut jurisdictions = Vec::new();
    jurisdictions.push("GLOBAL".to_string());
    let mut authentication = Vec::new();
    authentication.push("api_key".to_string());
    let m = ProviderManifest {
        upp_version: "2026-03-11".to_string(),
        provider: ProviderInfo {
            name: "Opinion".to_string(),
            id: "opinion.trade".to_string(),
            provider_type: "decentralized".to_string(),
            jurisdictions,
        },
        capabilities,
        transport: TransportInfo {
            rest_base_url: Some("https://openapi.opinion.trade/openapi".to_string()),
            websocket_url: None,
            grpc_endpoint: None,
        },
        authentication,
        rate_limits: None,
    };
    assert(texts(m.provider.jurisdictions@) =~= seq!["GLOBAL"@]);
    assert(texts(m.authentication@) =~= seq!["api_key"@]);
    assert(capabilities_view(m) =~= seq![
        capability_view(markets),
        capability_view(trading),
        capability_view(resolution),
    ]);
    m
}


// ─── Price normalisation ────────────────────────────────────

/// A Opinion price as a protocol price with four decimals; an error for a
/// text that is no price, or for a price outside 0 to 1.
pub fn normalize_price(raw_price: &str) -> (r: Result<String, String>)
    ensures
        match decimal_micros(raw_price@) {
            Some(p) => if 0 <= p <= 1_000_000 {
                r matches Ok(s) && s@ == fixed_text(p, 4)
            } else {
                r matches Err(m) && m@ == "Opinion price "@ + trim_fraction(fixed_text(p, 6)) + " out of [0,1] range"@
            },
            None => r matches Err(m) && m@ == "Invalid Opinion price"@,
        },
{
    proof {
        crate::decimal::lemma_decimal_micros_bounded(raw_price@);
        reveal_strlit("Opinion price ");
        reveal_strlit(" out of [0,1] range");
    }
    match parse_price_micros(raw_price) {
        Some(p) => {
            if 0 <= p && p <= 1_000_000 {
                Ok(format_micros(p as i128, 4))
            } else {
                let mut m = "Opinion price ".to_string();
                let shown = trim_fraction_exec(format_micros(p as i128, 6));
                m.append(shown.as_str());
                m.append(" out of [0,1] range");
                Err(m)
            }
        },
        None => Err("Invalid Opinion price".to_string()),
    }
}

/// A protocol probability as an Opinion price: the same text.
pub fn denormalize_price(probability: &str) -> (r: Result<String, String>)
    ensures
        r matches Ok(s) && s@ == probability@,
{
    Ok(probability.to_string())
}


/// Normalising a price that normalisation gave back changes nothing: a
/// price between 0 and 1 written with four decimals reads back as a price
/// between 0 and 1 that is written the same way.
pub proof fn law_normalize_is_stable(p: int)
    requires
        0 <= p <= 1_000_000,
    ensures
        decimal_micros(fixed_text(p, 4)) matches Some(r) && 0 <= r <= 1_000_000 && fixed_text(r, 4) == fixed_text(p, 4),
{
    crate::decimal::lemma_fixed_text_stable(p, 4);
}


// ─── Listing ────────────────────────────────────────────────

/// Opinion's page number for a filter: the cursor read as an `i32`, else 1.
pub open spec fn page_number(f: MarketFilter) -> int {
    match f.pagination.cursor {
        Some(c) => match i32_text_value(c@) {
            Some(v) => v,
            None => 1,
        },
        None => 1,
    }
}

/// Opinion's page size for a filter: 20 when unset, at most 100.
pub open spec fn page_limit(f: MarketFilter) -> int {
    let l: int = match f.pagination.limit {
        Some(l) => l as int,
        None => 20,
    };
    if l < 100 { l } else { 100 }
}

/// Page number and page size of an Opinion request.
pub fn paging(filter: &MarketFilter) -> (r: (i32, i32))
    ensures
        r.0 == page_number(*filter),
        r.1 == page_limit(*filter),
{
    let page: i32 = match &filter.pagination.cursor {
        Some(c) => match parse_i32(c.as_str()) {
            Some(v) => v,
            None => 1,
        },
        None => 1,
    };
    let l: i32 = match filter.pagination.limit {
        Some(l) => l,
        None => 20,
    };
    (page, if l < 100 { l } else { 100 })
}

/// Status part of an Opinion listing: its status codes for open, resolved
/// and pending markets; nothing for the others.
pub open spec fn status_query(s: Option<MarketStatus>) -> Seq<char> {
    match s {
        Some(MarketStatus::Open) => "&status=2"@,
        Some(MarketStatus::Resolved) => "&status=3"@,
        Some(MarketStatus::Pending) => "&status=0"@,
        _ => Seq::empty(),
    }
}

/// Market-type part of an Opinion listing.
pub open spec fn type_query(t: Option<MarketType>) -> Seq<char> {
    match t {
        Some(MarketType::Binary) => "&marketType=0"@,
        Some(MarketType::Categorical) => "&marketType=1"@,
        Some(_) => "&marketType=2"@,
        None => Seq::empty(),
    }
}

/// Sort part of an Opinion listing; nothing when no order is asked for,
/// by 24-hour volume for an unknown one.
pub open spec fn sort_query(sort: Option<String>) -> Seq<char> {
    match sort {
        Some(s) => if s@ == "volume"@ {
            "&sortBy=volume&sortOrder=desc"@
        } else if s@ == "newest"@ || s@ == "created_at"@ {
            "&sortBy=createdAt&sortOrder=desc"@
        } else {
            "&sortBy=volume24h&sortOrder=desc"@
        },
        None => Seq::empty(),
    }
}

/// The Opinion listing URL for a filter.
pub open spec fn markets_url_text(f: MarketFilter) -> Seq<char> {
    "https://openapi.opinion.trade/openapi/market?page="@ + int_text(page_number(f)) + "&limit="@ + int_text(
        page_limit(f),
    ) + status_query(f.status) + type_query(f.market_type) + sort_query(f.sort_by)
}

fn status_part(s: &Option<MarketStatus>) -> (r: &'static str)
    ensures
        r@ == status_query(*s),
{
    proof {
        reveal_strlit("&status=2");
        reveal_strlit("&status=3");
        reveal_strlit("&status=0");
        reveal_strlit("");
    }
    match s {
        Some(MarketStatus::Open) => "&status=2",
        Some(MarketStatus::Resolved) => "&status=3",
        Some(MarketStatus::Pending) => "&status=0",
        _ => "",
    }
}

fn type_part(t: &Option<MarketType>) -> (r: &'static str)
    ensures
        r@ == type_query(*t),
{
    proof {
        reveal_strlit("&marketType=0");
        reveal_strlit("&marketType=1");
        reveal_strlit("&marketType=2");
        reveal_strlit("");
    }
    match t {
        Some(MarketType::Binary) => "&marketType=0",
        Some(MarketType::Categorical) => "&marketType=1",
        Some(_) => "&marketType=2",
        None => "",
    }
}

fn sort_part(sort: &Option<String>) -> (r: &'static str)
    ensures
        r@ == sort_query(*sort),
{
    proof {
        reveal_strlit("volume");
        reveal_strlit("newest");
        reveal_strlit("created_at");
        reveal_strlit("&sortBy=volume&sortOrder=desc");
        reveal_strlit("&sortBy=createdAt&sortOrder=desc");
        reveal_strlit("&sortBy=volume24h&sortOrder=desc");
        reveal_strlit("");
    }
    match sort {
        Some(s) => {
            let t = s.as_str();
            if str_eq(t, "volume") {
                "&sortBy=volume&sortOrder=desc"
            } else if str_eq(t, "newest") || str_eq(t, "created_at") {
                "&sortBy=createdAt&sortOrder=desc"
            } else {
                "&sortBy=volume24h&sortOrder=desc"
            }
        },
        None => "",
    }
}

/// The URL that lists Opinion markets for a filter.
pub fn markets_url(filter: &MarketFilter) -> (url: String)
    ensures
        url@ == markets_url_text(*filter),
{
    proof {
        reveal_strlit("https://openapi.opinion.trade/openapi/market?page=");
        reveal_strlit("&limit=");
    }
    let (page, limit) = paging(filter);
    let mut url = "https://openapi.opinion.trade/openapi/market?page=".to_string();
    let pt = int_string(page as i64);
    url.append(pt.as_str());
    url.append("&limit=");
    let lt = int_string(limit as i64);
    url.append(lt.as_str());
    url.append(status_part(&filter.status));
    url.append(type_part(&filter.market_type));
    url.append(sort_part(&filter.sort_by));
    assert(url@ =~= markets_url_text(*filter));
    url
}

/// Opinion answers with a code: anything but 0 is an error carrying its
/// message, and with `with_code` the code too.
pub fn check_envelope(code: i32, msg: &str, with_code: bool) -> (r: Result<(), String>)
    ensures
        code == 0 <==> r is Ok,
        r matches Err(m) ==> m@ == "Opinion API error: "@ + msg@ + if with_code {
            " (code "@ + int_text(code as int) + ")"@
        } else {
            Seq::empty()
        },
{
    proof {
        reveal_strlit("Opinion API error: ");
        reveal_strlit(" (code ");
        reveal_strlit(")");
    }
    if code == 0 {
        return Ok(());
    }
    let mut m = "Opinion API error: ".to_string();
    m.append(msg);
    if with_code {
        m.append(" (code ");
        let c = int_string(code as i64);
        m.append(c.as_str());
        m.append(")");
    }
    Err(m)
}

/// A page of Opinion markets: the total is the reported one (0 when
/// absent, cut to `i32`); more follow while the pages so far hold fewer
/// markets than the total, on the next page.
pub fn markets_page(markets: Vec<Market>, page: i32, limit: i32, total: Option<i64>) -> (p: MarketPage)
    requires
        i32::MIN <= page * limit <= i32::MAX,
        page < i32::MAX,
    ensures
        p.markets@ == markets@,
        p.pagination.total == (match total {
            Some(t) => t as i32,
            None => 0i32,
        }),
        p.pagination.has_more == (page * limit < p.pagination.total),
        p.pagination.cursor@ == (if p.pagination.has_more { int_text(page + 1) } else { Seq::<char>::empty() }),
{
    let t: i32 = match total {
        Some(t) => t as i32,
        None => 0,
    };
    let has_more = page * limit < t;
    let cursor = if has_more { int_string((page + 1) as i64) } else { String::new() };
    MarketPage { markets, pagination: PaginationResponse { cursor, has_more, total: t } }
}


/// Opinion's status words and status codes agree, and a status the listing
/// can ask for is asked for with the code that is read back as it: code 0
/// (pending), 2 (activated, open) and 3 (resolved); the words for the
/// remaining codes 4 (voided) and 5 (closed) read as those codes do.
pub proof fn law_status_words_codes_and_listing_agree()
    ensures
        status_named("pending"@) == status_coded(0),
        status_named("activated"@) == status_coded(2),
        status_named("resolved"@) == status_coded(3),
        status_named("voided"@) == status_coded(4),
        status_named("closed"@) == status_coded(5),
        status_query(Some(status_coded(0))) == "&status=0"@,
        status_query(Some(status_coded(2))) == "&status=2"@,
        status_query(Some(status_coded(3))) == "&status=3"@,
{
    reveal_strlit("pending");
    reveal_strlit("activated");
    reveal_strlit("active");
    reveal_strlit("open");
    reveal_strlit("resolved");
    reveal_strlit("settled");
    reveal_strlit("created");
    reveal_strlit("halted");
    reveal_strlit("paused");
    reveal_strlit("closed");
    reveal_strlit("voided");
    reveal_strlit("cancelled");
    assert("pending"@.len() != "activated"@.len());
    assert("pending"@.len() != "active"@.len());
    assert("pending"@.len() != "open"@.len());
    assert("pending"@.len() != "resolved"@.len());
    assert("pending"@[0] != "settled"@[0]);
    assert("resolved"@.len() != "activated"@.len());
    assert("resolved"@.len() != "active"@.len());
    assert("resolved"@.len() != "open"@.len());
    assert("voided"@.len() != "activated"@.len());
    assert("voided"@[0] != "active"@[0]);
    assert("voided"@.len() != "open"@.len());
    assert("voided"@.len() != "resolved"@.len());
    assert("voided"@.len() != "settled"@.len());
    assert("voided"@.len() != "pending"@.len());
    assert("voided"@.len() != "created"@.len());
    assert("voided"@[0] != "halted"@[0]);
    assert("voided"@[0] != "paused"@[0]);
    assert("voided"@[0] != "closed"@[0]);
    assert("closed"@.len() != "activated"@.len());
    assert("closed"@[0] != "active"@[0]);
    assert("closed"@.len() != "open"@.len());
    assert("closed"@.len() != "resolved"@.len());
    assert("closed"@.len() != "settled"@.len());
    assert("closed"@.len() != "pending"@.len());
    assert("closed"@.len() != "created"@.len());
    assert("closed"@[0] != "halted"@[0]);
    assert("closed"@[0] != "paused"@[0]);
}

} // verus!
