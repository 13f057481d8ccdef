//! Polymarket: Gamma market records and their translation into the
//! protocol's markets. Gamma sends outcomes, outcome prices and token ids as
//! JSON-encoded string arrays inside text fields. Its figures (prices,
//! volumes, sizes) are held here in millionths.
use vstd::prelude::*;
use vstd::utf8::encode_utf8;
use crate::adapters::{MarketFilter, capabilities_view, capability, capability_view, ProviderInfo, ProviderManifest, TransportInfo};
use crate::decimal::{i32_text_value, int_string, parse_i32, decimal_micros, fixed_text, format_micros, parse_price_micros, trim_fraction, trim_fraction_exec};
use crate::kalshi::int_text;
use crate::listing::MarketPage;
use crate::text::{lowercase, str_eq, texts, to_lowercase};
use crate::types::PaginationResponse;
use crate::types::{
    now_millis, parse_rfc3339_ms, rfc3339_instant_ms, Event, KeyValue, KycLevel, Market, MarketLifecycle,
    MarketPricing, MarketRegulatory, MarketRules, MarketStatus, MarketType, MarketVolume, OrderType, Outcome,
    TimeInForce, UniversalMarketId,
};

verus! {

/// A tag of a Gamma market.
#[derive(Debug, Clone)]
pub struct GammaTag {
    pub id: Option<String>,
    pub label: Option<String>,
    pub slug: Option<String>,
}

/// A market as Polymarket's Gamma API describes it; figures in millionths.
#[derive(Debug, Clone)]
pub struct GammaMarket {
    pub condition_id: String,
    pub question_id: Option<String>,
    pub question: String,
    pub slug: Option<String>,
    pub description: Option<String>,
    /// JSON-encoded array of outcome labels.
    pub outcomes: Option<String>,
    /// JSON-encoded array of outcome prices (snake_case field).
    pub outcome_prices: Option<String>,
    /// The same, from the camelCase field.
    pub outcome_prices_alt: Option<String>,
    /// JSON-encoded array of CLOB token ids (snake_case field).
    pub clob_token_ids: Option<String>,
    /// The same, from the camelCase field.
    pub clob_token_ids_alt: Option<String>,
    pub volume_micros: Option<i64>,
    pub volume_24hr_micros: Option<i64>,
    pub liquidity_micros: Option<i64>,
    pub open_interest_micros: Option<i64>,
    pub best_bid_micros: Option<i64>,
    pub best_ask_micros: Option<i64>,
    pub last_trade_price_micros: Option<i64>,
    pub spread_micros: Option<i64>,
    pub active: Option<bool>,
    pub closed: Option<bool>,
    pub archived: Option<bool>,
    pub accepting_orders: Option<bool>,
    pub end_date_iso: Option<String>,
    pub start_date_iso: Option<String>,
    pub created_at: Option<String>,
    pub enable_order_book: Option<bool>,
    pub neg_risk: Option<bool>,
    pub tick_size: Option<String>,
    pub min_order_size_micros: Option<i64>,
    pub image: Option<String>,
    pub icon: Option<String>,
    pub group_item_title: Option<String>,
    pub tags: Option<Vec<GammaTag>>,
    pub resolution_source: Option<String>,
    pub uma_bond: Option<String>,
    pub uma_reward: Option<String>,
}

// ─── JSON string arrays ─────────────────────────────────────

/// The strings `serde_json::from_str::<Vec<String>>` reads in a text;
/// `None` when the text is no JSON array of strings.
pub uninterp spec fn json_strings(s: Seq<char>) -> Option<Seq<Seq<char>>>;

/// Calls `serde_json::from_str::<Vec<String>>`; what it reads is named by
/// `json_strings`.
#[verifier::external_body]
fn read_json_strings(s: &str) -> (r: Option<Vec<String>>)
    ensures
        match r {
            Some(v) => json_strings(s@) == Some(texts(v@)),
            None => json_strings(s@) is None,
        },
{
    serde_json::from_str::<Vec<String>>(s).ok()
}

/// The strings of a JSON array, or none when the text is no such array.
pub open spec fn strings_or_none(s: Seq<char>) -> Seq<Seq<char>> {
    match json_strings(s) {
        Some(v) => v,
        None => Seq::empty(),
    }
}

/// The strings of a JSON-encoded array; empty when the text is no array of
/// strings.
pub fn parse_json_string_array(s: &str) -> (r: Vec<String>)
    ensures
        texts(r@) == strings_or_none(s@),
{
    match read_json_strings(s) {
        Some(v) => v,
        None => {
            let r: Vec<String> = Vec::new();
            assert(texts(r@) =~= Seq::<Seq<char>>::empty());
            r
        },
    }
}

/// The first text present, or a default.
pub open spec fn first_text(a: Option<String>, b: Option<String>, d: Seq<char>) -> Seq<char> {
    match a {
        Some(s) => s@,
        None => match b {
            Some(s) => s@,
            None => d,
        },
    }
}

fn first_str<'a>(a: &'a Option<String>, b: &'a Option<String>, d: &'a str) -> (r: &'a str)
    ensures
        r@ == first_text(*a, *b, d@),
{
    match a {
        Some(s) => s.as_str(),
        None => match b {
            Some(s) => s.as_str(),
            None => d,
        },
    }
}

/// The outcome labels of a market: its `outcomes` array, `["Yes","No"]`
/// when absent.
pub open spec fn outcome_labels(gm: GammaMarket) -> Seq<Seq<char>> {
    strings_or_none(first_text(gm.outcomes, None, "[\"Yes\",\"No\"]"@))
}

/// The outcome prices of a market, from either spelling of the field.
pub open spec fn outcome_prices(gm: GammaMarket) -> Seq<Seq<char>> {
    strings_or_none(first_text(gm.outcome_prices, gm.outcome_prices_alt, "[]"@))
}

/// The CLOB token ids of a market, from either spelling of the field.
pub open spec fn clob_token_ids(gm: GammaMarket) -> Seq<Seq<char>> {
    strings_or_none(first_text(gm.clob_token_ids, gm.clob_token_ids_alt, "[]"@))
}

/// Outcome prices of a market.
pub fn get_outcome_prices(gm: &GammaMarket) -> (r: Vec<String>)
    ensures
        texts(r@) == outcome_prices(*gm),
{
    parse_json_string_array(first_str(&gm.outcome_prices, &gm.outcome_prices_alt, "[]"))
}

/// CLOB token ids of a market.
pub fn get_clob_token_ids(gm: &GammaMarket) -> (r: Vec<String>)
    ensures
        texts(r@) == clob_token_ids(*gm),
{
    parse_json_string_array(first_str(&gm.clob_token_ids, &gm.clob_token_ids_alt, "[]"))
}

/// Outcome labels of a market.
pub fn get_outcomes(gm: &GammaMarket) -> (r: Vec<String>)
    ensures
        texts(r@) == outcome_labels(*gm),
{
    let none: Option<String> = None;
    parse_json_string_array(first_str(&gm.outcomes, &none, "[\"Yes\",\"No\"]"))
}

// ─── Market ─────────────────────────────────────────────────

/// Entries of a keyed text table as pairs.
pub open spec fn table(t: Seq<KeyValue>) -> Seq<(Seq<char>, Seq<char>)> {
    t.map_values(|kv: KeyValue| (kv.key@, kv.value@))
}

/// A one-entry table when the figure is present, else an empty one.
pub open spec fn entry_if(key: Seq<char>, v: Option<int>, places: nat) -> Seq<(Seq<char>, Seq<char>)> {
    match v {
        Some(x) => seq![(key, fixed_text(x, places))],
        None => Seq::empty(),
    }
}

/// An optional figure as an optional integer.
pub open spec fn figure(v: Option<i64>) -> Option<int> {
    match v {
        Some(x) => Some(x as int),
        None => None,
    }
}

/// One minus an optional price.
pub open spec fn complement(v: Option<i64>) -> Option<int> {
    match v {
        Some(x) => Some(1_000_000 - x),
        None => None,
    }
}

/// Outcome ids: the lower-cased labels.
pub open spec fn outcome_ids(labels: Seq<Seq<char>>) -> Seq<Seq<char>> {
    labels.map_values(|l: Seq<char>| lowercase(l))
}

/// Entries for the outcomes that have a price, each with that price.
pub open spec fn priced_entries(ids: Seq<Seq<char>>, prices: Seq<Seq<char>>) -> Seq<(Seq<char>, Seq<char>)> {
    let n = if ids.len() <= prices.len() { ids.len() } else { prices.len() };
    Seq::new(n, |i: int| (ids[i], prices[i]))
}

/// A figure with four decimals for the first outcome, and for a binary
/// market one for the second outcome.
pub open spec fn two_sided(
    ids: Seq<Seq<char>>,
    first: Option<int>,
    second: Option<int>,
) -> Seq<(Seq<char>, Seq<char>)> {
    (if ids.len() >= 1 { entry_if(ids[0], first, 4) } else { Seq::empty() }) + (if ids.len() == 2 {
        entry_if(ids[1], second, 4)
    } else {
        Seq::empty()
    })
}

/// Market status of a Gamma market: closed, else halted when inactive,
/// else open when accepting orders, else pending.
pub open spec fn gamma_status(gm: GammaMarket) -> MarketStatus {
    if gm.closed == Some(true) {
        MarketStatus::Closed
    } else if gm.active == Some(false) {
        MarketStatus::Halted
    } else if gm.accepting_orders != Some(false) {
        MarketStatus::Open
    } else {
        MarketStatus::Pending
    }
}

/// The labels of the tags that have one, in order.
pub open spec fn tag_labels(tags: Seq<GammaTag>) -> Seq<Seq<char>>
    decreases tags.len(),
{
    if tags.len() == 0 {
        Seq::empty()
    } else {
        tag_labels(tags.drop_last()) + match tags.last().label {
            Some(l) => seq![l@],
            None => Seq::empty(),
        }
    }
}

/// Tag labels of a market.
pub open spec fn market_tags(gm: GammaMarket) -> Seq<Seq<char>> {
    match gm.tags {
        Some(t) => tag_labels(t@),
        None => Seq::empty(),
    }
}

/// An optional text.
pub open spec fn opt_text(o: Option<String>) -> Option<Seq<char>> {
    match o {
        Some(s) => Some(s@),
        None => None,
    }
}

/// Whole units of an amount in millionths, rounded toward zero and held
/// within `i32`.
pub open spec fn whole_i32(v: int) -> int {
    let w = if v >= 0 { v / 1_000_000 } else { -((-v) / 1_000_000) };
    if w > i32::MAX { i32::MAX as int } else if w < i32::MIN { i32::MIN as int } else { w }
}

/// Provider metadata: the native type, then the slug and its page when
/// there is a slug, then the negative-risk flag when given.
pub open spec fn gamma_metadata(gm: GammaMarket) -> Seq<(Seq<char>, Seq<char>)> {
    seq![("provider_native_type"@, "polymarket_ctf"@)] + match gm.slug {
        Some(s) => seq![("slug"@, s@), ("web_url"@, "https://polymarket.com/event/"@ + s@)],
        None => Seq::empty(),
    } + match gm.neg_risk {
        Some(true) => seq![("neg_risk"@, "true"@)],
        Some(false) => seq![("neg_risk"@, "false"@)],
        None => Seq::empty(),
    }
}

/// A volume figure written with no decimals, `0` when absent.
pub open spec fn volume_text(v: Option<i64>) -> Seq<char> {
    match v {
        Some(x) => fixed_text(x as int, 0),
        None => "0"@,
    }
}

/// `m` is the protocol form of the Gamma market `gm` with these outcome
/// labels, prices and token ids, creation and closing instants (`None`
/// when absent or unreadable), and clock reading `now`.
pub open spec fn is_polymarket_market(
    m: Market,
    gm: GammaMarket,
    labels: Seq<Seq<char>>,
    prices: Seq<Seq<char>>,
    tokens: Seq<Seq<char>>,
    created: Option<int>,
    closes: Option<int>,
    now: int,
) -> bool {
    let ids = outcome_ids(labels);
    let tags = market_tags(gm);
    &&& m.id.provider@ == "polymarket.com"@
    &&& m.id.native_id@ == gm.condition_id@
    &&& m.event.id@ == first_text(gm.question_id, None, gm.condition_id@)
    &&& m.event.title@ == gm.question@
    &&& m.event.description@ == first_text(gm.description, None, Seq::empty())
    &&& m.event.category@ == (if tags.len() > 0 { tags[0] } else { "uncategorized"@ })
    &&& texts(m.event.tags@) == tags
    &&& opt_text(m.event.image_url) == (if gm.image is Some { opt_text(gm.image) } else { opt_text(gm.icon) })
    &&& m.event.series_id is None
    &&& opt_text(m.event.series_title) == opt_text(gm.group_item_title)
    &&& m.market_type == (if labels.len() == 2 { MarketType::Binary } else { MarketType::Categorical })
    &&& m.outcomes@.len() == labels.len()
    &&& forall|i: int|
        0 <= i < labels.len() ==> {
            &&& (#[trigger] m.outcomes@[i]).id@ == ids[i]
            &&& m.outcomes@[i].label@ == labels[i]
            &&& opt_text(m.outcomes@[i].token_id) == (if i < tokens.len() { Some(tokens[i]) } else { None })
        }
    &&& table(m.pricing.last_price@) == priced_entries(ids, prices)
    &&& table(m.pricing.mid_price@) == priced_entries(ids, prices)
    &&& table(m.pricing.best_bid@) == two_sided(ids, figure(gm.best_bid_micros), complement(gm.best_ask_micros))
    &&& table(m.pricing.best_ask@) == two_sided(ids, figure(gm.best_ask_micros), complement(gm.best_bid_micros))
    &&& table(m.pricing.spread@) == two_sided(ids, figure(gm.spread_micros), figure(gm.spread_micros))
    &&& m.pricing.tick_size@ == first_text(gm.tick_size, None, "0.01"@)
    &&& m.pricing.currency@ == "USDC"@
    &&& m.pricing.min_order_size == (match gm.min_order_size_micros {
        Some(v) => whole_i32(v as int),
        None => 1,
    })
    &&& m.pricing.max_order_size == 0
    &&& m.pricing.updated_at == now
    &&& m.volume.total_volume@ == volume_text(gm.volume_micros)
    &&& m.volume.volume_24h@ == volume_text(gm.volume_24hr_micros)
    &&& m.volume.volume_7d is None
    &&& m.volume.open_interest@ == volume_text(gm.open_interest_micros)
    &&& m.volume.num_traders is None
    &&& m.volume.updated_at == now
    &&& m.lifecycle.status == gamma_status(gm)
    &&& m.lifecycle.created_at == (match created {
        Some(t) => t,
        None => now,
    })
    &&& m.lifecycle.opens_at is None
    &&& figure(m.lifecycle.closes_at) == closes
    &&& m.lifecycle.resolved_at is None
    &&& figure(m.lifecycle.expires_at) == closes
    &&& opt_text(m.lifecycle.resolution_source) == Some(first_text(gm.resolution_source, None, "UMA Optimistic Oracle"@))
    &&& m.rules.allowed_order_types@ == seq![OrderType::Limit]
    &&& m.rules.allowed_tif@ == seq![TimeInForce::Gtc, TimeInForce::Fok]
    &&& m.rules.allows_short_selling
    &&& m.rules.allows_partial_fill
    &&& m.rules.maker_fee_rate@ == "0.00"@
    &&& m.rules.taker_fee_rate@ == "0.00"@
    &&& m.rules.max_position_size == 0
    &&& m.regulatory.jurisdiction@ == "GLOBAL"@
    &&& !m.regulatory.compliant
    &&& texts(m.regulatory.eligible_regions@) == seq!["GLOBAL"@]
    &&& texts(m.regulatory.restricted_regions@) == seq!["US"@]
    &&& m.regulatory.regulator@ == "none"@
    &&& m.regulatory.license_type@ == "none"@
    &&& m.regulatory.contract_type@ == "binary_option"@
    &&& m.regulatory.required_kyc == KycLevel::NoneRequired
    &&& table(m.provider_metadata@) == gamma_metadata(gm)
}


/// An optional time text read as an instant.
pub open spec fn instant_of(t: Option<String>) -> Option<int> {
    match t {
        Some(s) => rfc3339_instant_ms(s@),
        None => None,
    }
}

fn read_instant(t: &Option<String>) -> (r: Option<i64>)
    ensures
        figure(r) == instant_of(*t),
{
    match t {
        Some(s) => parse_rfc3339_ms(s.as_str()),
        None => None,
    }
}

fn text_or(o: &Option<String>, d: &str) -> (r: String)
    ensures
        r@ == first_text(*o, None, d@),
{
    match o {
        Some(s) => s.clone(),
        None => d.to_string(),
    }
}

fn clone_opt(o: &Option<String>) -> (r: Option<String>)
    ensures
        opt_text(r) == opt_text(*o),
{
    match o {
        Some(s) => Some(s.clone()),
        None => None,
    }
}

fn lower_ids(labels: &Vec<String>) -> (ids: Vec<String>)
    ensures
        texts(ids@) == outcome_ids(texts(labels@)),
{
    let mut ids: Vec<String> = Vec::new();
    let mut i: usize = 0;
    while i < labels.len()
        invariant
            i <= labels@.len(),
            texts(ids@) == outcome_ids(texts(labels@.take(i as int))),
        decreases labels@.len() - i,
    {
        let ghost before = texts(ids@);
        ids.push(to_lowercase(labels[i].as_str()));
        assert(texts(ids@) =~= before.push(lowercase(labels@[i as int]@)));
        assert(outcome_ids(texts(labels@.take(i as int + 1))) =~= outcome_ids(texts(labels@.take(i as int))).push(
            lowercase(labels@[i as int]@),
        ));
        i = i + 1;
    }
    assert(labels@.take(labels@.len() as int) =~= labels@);
    ids
}

/// Views of the outcomes built for some ids, labels and token ids.
pub open spec fn outcomes_match(
    outs: Seq<Outcome>,
    ids: Seq<Seq<char>>,
    labels: Seq<Seq<char>>,
    tokens: Seq<Seq<char>>,
    n: int,
) -> bool {
    &&& outs.len() == n
    &&& forall|i: int|
        0 <= i < n ==> {
            &&& (#[trigger] outs[i]).id@ == ids[i]
            &&& outs[i].label@ == labels[i]
            &&& opt_text(outs[i].token_id) == (if i < tokens.len() { Some(tokens[i]) } else { None })
        }
}

fn build_outcomes(ids: &Vec<String>, labels: &Vec<String>, tokens: &Vec<String>) -> (outs: Vec<Outcome>)
    requires
        ids@.len() == labels@.len(),
    ensures
        outcomes_match(outs@, texts(ids@), texts(labels@), texts(tokens@), labels@.len() as int),
{
    let mut outs: Vec<Outcome> = Vec::new();
    let mut i: usize = 0;
    while i < labels.len()
        invariant
            i <= labels@.len(),
            ids@.len() == labels@.len(),
            outcomes_match(outs@, texts(ids@), texts(labels@), texts(tokens@), i as int),
        decreases labels@.len() - i,
    {
        let token_id = if i < tokens.len() { Some(tokens[i].clone()) } else { None };
        outs.push(Outcome { id: ids[i].clone(), label: labels[i].clone(), token_id });
        i = i + 1;
    }
    outs
}

fn priced_table(ids: &Vec<String>, prices: &Vec<String>) -> (t: Vec<KeyValue>)
    ensures
        table(t@) == priced_entries(texts(ids@), texts(prices@)),
{
    let mut t: Vec<KeyValue> = Vec::new();
    let mut i: usize = 0;
    while i < ids.len() && i < prices.len()
        invariant
            i <= ids@.len(),
            i <= prices@.len(),
            table(t@) == priced_entries(texts(ids@), texts(prices@)).take(i as int),
        decreases ids@.len() - i,
    {
        let ghost before = table(t@);
        let key = ids[i].clone();
        let value = prices[i].clone();
        t.push(KeyValue { key, value });
        assert(table(t@) =~= before.push((ids@[i as int]@, prices@[i as int]@)));
        assert(table(t@) =~= priced_entries(texts(ids@), texts(prices@)).take(i as int + 1));
        i = i + 1;
    }
    assert(table(t@) =~= priced_entries(texts(ids@), texts(prices@)));
    t
}

fn push_figure(t: &mut Vec<KeyValue>, key: &String, v: Option<i128>)
    requires
        match v {
            Some(x) => x > i128::MIN,
            None => true,
        },
    ensures
        table(final(t)@) == table(old(t)@) + entry_if(key@, match v {
            Some(x) => Some(x as int),
            None => None,
        }, 4),
{
    match v {
        Some(x) => {
            let ghost before = table(t@);
            t.push(KeyValue { key: key.clone(), value: format_micros(x, 4) });
            assert(table(t@) =~= before + seq![(key@, fixed_text(x as int, 4))]);
        },
        None => {
            assert(table(t@) =~= table(t@) + Seq::<(Seq<char>, Seq<char>)>::empty());
        },
    }
}

fn wide(v: Option<i64>) -> (r: Option<i128>)
    ensures
        match r {
            Some(x) => x > i128::MIN && figure(v) == Some(x as int),
            None => v is None,
        },
{
    match v {
        Some(x) => Some(x as i128),
        None => None,
    }
}

fn wide_complement(v: Option<i64>) -> (r: Option<i128>)
    ensures
        match r {
            Some(x) => x > i128::MIN && complement(v) == Some(x as int),
            None => v is None,
        },
{
    match v {
        Some(x) => Some(1_000_000 - x as i128),
        None => None,
    }
}

fn two_sided_table(ids: &Vec<String>, first: Option<i128>, second: Option<i128>) -> (t: Vec<KeyValue>)
    requires
        match first {
            Some(x) => x > i128::MIN,
            None => true,
        },
        match second {
            Some(x) => x > i128::MIN,
            None => true,
        },
    ensures
        table(t@) == two_sided(
            texts(ids@),
            match first {
                Some(x) => Some(x as int),
                None => None,
            },
            match second {
                Some(x) => Some(x as int),
                None => None,
            },
        ),
{
    let mut t: Vec<KeyValue> = Vec::new();
    assert(table(t@) =~= Seq::<(Seq<char>, Seq<char>)>::empty());
    if ids.len() >= 1 {
        push_figure(&mut t, &ids[0], first);
    }
    if ids.len() == 2 {
        push_figure(&mut t, &ids[1], second);
    }
    proof {
        let f = match first {
            Some(x) => Some(x as int),
            None => None,
        };
        let g = match second {
            Some(x) => Some(x as int),
            None => None,
        };
        assert(table(t@) =~= two_sided(texts(ids@), f, g));
    }
    t
}


fn collect_tags(tags: &Option<Vec<GammaTag>>) -> (r: Vec<String>)
    ensures
        texts(r@) == match *tags {
            Some(t) => tag_labels(t@),
            None => Seq::empty(),
        },
{
    let mut r: Vec<String> = Vec::new();
    match tags {
        Some(ts) => {
            let mut i: usize = 0;
            while i < ts.len()
                invariant
                    i <= ts@.len(),
                    texts(r@) == tag_labels(ts@.take(i as int)),
                decreases ts@.len() - i,
            {
                let ghost before = texts(r@);
                let ghost tk = ts@.take(i as int + 1);
                assert(tk.drop_last() =~= ts@.take(i as int));
                match &ts[i].label {
                    Some(l) => {
                        r.push(l.clone());
                        assert(texts(r@) =~= before + seq![l@]);
                    },
                    None => {
                        assert(texts(r@) =~= before + Seq::<Seq<char>>::empty());
                    },
                }
                i = i + 1;
            }
            assert(ts@.take(ts@.len() as int) =~= ts@);
        },
        None => {
            assert(texts(r@) =~= Seq::<Seq<char>>::empty());
        },
    }
    r
}

fn status_of(gm: &GammaMarket) -> (s: MarketStatus)
    ensures
        s == gamma_status(*gm),
{
    let closed = match gm.closed { Some(b) => b, None => false };
    let active = match gm.active { Some(b) => b, None => true };
    let accepting = match gm.accepting_orders { Some(b) => b, None => true };
    if closed {
        MarketStatus::Closed
    } else if !active {
        MarketStatus::Halted
    } else if accepting {
        MarketStatus::Open
    } else {
        MarketStatus::Pending
    }
}

fn min_order_size_of(v: Option<i64>) -> (r: i32)
    ensures
        r == match v {
            Some(x) => whole_i32(x as int),
            None => 1,
        },
{
    match v {
        Some(x) => {
            let w: i64 = if x >= 0 { x / 1_000_000 } else { -((-(x as i128)) / 1_000_000) as i64 };
            if w > i32::MAX as i64 {
                i32::MAX
            } else if w < i32::MIN as i64 {
                i32::MIN
            } else {
                w as i32
            }
        },
        None => 1,
    }
}

fn volume_string(v: Option<i64>) -> (r: String)
    ensures
        r@ == volume_text(v),
{
    match v {
        Some(x) => format_micros(x as i128, 0),
        None => "0".to_string(),
    }
}

fn metadata_of(gm: &GammaMarket) -> (t: Vec<KeyValue>)
    ensures
        table(t@) == gamma_metadata(*gm),
{
    proof {
        reveal_strlit("provider_native_type");
        reveal_strlit("polymarket_ctf");
        reveal_strlit("slug");
        reveal_strlit("web_url");
        reveal_strlit("https://polymarket.com/event/");
        reveal_strlit("neg_risk");
        reveal_strlit("true");
        reveal_strlit("false");
    }
    let mut t: Vec<KeyValue> = Vec::new();
    t.push(KeyValue { key: "provider_native_type".to_string(), value: "polymarket_ctf".to_string() });
    let ghost head = table(t@);
    assert(head =~= seq![("provider_native_type"@, "polymarket_ctf"@)]);
    match &gm.slug {
        Some(slug) => {
            t.push(KeyValue { key: "slug".to_string(), value: slug.clone() });
            let mut url = "https://polymarket.com/event/".to_string();
            url.append(slug.as_str());
            t.push(KeyValue { key: "web_url".to_string(), value: url });
        },
        None => {},
    }
    let ghost mid = table(t@);
    assert(mid =~= head + match gm.slug {
        Some(s) => seq![("slug"@, s@), ("web_url"@, "https://polymarket.com/event/"@ + s@)],
        None => Seq::<(Seq<char>, Seq<char>)>::empty(),
    });
    match gm.neg_risk {
        Some(b) => {
            let v = if b { "true".to_string() } else { "false".to_string() };
            t.push(KeyValue { key: "neg_risk".to_string(), value: v });
        },
        None => {},
    }
    assert(table(t@) =~= gamma_metadata(*gm));
    t
}


/// The protocol form of a Gamma market, given what was read from its JSON
/// arrays and time texts, and the clock reading that stands in for an
/// absent creation time and marks the figures' update.
#[verifier::rlimit(60)]
pub fn market_from_parts(
    gm: &GammaMarket,
    labels: &Vec<String>,
    prices: &Vec<String>,
    tokens: &Vec<String>,
    created: Option<i64>,
    closes: Option<i64>,
    now: i64,
) -> (m: Market)
    ensures
        is_polymarket_market(
            m,
            *gm,
            texts(labels@),
            texts(prices@),
            texts(tokens@),
            figure(created),
            figure(closes),
            now as int,
        ),
{
    proof {
        reveal_strlit("polymarket.com");
        reveal_strlit("uncategorized");
        reveal_strlit("");
        reveal_strlit("0.01");
        reveal_strlit("USDC");
        reveal_strlit("UMA Optimistic Oracle");
        reveal_strlit("0.00");
        reveal_strlit("GLOBAL");
        reveal_strlit("US");
        reveal_strlit("none");
        reveal_strlit("binary_option");
    }
    let ids = lower_ids(labels);
    let outcomes = build_outcomes(&ids, labels, tokens);
    let market_type = if labels.len() == 2 { MarketType::Binary } else { MarketType::Categorical };
    let pricing = MarketPricing {
        last_price: priced_table(&ids, prices),
        best_bid: two_sided_table(&ids, wide(gm.best_bid_micros), wide_complement(gm.best_ask_micros)),
        best_ask: two_sided_table(&ids, wide(gm.best_ask_micros), wide_complement(gm.best_bid_micros)),
        mid_price: priced_table(&ids, prices),
        spread: two_sided_table(&ids, wide(gm.spread_micros), wide(gm.spread_micros)),
        tick_size: text_or(&gm.tick_size, "0.01"),
        currency: "USDC".to_string(),
        min_order_size: min_order_size_of(gm.min_order_size_micros),
        max_order_size: 0,
        updated_at: now,
    };
    let volume = MarketVolume {
        total_volume: volume_string(gm.volume_micros),
        volume_24h: volume_string(gm.volume_24hr_micros),
        volume_7d: None,
        open_interest: volume_string(gm.open_interest_micros),
        num_traders: None,
        updated_at: now,
    };
    let created_at = match created {
        Some(t) => t,
        None => now,
    };
    let lifecycle = MarketLifecycle {
        status: status_of(gm),
        created_at,
        opens_at: None,
        closes_at: closes,
        resolved_at: None,
        expires_at: closes,
        resolution_source: Some(text_or(&gm.resolution_source, "UMA Optimistic Oracle")),
    };
    let tags = collect_tags(&gm.tags);
    let category = if tags.len() > 0 { tags[0].clone() } else { "uncategorized".to_string() };
    let image_url = match &gm.image {
        Some(i) => Some(i.clone()),
        None => clone_opt(&gm.icon),
    };
    let event = Event {
        id: text_or(&gm.question_id, gm.condition_id.as_str()),
        title: gm.question.clone(),
        description: text_or(&gm.description, ""),
        category,
        tags,
        image_url,
        series_id: None,
        series_title: clone_opt(&gm.group_item_title),
    };
    let mut order_types: Vec<OrderType> = Vec::new();
    order_types.push(OrderType::Limit);
    let rules = MarketRules {
        allowed_order_types: order_types,
        allowed_tif: vec![TimeInForce::Gtc, TimeInForce::Fok],
        allows_short_selling: true,
        allows_partial_fill: true,
        maker_fee_rate: "0.00".to_string(),
        taker_fee_rate: "0.00".to_string(),
        max_position_size: 0,
    };
    let regulatory = MarketRegulatory {
        jurisdiction: "GLOBAL".to_string(),
        compliant: false,
        eligible_regions: vec!["GLOBAL".to_string()],
        restricted_regions: vec!["US".to_string()],
        regulator: "none".to_string(),
        license_type: "none".to_string(),
        contract_type: "binary_option".to_string(),
        required_kyc: KycLevel::NoneRequired,
    };
    let provider_metadata = metadata_of(gm);
    proof {
        assert(""@ =~= Seq::<char>::empty());
        assert(texts(regulatory.eligible_regions@) =~= seq!["GLOBAL"@]);
        assert(texts(regulatory.restricted_regions@) =~= seq!["US"@]);
    }
    Market {
        id: UniversalMarketId::new("polymarket.com", gm.condition_id.as_str()),
        event,
        market_type,
        outcomes,
        pricing,
        volume,
        lifecycle,
        rules,
        regulatory,
        provider_metadata,
    }
}

/// A Gamma market in the protocol's form: its JSON arrays and time texts
/// are read, the clock stands in for an absent creation time.
pub fn transform_market(gm: &GammaMarket) -> (m: Market)
    ensures
        exists|now: int|
            is_polymarket_market(
                m,
                *gm,
                outcome_labels(*gm),
                outcome_prices(*gm),
                clob_token_ids(*gm),
                instant_of(gm.created_at),
                instant_of(gm.end_date_iso),
                now,
            ),
{
    let labels = get_outcomes(gm);
    let prices = get_outcome_prices(gm);
    let tokens = get_clob_token_ids(gm);
    let created = read_instant(&gm.created_at);
    let closes = read_instant(&gm.end_date_iso);
    let now = now_millis();
    let m = market_from_parts(gm, &labels, &prices, &tokens, created, closes, now);
    assert(is_polymarket_market(
        m,
        *gm,
        outcome_labels(*gm),
        outcome_prices(*gm),
        clob_token_ids(*gm),
        instant_of(gm.created_at),
        instant_of(gm.end_date_iso),
        now as int,
    ));
    m
}


// ─── Manifest ───────────────────────────────────────────────

/// Polymarket's operations of a capability, present only with a wallet.
pub open spec fn when_signed(authenticated: bool, ops: Seq<Seq<char>>) -> Seq<Seq<char>> {
    if authenticated { ops } else { Seq::empty() }
}

/// Polymarket's manifest: market data always; trading and portfolio
/// operations only with a wallet key.
pub fn manifest(authenticated: bool) -> (m: ProviderManifest)
    ensures
        m.upp_version@ == "2026-03-11"@,
        m.provider.name@ == "Polymarket"@,
        m.provider.id@ == "polymarket.com"@,
        m.provider.provider_type@ == "hybrid"@,
        texts(m.provider.jurisdictions@) == seq!["GLOBAL"@],
        capabilities_view(m) == seq![
            (
                "markets"@,
                "2026-03-11"@,
                seq!["listMarkets"@, "getMarket"@, "searchMarkets"@, "getOrderBook"@],
                seq!["analytics"@, "streaming"@, "social"@],
            ),
            (
                "trading"@,
                "2026-03-11"@,
                when_signed(authenticated, seq!["createOrder"@, "cancelOrder"@, "cancelAllOrders"@]),
                Seq::<Seq<char>>::empty(),
            ),
            (
                "portfolio"@,
                "2026-03-11"@,
                when_signed(authenticated, seq!["getPositions"@, "getTradeHistory"@]),
                Seq::<Seq<char>>::empty(),
            ),
        ],
        m.transport.rest_base_url matches Some(u) && u@ == "https://clob.polymarket.com"@,
        m.transport.websocket_url matches Some(u) && u@ == "wss://ws-subscriptions-clob.polymarket.com/ws/market"@,
        m.transport.grpc_endpoint is None,
        texts(m.authentication@) == seq![if authenticated { "wallet_signature"@ } else { "none"@ }],
        m.rate_limits is None,
{
    proof {
        reveal_strlit("2026-03-11");
        reveal_strlit("Polymarket");
        reveal_strlit("polymarket.com");
        reveal_strlit("hybrid");
        reveal_strlit("GLOBAL");
        reveal_strlit("wallet_signature");
        reveal_strlit("none");
        reveal_strlit("https://clob.polymarket.com");
        reveal_strlit("wss://ws-subscriptions-clob.polymarket.com/ws/market");
        reveal_strlit("markets");
        reveal_strlit("listMarkets");
        reveal_strlit("getMarket");
        reveal_strlit("searchMarkets");
        reveal_strlit("getOrderBook");
        reveal_strlit("analytics");
        reveal_strlit("streaming");
        reveal_strlit("social");
        reveal_strlit("trading");
        reveal_strlit("createOrder");
        reveal_strlit("cancelOrder");
        reveal_strlit("cancelAllOrders");
        reveal_strlit("portfolio");
        reveal_strlit("getPositions");
        reveal_strlit("getTradeHistory");
    }
    let markets = capability(
        "markets",
        vec!["listMarkets", "getMarket", "searchMarkets", "getOrderBook"],
        vec!["analytics", "streaming", "social"],
    );
    assert(capability_view(markets).2 =~= seq!["listMarkets"@, "getMarket"@, "searchMarkets"@, "getOrderBook"@]);
    assert(capability_view(markets).3 =~= seq!["analytics"@, "streaming"@, "social"@]);
    let trading_ops = if authenticated { vec!["createOrder", "cancelOrder", "cancelAllOrders"] } else { vec![] };
    let trading = capability("trading", trading_ops, vec![]);
    assert(capability_view(trading).2 =~= when_signed(authenticated, seq!["createOrder"@, "cancelOrder"@, "cancelAllOrders"@]));
    assert(capability_view(trading).3 =~= Seq::<Seq<char>>::empty());
    let portfolio_ops = if authenticated { vec!["getPositions", "getTradeHistory"] } else { vec![] };
    let portfolio = capability("portfolio", portfolio_ops, vec![]);
    assert(capability_view(portfolio).2 =~= when_signed(authenticated, seq!["getPositions"@, "getTradeHistory"@]));
    assert(capability_view(portfolio).3 =~= Seq::<Seq<char>>::empty());
    let mut capabilities = Vec::new();
    capabilities.push(markets);
    capabilities.push(trading);
    capabilities.push(portfolio);
    let mut jurisdictions = Vec::new();
    jurisdictions.push("GLOBAL".to_string());
    let mut authentication = Vec::new();
    authentication.push(if authenticated { "wallet_signature".to_string() } else { "none".to_string() });
    let m = ProviderManifest {
        upp_version: "2026-03-11".to_string(),
        provider: ProviderInfo {
            name: "Polymarket".to_string(),
            id: "polymarket.com".to_string(),
            provider_type: "hybrid".to_string(),
            jurisdictions,
        },
        capabilities,
        transport: TransportInfo {
            rest_base_url: Some("https://clob.polymarket.com".to_string()),
            websocket_url: Some("wss://ws-subscriptions-clob.polymarket.com/ws/market".to_string()),
            grpc_endpoint: None,
        },
        authentication,
        rate_limits: None,
    };
    assert(texts(m.provider.jurisdictions@) =~= seq!["GLOBAL"@]);
    assert(texts(m.authentication@) =~= seq![if authenticated { "wallet_signature"@ } else { "none"@ }]);
    assert(capabilities_view(m) =~= seq![
        capability_view(markets),
        capability_view(trading),
        capability_view(portfolio),
    ]);
    m
}


// ─── Price normalisation ────────────────────────────────────

/// A Polymarket price as a protocol price with four decimals; an error for a
/// text that is no price, or for a price outside 0 to 1.
pub fn normalize_price(raw_price: &str) -> (r: Result<String, String>)
    ensures
        match decimal_micros(raw_price@) {
            Some(p) => if 0 <= p <= 1_000_000 {
                r matches Ok(s) && s@ == fixed_text(p, 4)
            } else {
                r matches Err(m) && m@ == "Polymarket price "@ + trim_fraction(fixed_text(p, 6)) + " out of [0,1] range"@
            },
            None => r matches Err(m) && m@ == "Invalid Polymarket price"@,
        },
{
    proof {
        crate::decimal::lemma_decimal_micros_bounded(raw_price@);
        reveal_strlit("Polymarket price ");
        reveal_strlit(" out of [0,1] range");
    }
    match parse_price_micros(raw_price) {
        Some(p) => {
            if 0 <= p && p <= 1_000_000 {
                Ok(format_micros(p as i128, 4))
            } else {
                let mut m = "Polymarket price ".to_string();
                let shown = trim_fraction_exec(format_micros(p as i128, 6));
                m.append(shown.as_str());
                m.append(" out of [0,1] range");
                Err(m)
            }
        },
        None => Err("Invalid Polymarket price".to_string()),
    }
}

/// A protocol probability as a Polymarket price with two decimals; an error
/// for a text that is no price.
pub fn denormalize_price(probability: &str) -> (r: Result<String, String>)
    ensures
        match decimal_micros(probability@) {
            Some(p) => r matches Ok(s) && s@ == fixed_text(p, 2),
            None => r matches Err(m) && m@ == "Invalid UPP probability"@,
        },
{
    proof {
        crate::decimal::lemma_decimal_micros_bounded(probability@);
    }
    match parse_price_micros(probability) {
        Some(p) => Ok(format_micros(p as i128, 2)),
        None => Err("Invalid UPP probability".to_string()),
    }
}


/// Normalising a price that normalisation gave back changes nothing: a
/// price between 0 and 1 written with four decimals reads back as a price
/// between 0 and 1 that is written the same way.
pub proof fn law_normalize_is_stable(p: int)
    requires
        0 <= p <= 1_000_000,
    ensures
        decimal_micros(fixed_text(p, 4)) matches Some(r) && 0 <= r <= 1_000_000 && fixed_text(r, 4) == fixed_text(p, 4),
{
    crate::decimal::lemma_fixed_text_stable(p, 4);
}


// ─── Listing ────────────────────────────────────────────────

/// Gamma's page size for a filter: 20 when unset, at most 100.
pub open spec fn page_limit(f: MarketFilter) -> int {
    let l: int = match f.pagination.limit {
        Some(l) => l as int,
        None => 20,
    };
    if l < 100 { l } else { 100 }
}

/// Gamma's offset for a filter: the cursor read as an `i32`, else 0.
pub open spec fn page_offset(f: MarketFilter) -> int {
    match f.pagination.cursor {
        Some(c) => match i32_text_value(c@) {
            Some(v) => v,
            None => 0,
        },
        None => 0,
    }
}

/// Page size and offset of a Gamma request.
pub fn paging(filter: &MarketFilter) -> (r: (i32, i32))
    ensures
        r.0 == page_limit(*filter),
        r.1 == page_offset(*filter),
{
    let l: i32 = match filter.pagination.limit {
        Some(l) => l,
        None => 20,
    };
    let limit = if l < 100 { l } else { 100 };
    let offset: i32 = match &filter.pagination.cursor {
        Some(c) => match parse_i32(c.as_str()) {
            Some(v) => v,
            None => 0,
        },
        None => 0,
    };
    (limit, offset)
}

/// Status part of a Gamma listing: open markets unless closed or resolved
/// ones are asked for.
pub open spec fn status_query(s: Option<MarketStatus>) -> Seq<char> {
    match s {
        Some(MarketStatus::Closed) => "&closed=true"@,
        Some(MarketStatus::Resolved) => "&closed=true"@,
        Some(MarketStatus::Open) => "&active=true&closed=false"@,
        Some(_) => Seq::empty(),
        None => "&active=true&closed=false"@,
    }
}

/// Sort part of a Gamma listing; by 24-hour volume unless another known
/// order is asked for.
pub open spec fn sort_query(sort: Option<String>) -> Seq<char> {
    match sort {
        Some(s) => if s@ == "liquidity"@ {
            "&order=liquidity&ascending=false"@
        } else if s@ == "created_at"@ || s@ == "newest"@ {
            "&order=startDate&ascending=false"@
        } else if s@ == "end_date"@ || s@ == "closing_soon"@ {
            "&order=endDate&ascending=true"@
        } else {
            "&order=volume24hr&ascending=false"@
        },
        None => "&order=volume24hr&ascending=false"@,
    }
}

/// The Gamma listing URL for a filter.
pub open spec fn markets_url_text(f: MarketFilter) -> Seq<char> {
    "https://gamma-api.polymarket.com/markets?limit="@ + int_text(page_limit(f)) + "&offset="@ + int_text(
        page_offset(f),
    ) + status_query(f.status) + sort_query(f.sort_by)
}

fn status_part(s: &Option<MarketStatus>) -> (r: &'static str)
    ensures
        r@ == status_query(*s),
{
    proof {
        reveal_strlit("&closed=true");
        reveal_strlit("&active=true&closed=false");
        reveal_strlit("");
    }
    match s {
        Some(MarketStatus::Closed) => "&closed=true",
        Some(MarketStatus::Resolved) => "&closed=true",
        Some(MarketStatus::Open) => "&active=true&closed=false",
        Some(_) => "",
        None => "&active=true&closed=false",
    }
}

fn sort_part(sort: &Option<String>) -> (r: &'static str)
    ensures
        r@ == sort_query(*sort),
{
    proof {
        reveal_strlit("liquidity");
        reveal_strlit("created_at");
        reveal_strlit("newest");
        reveal_strlit("end_date");
        reveal_strlit("closing_soon");
        reveal_strlit("&order=liquidity&ascending=false");
        reveal_strlit("&order=startDate&ascending=false");
        reveal_strlit("&order=endDate&ascending=true");
        reveal_strlit("&order=volume24hr&ascending=false");
    }
    match sort {
        Some(s) => {
            let t = s.as_str();
            if str_eq(t, "liquidity") {
                "&order=liquidity&ascending=false"
            } else if str_eq(t, "created_at") || str_eq(t, "newest") {
                "&order=startDate&ascending=false"
            } else if str_eq(t, "end_date") || str_eq(t, "closing_soon") {
                "&order=endDate&ascending=true"
            } else {
                "&order=volume24hr&ascending=false"
            }
        },
        None => "&order=volume24hr&ascending=false",
    }
}

/// The URL that lists Gamma markets for a filter.
pub fn markets_url(filter: &MarketFilter) -> (url: String)
    ensures
        url@ == markets_url_text(*filter),
{
    proof {
        reveal_strlit("https://gamma-api.polymarket.com/markets?limit=");
        reveal_strlit("&offset=");
    }
    let (limit, offset) = paging(filter);
    let mut url = "https://gamma-api.polymarket.com/markets?limit=".to_string();
    let lt = int_string(limit as i64);
    url.append(lt.as_str());
    url.append("&offset=");
    let ot = int_string(offset as i64);
    url.append(ot.as_str());
    url.append(status_part(&filter.status));
    url.append(sort_part(&filter.sort_by));
    assert(url@ =~= markets_url_text(*filter));
    url
}

/// A byte that percent-encoding leaves as it is: an ASCII letter or digit,
/// `-`, `.`, `_` or `~`.
pub open spec fn url_safe_byte(b: u8) -> bool {
    (0x30 <= b <= 0x39) || (0x41 <= b <= 0x5a) || (0x61 <= b <= 0x7a) || b == 0x2d || b == 0x2e || b == 0x5f
        || b == 0x7e
}

/// An upper-case hexadecimal digit for a value below 16.
pub open spec fn hex_upper(d: int) -> char {
    if d < 10 { (0x30 + d) as char } else { (0x41 - 10 + d) as char }
}

/// Percent-encoding of some bytes: safe bytes stay, every other byte `b`
/// becomes `%` and the two upper-case hex digits of `b`.
pub open spec fn percent_encoded(bs: Seq<u8>) -> Seq<char>
    decreases bs.len(),
{
    if bs.len() == 0 {
        Seq::empty()
    } else {
        let b = bs.last();
        percent_encoded(bs.drop_last()) + if url_safe_byte(b) {
            seq![b as char]
        } else {
            seq!['%', hex_upper(b as int / 16), hex_upper(b as int % 16)]
        }
    }
}

/// The percent-encoding of the UTF-8 form of a text.
pub open spec fn url_encoded(s: Seq<char>) -> Seq<char> {
    percent_encoded(encode_utf8(s))
}

/// Calls `urlencoding::encode`, which percent-encodes every byte of the
/// text's UTF-8 form except ASCII letters, digits, `-`, `.`, `_` and `~`,
/// writing the hex digits in upper case.
#[verifier::external_body]
fn encode_query(s: &str) -> (r: String)
    ensures
        r@ == url_encoded(s@),
{
    urlencoding::encode(s).into_owned()
}

/// The Gamma search URL for a query, page size and offset.
pub fn search_url(query: &str, limit: i32, offset: i32) -> (url: String)
    ensures
        url@ == "https://gamma-api.polymarket.com/markets?_q="@ + url_encoded(query@) + "&limit="@ + int_text(
            limit as int,
        ) + "&offset="@ + int_text(offset as int) + "&active=true&closed=false&order=volume24hr&ascending=false"@,
{
    proof {
        reveal_strlit("https://gamma-api.polymarket.com/markets?_q=");
        reveal_strlit("&limit=");
        reveal_strlit("&offset=");
        reveal_strlit("&active=true&closed=false&order=volume24hr&ascending=false");
    }
    let mut url = "https://gamma-api.polymarket.com/markets?_q=".to_string();
    let q = encode_query(query);
    url.append(q.as_str());
    url.append("&limit=");
    let lt = int_string(limit as i64);
    url.append(lt.as_str());
    url.append("&offset=");
    let ot = int_string(offset as i64);
    url.append(ot.as_str());
    url.append("&active=true&closed=false&order=volume24hr&ascending=false");
    url
}

/// The Gamma markets that carry a condition id, in order.
pub open spec fn identified(gms: Seq<GammaMarket>) -> Seq<GammaMarket>
    decreases gms.len(),
{
    if gms.len() == 0 {
        Seq::empty()
    } else {
        identified(gms.drop_last()) + if gms.last().condition_id@.len() > 0 {
            seq![gms.last()]
        } else {
            Seq::empty()
        }
    }
}

/// The Gamma markets that carry a condition id.
pub fn keep_identified(gms: Vec<GammaMarket>) -> (r: Vec<GammaMarket>)
    ensures
        r@ == identified(gms@),
{
    let ghost all = gms@;
    let n = gms.len();
    let mut rest = gms;
    let mut kept: Vec<GammaMarket> = Vec::new();
    let mut i: usize = 0;
    while rest.len() > 0
        invariant
            i <= all.len(),
            all.len() == n,
            rest@ == all.skip(i as int),
            kept@ == identified(all.take(i as int)),
        decreases rest@.len(),
    {
        assert(all.take(i as int + 1).drop_last() =~= all.take(i as int));
        let ghost before = kept@;
        let g = rest.remove(0);
        assert(g == all[i as int]);
        assert(rest@ =~= all.skip(i as int + 1));
        if g.condition_id.unicode_len() > 0 {
            kept.push(g);
            assert(kept@ =~= before.push(all[i as int]));
        } else {
            assert(kept@ =~= before + Seq::<GammaMarket>::empty());
        }
        i = i + 1;
    }
    assert(all.take(all.len() as int) =~= all);
    kept
}

/// A page of Gamma markets: Gamma gives no total; a full page means more
/// may follow, at the next offset.
pub fn markets_page(markets: Vec<Market>, limit: i32, offset: i32) -> (page: MarketPage)
    requires
        i32::MIN <= offset + limit <= i32::MAX,
    ensures
        page.markets@ == markets@,
        page.pagination.has_more == ((markets@.len() as i32) >= limit),
        page.pagination.cursor@ == (if page.pagination.has_more {
            int_text(offset + limit)
        } else {
            Seq::<char>::empty()
        }),
        page.pagination.total == 0,
{
    let has_more = (markets.len() as i32) >= limit;
    let cursor = if has_more { int_string((offset + limit) as i64) } else { String::new() };
    MarketPage { markets, pagination: PaginationResponse { cursor, has_more, total: 0 } }
}


/// A Gamma market's status agrees with the listing filters: it is asked for
/// with `closed=true` exactly when Gamma flags it closed, and an open market
/// is one the default listing (active and not closed) returns.
pub proof fn law_status_agrees_with_listing(gm: GammaMarket)
    ensures
        status_query(Some(gamma_status(gm))) == "&closed=true"@ <==> gm.closed == Some(true),
        gamma_status(gm) == MarketStatus::Open <==> (gm.closed != Some(true) && gm.active != Some(false)
            && gm.accepting_orders != Some(false)),
        gamma_status(gm) == MarketStatus::Open ==> status_query(Some(gamma_status(gm))) == status_query(None),
{
    reveal_strlit("&closed=true");
    reveal_strlit("&active=true&closed=false");
    assert("&closed=true"@.len() != "&active=true&closed=false"@.len());
    assert("&closed=true"@.len() != Seq::<char>::empty().len());
}

} // verus!
