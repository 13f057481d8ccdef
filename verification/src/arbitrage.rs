//! The arbitrage scanner: turns detected cross-provider divergences into
//! alerts, keeps the active ones by market and outcome, and remembers the
//! most recent alerts.
use dashmap::DashMap;
use vstd::prelude::*;
use crate::aggregation::{ArbitrageOpportunity, MergedOrderBook};
use crate::decimal::{decimal_micros, lemma_decimal_micros_bounded, parse_price_micros, MAX_PRICE_MICROS};
use crate::smart_router::trunc_div;
use crate::text::{has_prefix, str_eq, texts};
use crate::types::{new_request_id, now_rfc3339};

verus! {

/// Alerts remembered in the history.
pub const MAX_HISTORY: usize = 1000;

/// Parts per million in one whole.
pub const ONE_PPM: i128 = 1_000_000;

/// An alert raised for one arbitrage opportunity. Prices are micros,
/// shares and scores are parts per million.
#[derive(Debug, Clone)]
pub struct ArbitrageAlert {
    pub alert_id: String,
    pub market_id: String,
    pub outcome_id: String,
    /// Sell here.
    pub bid_provider: String,
    pub bid_price: i64,
    /// Buy here.
    pub ask_provider: String,
    pub ask_price: i64,
    /// Bid minus ask.
    pub spread: i128,
    /// Spread as a percentage of the ask, in millionths of a percent.
    pub spread_pct_micros: i128,
    pub gross_profit_per_contract: i128,
    /// Fees of both sides, per contract.
    pub estimated_fees: i128,
    pub net_profit_per_contract: i128,
    pub max_quantity: i64,
    pub estimated_total_profit: i128,
    /// From 0 to 1 000 000: grows with the spread and the depth.
    pub confidence_ppm: i128,
    pub detected_at: String,
    pub active: bool,
    /// Scans in a row that found this opportunity.
    pub consecutive_detections: u32,
}

impl ArbitrageAlert {
    /// A field-by-field copy.
    pub fn duplicate(&self) -> (r: Self)
        ensures
            r == *self,
    {
        ArbitrageAlert {
            alert_id: self.alert_id.clone(),
            market_id: self.market_id.clone(),
            outcome_id: self.outcome_id.clone(),
            bid_provider: self.bid_provider.clone(),
            bid_price: self.bid_price,
            ask_provider: self.ask_provider.clone(),
            ask_price: self.ask_price,
            spread: self.spread,
            spread_pct_micros: self.spread_pct_micros,
            gross_profit_per_contract: self.gross_profit_per_contract,
            estimated_fees: self.estimated_fees,
            net_profit_per_contract: self.net_profit_per_contract,
            max_quantity: self.max_quantity,
            estimated_total_profit: self.estimated_total_profit,
            confidence_ppm: self.confidence_ppm,
            detected_at: self.detected_at.clone(),
            active: self.active,
            consecutive_detections: self.consecutive_detections,
        }
    }
}

// ─── The active-alert map ───────────────────────────────────

#[verifier::external_type_specification]
#[verifier::external_body]
#[verifier::reject_recursive_types(K)]
#[verifier::reject_recursive_types(V)]
#[verifier::reject_recursive_types(S)]
pub struct ExDashMap<K, V, S>(dashmap::DashMap<K, V, S>);

/// What a map of active alerts holds: alerts by the text of their key.
pub uninterp spec fn alert_book(m: DashMap<String, ArbitrageAlert>) -> Map<Seq<char>, ArbitrageAlert>;

/// Active alerts by the text of their key.
pub type AlertMap = DashMap<String, ArbitrageAlert>;

/// `DashMap::new`: an empty map.
#[verifier::external_body]
fn new_alert_book() -> (m: AlertMap)
    ensures
        alert_book(m).dom() == Set::<Seq<char>>::empty(),
{
    DashMap::new()
}

/// `DashMap::insert`: the key now maps to the alert, whatever it held.
#[verifier::external_body]
fn put_alert(m: &mut DashMap<String, ArbitrageAlert>, key: String, alert: ArbitrageAlert)
    ensures
        alert_book(*final(m)) == alert_book(*old(m)).insert(key@, alert),
{
    m.insert(key, alert);
}

/// `DashMap::remove`: the key maps to nothing any more.
#[verifier::external_body]
fn drop_alert(m: &mut DashMap<String, ArbitrageAlert>, key: &str)
    ensures
        alert_book(*final(m)) == alert_book(*old(m)).remove(key@),
{
    m.remove(key);
}

/// `DashMap::get`, reading the detection count of the alert under a key.
#[verifier::external_body]
fn detections_under(m: &DashMap<String, ArbitrageAlert>, key: &str) -> (r: Option<u32>)
    ensures
        r == (if alert_book(*m).dom().contains(key@) {
            Some(alert_book(*m)[key@].consecutive_detections)
        } else {
            None
        }),
{
    m.get(key).map(|a| a.consecutive_detections)
}

/// `DashMap::len`: how many keys the map holds.
#[verifier::external_body]
fn alert_count(m: &DashMap<String, ArbitrageAlert>) -> (r: usize)
    ensures
        r == alert_book(*m).dom().len(),
{
    m.len()
}

/// `DashMap::iter`, copying out every entry in the map's own order, which
/// is left open: each key once, with its alert.
#[verifier::external_body]
fn alert_entries(m: &AlertMap) -> (r: Vec<(String, ArbitrageAlert)>)
    ensures
        r@.len() == alert_book(*m).dom().len(),
        forall|i: int|
            0 <= i < r@.len() ==> alert_book(*m).dom().contains((#[trigger] r@[i]).0@) && alert_book(*m)[r@[i].0@]
                == r@[i].1,
        forall|i: int, j: int| 0 <= i < j < r@.len() ==> (#[trigger] r@[i]).0@ != (#[trigger] r@[j]).0@,
        forall|k: Seq<char>| #[trigger] alert_book(*m).dom().contains(k) ==> exists|i: int| 0 <= i < r@.len() && r@[i].0@ == k,
{
    m.iter().map(|e| (e.key().clone(), e.value().clone())).collect()
}


// ─── Scanner ────────────────────────────────────────────────

/// Key of an alert: market and outcome joined by a colon.
pub open spec fn alert_key(market: Seq<char>, outcome: Seq<char>) -> Seq<char> {
    market + seq![':'] + outcome
}

/// A price text in micros; zero when it does not parse.
pub open spec fn price_or_zero(p: Seq<char>) -> int {
    match decimal_micros(p) {
        Some(v) => v,
        None => 0,
    }
}

/// Spread as a percentage of the ask, in millionths of a percent; zero
/// when the ask is not positive.
pub open spec fn spread_pct(bid: int, ask: int) -> int {
    if ask > 0 { trunc_div((bid - ask) * 100_000_000, ask) } else { 0 }
}

/// The spread reaches the minimum percentage (millionths of a percent).
pub open spec fn spread_passes(bid: int, ask: int, min_pct_micros: int) -> bool {
    if ask > 0 { (bid - ask) * 100_000_000 >= min_pct_micros * ask } else { 0 >= min_pct_micros }
}

/// The spread beats the fees of both sides at `fee_ppm` each.
pub open spec fn beats_fees(bid: int, ask: int, fee_ppm: int) -> bool {
    (bid - ask) * 1_000_000 > (ask + bid) * fee_ppm
}

/// Fees of both sides per contract, rounded toward zero.
pub open spec fn fees_of(bid: int, ask: int, fee_ppm: int) -> int {
    trunc_div((ask + bid) * fee_ppm, 1_000_000)
}

/// The smaller of two integers.
pub open spec fn min_of(a: int, b: int) -> int {
    if a < b { a } else { b }
}

/// Confidence in parts per million: six tenths from the spread (full at a
/// 10% spread) and four tenths from the depth (full at 100 contracts).
pub open spec fn confidence_of(pct_micros: int, max_quantity: int) -> int {
    let s = min_of(trunc_div(pct_micros, 10), 1_000_000);
    let l = min_of(max_quantity * 10_000, 1_000_000);
    min_of(trunc_div(6 * s + 4 * l, 10), 1_000_000)
}

/// The alert raised for an opportunity, apart from its identifier and time.
pub open spec fn is_alert_for(
    a: ArbitrageAlert,
    market: Seq<char>,
    outcome: Seq<char>,
    arb: ArbitrageOpportunity,
    max_quantity: int,
    fee_ppm: int,
    consecutive: int,
) -> bool {
    let bid = price_or_zero(arb.bid_price@);
    let ask = price_or_zero(arb.ask_price@);
    let pct = spread_pct(bid, ask);
    let fees = fees_of(bid, ask, fee_ppm);
    &&& has_prefix(a.alert_id@, "arb-"@)
    &&& a.alert_id@.len() == 40
    &&& a.market_id@ == market
    &&& a.outcome_id@ == outcome
    &&& a.bid_provider@ == arb.bid_provider@
    &&& a.bid_price == bid
    &&& a.ask_provider@ == arb.ask_provider@
    &&& a.ask_price == ask
    &&& a.spread == bid - ask
    &&& a.spread_pct_micros == pct
    &&& a.gross_profit_per_contract == bid - ask
    &&& a.estimated_fees == fees
    &&& a.net_profit_per_contract == bid - ask - fees
    &&& a.max_quantity == max_quantity
    &&& a.estimated_total_profit == saturated_i128((bid - ask - fees) * max_quantity)
    &&& a.confidence_ppm == confidence_of(pct, max_quantity)
    &&& a.active
    &&& a.consecutive_detections == consecutive
}

/// The history after remembering one more alert: the oldest is forgotten
/// once `MAX_HISTORY` are held.
pub open spec fn remembered(h: Seq<ArbitrageAlert>, a: ArbitrageAlert) -> Seq<ArbitrageAlert> {
    if h.len() >= MAX_HISTORY { h.drop_first().push(a) } else { h.push(a) }
}

/// An integer held to the range of `i128`.
pub open spec fn saturated_i128(x: int) -> int {
    if x > i128::MAX { i128::MAX as int } else if x < i128::MIN { i128::MIN as int } else { x }
}

/// The most recent `limit` alerts, newest first.
pub open spec fn recent(h: Seq<ArbitrageAlert>, limit: int) -> Seq<ArbitrageAlert> {
    let n = if limit < h.len() { limit } else { h.len() as int };
    Seq::new(n as nat, |i: int| h[h.len() - 1 - i])
}

/// `a` is the alert under some key of the map.
pub open spec fn is_active_alert(book: Map<Seq<char>, ArbitrageAlert>, a: ArbitrageAlert) -> bool {
    exists|k: Seq<char>| #[trigger] book.dom().contains(k) && book[k] == a
}

/// Entries listing exactly the alerts of a map, each key once.
pub open spec fn lists_alerts(es: Seq<(String, ArbitrageAlert)>, book: Map<Seq<char>, ArbitrageAlert>) -> bool {
    &&& es.len() == book.dom().len()
    &&& forall|i: int| 0 <= i < es.len() ==> book.dom().contains((#[trigger] es[i]).0@) && book[es[i].0@] == es[i].1
    &&& forall|i: int, j: int| 0 <= i < j < es.len() ==> (#[trigger] es[i]).0@ != (#[trigger] es[j]).0@
    &&& forall|k: Seq<char>| #[trigger] book.dom().contains(k) ==> exists|i: int| 0 <= i < es.len() && es[i].0@ == k
}

/// Counters and settings of a scanner.
pub struct ArbitrageScanner {
    active_alerts: AlertMap,
    history: Vec<ArbitrageAlert>,
    scans_total: u64,
    opportunities_detected: u64,
    opportunities_active: u64,
    min_spread_pct_micros: i64,
    estimated_fee_ppm: u64,
}

/// What judging an opportunity does: unless its spread reaches the
/// minimum and beats the fees of both sides it is dropped and nothing
/// changes; otherwise the alert raised replaces the active alert of its key
/// (one more consecutive detection), is remembered and counted.
pub open spec fn judged(
    before: ArbitrageScanner,
    after: ArbitrageScanner,
    r: Option<ArbitrageAlert>,
    market_id: Seq<char>,
    outcome_id: Seq<char>,
    arb: ArbitrageOpportunity,
    max_quantity: int,
) -> bool {
    let bid = price_or_zero(arb.bid_price@);
    let ask = price_or_zero(arb.ask_price@);
    let key = alert_key(market_id, outcome_id);
    if spread_passes(bid, ask, before.min_spread() as int) && beats_fees(bid, ask, before.fee() as int) {
        let consecutive = if before.active().dom().contains(key) {
            before.active()[key].consecutive_detections + 1
        } else {
            1
        };
        &&& r is Some
        &&& is_alert_for(r->0, market_id, outcome_id, arb, max_quantity, before.fee() as int, consecutive)
        &&& after.active() == before.active().insert(key, r->0)
        &&& after.remembered_alerts() == remembered(before.remembered_alerts(), r->0)
        &&& after.detected() == before.detected().wrapping_add(1)
        &&& after.active_counted() == after.active().dom().len()
    } else {
        &&& r is None
        &&& after.active() == before.active()
        &&& after.remembered_alerts() == before.remembered_alerts()
        &&& after.detected() == before.detected()
        &&& after.active_counted() == before.active_counted()
    }
}

impl ArbitrageScanner {
    /// Well-formed: at most `MAX_HISTORY` alerts remembered and finitely
    /// many active.
    pub closed spec fn wf(&self) -> bool {
        &&& self.history@.len() <= MAX_HISTORY
        &&& alert_book(self.active_alerts).dom().finite()
    }

    /// Active alerts by key.
    pub closed spec fn active(&self) -> Map<Seq<char>, ArbitrageAlert> {
        alert_book(self.active_alerts)
    }

    /// Remembered alerts, oldest first.
    pub closed spec fn remembered_alerts(&self) -> Seq<ArbitrageAlert> {
        self.history@
    }

    /// Scans run.
    pub closed spec fn scans(&self) -> u64 {
        self.scans_total
    }

    /// Opportunities alerted on.
    pub closed spec fn detected(&self) -> u64 {
        self.opportunities_detected
    }

    /// Active alerts as last counted.
    pub closed spec fn active_counted(&self) -> u64 {
        self.opportunities_active
    }

    /// Minimum spread, in millionths of a percent.
    pub closed spec fn min_spread(&self) -> i64 {
        self.min_spread_pct_micros
    }

    /// Fee per side, in parts per million.
    pub closed spec fn fee(&self) -> u64 {
        self.estimated_fee_ppm
    }

    /// A scanner with no alerts and zero counters.
    pub fn new(min_spread_pct_micros: i64, estimated_fee_ppm: u64) -> (s: Self)
        ensures
            s.wf(),
            s.active().dom() == Set::<Seq<char>>::empty(),
            s.remembered_alerts() == Seq::<ArbitrageAlert>::empty(),
            s.scans() == 0,
            s.detected() == 0,
            s.active_counted() == 0,
            s.min_spread() == min_spread_pct_micros,
            s.fee() == estimated_fee_ppm,
    {
        ArbitrageScanner {
            active_alerts: new_alert_book(),
            history: Vec::new(),
            scans_total: 0,
            opportunities_detected: 0,
            opportunities_active: 0,
            min_spread_pct_micros,
            estimated_fee_ppm,
        }
    }

    /// Count one more scan.
    pub fn record_scan(&mut self)
        requires
            old(self).wf(),
        ensures
            final(self).wf(),
            final(self).scans() == old(self).scans().wrapping_add(1),
            final(self).active() == old(self).active(),
            final(self).remembered_alerts() == old(self).remembered_alerts(),
            final(self).detected() == old(self).detected(),
            final(self).active_counted() == old(self).active_counted(),
            final(self).min_spread() == old(self).min_spread(),
            final(self).fee() == old(self).fee(),
    {
        self.scans_total = self.scans_total.wrapping_add(1);
    }

    /// Scans run so far.
    pub fn scans_total(&self) -> (n: u64)
        ensures
            n == self.scans(),
    {
        self.scans_total
    }

    /// Detection count of the alert for a market and outcome, if active.
    pub fn detections(&self, market_id: &str, outcome_id: &str) -> (r: Option<u32>)
        ensures
            r == (if self.active().dom().contains(alert_key(market_id@, outcome_id@)) {
                Some(self.active()[alert_key(market_id@, outcome_id@)].consecutive_detections)
            } else {
                None
            }),
    {
        let key = key_of(market_id, outcome_id);
        detections_under(&self.active_alerts, key.as_str())
    }

    /// Judge one detected opportunity. It is dropped unless its spread
    /// reaches the minimum and beats the fees of both sides; otherwise an
    /// alert is raised, replaces the active alert of its market and
    /// outcome (one more consecutive detection), and is remembered.
    pub fn process_opportunity(
        &mut self,
        market_id: &str,
        outcome_id: &str,
        arb: &ArbitrageOpportunity,
        max_quantity: i64,
    ) -> (r: Option<ArbitrageAlert>)
        requires
            old(self).wf(),
            old(self).active().dom().contains(alert_key(market_id@, outcome_id@)) ==> old(self).active()[alert_key(
                market_id@,
                outcome_id@,
            )].consecutive_detections < u32::MAX,
        ensures
            judged(*old(self), *final(self), r, market_id@, outcome_id@, *arb, max_quantity as int),
            final(self).wf(),
            final(self).scans() == old(self).scans(),
            final(self).min_spread() == old(self).min_spread(),
            final(self).fee() == old(self).fee(),
    {
        proof {
            lemma_decimal_micros_bounded(arb.bid_price@);
            lemma_decimal_micros_bounded(arb.ask_price@);
        }
        let bid: i64 = match parse_price_micros(arb.bid_price.as_str()) {
            Some(v) => v,
            None => 0,
        };
        let ask: i64 = match parse_price_micros(arb.ask_price.as_str()) {
            Some(v) => v,
            None => 0,
        };
        let b: i128 = bid as i128;
        let a: i128 = ask as i128;
        let spread: i128 = b - a;
        let min: i128 = self.min_spread_pct_micros as i128;
        let fee: i128 = self.estimated_fee_ppm as i128;
        proof {
            assert(-9_223_372_036_854_775_808 * MAX_PRICE_MICROS <= min * a <= 9_223_372_036_854_775_808 * MAX_PRICE_MICROS)
                by (nonlinear_arith)
                requires
                    -9_223_372_036_854_775_808 <= min <= 9_223_372_036_854_775_808,
                    -MAX_PRICE_MICROS <= a <= MAX_PRICE_MICROS,
            ;
            assert(-2 * MAX_PRICE_MICROS * 0x1_0000_0000_0000_0000 <= (a + b) * fee <= 2 * MAX_PRICE_MICROS * 0x1_0000_0000_0000_0000)
                by (nonlinear_arith)
                requires
                    0 <= fee < 0x1_0000_0000_0000_0000,
                    -2 * MAX_PRICE_MICROS <= a + b <= 2 * MAX_PRICE_MICROS,
            ;
        }
        let passes = if a > 0 { spread * 100_000_000 >= min * a } else { 0 >= min };
        if !passes {
            return None;
        }
        if !(spread * 1_000_000 > (a + b) * fee) {
            return None;
        }
        let pct: i128 = if a > 0 { div_toward_zero(spread * 100_000_000, a) } else { 0 };
        let fees: i128 = div_toward_zero((a + b) * fee, 1_000_000);
        proof {
            lemma_trunc_div_bound((a + b) * fee, 1_000_000, 2 * MAX_PRICE_MICROS * 0x1_0000_0000_0000_0000);
        }
        let net: i128 = spread - fees;
        let q: i128 = max_quantity as i128;
        let total: i128 = match net.checked_mul(q) {
            Some(t) => t,
            None => {
                proof {
                    assert(((net > 0 && q > 0) || (net < 0 && q < 0) ==> net * q > 0) && ((net > 0 && q < 0) || (
                    net < 0 && q > 0) ==> net * q < 0) && (net == 0 || q == 0 ==> net * q == 0)) by (nonlinear_arith);
                }
                if (net > 0) == (q > 0) { i128::MAX } else { i128::MIN }
            },
        };
        let confidence = confidence_score(pct, max_quantity);
        let key = key_of(market_id, outcome_id);
        let consecutive: u32 = match detections_under(&self.active_alerts, key.as_str()) {
            Some(c) => c + 1,
            None => 1,
        };
        proof {
            reveal_strlit("arb-");
        }
        let id_tail = new_request_id();
        let alert_id = String::from_str("arb-").concat(id_tail.as_str());
        assert(has_prefix(alert_id@, "arb-"@)) by {
            assert(alert_id@.subrange(0, 4) =~= "arb-"@);
        }
        let alert = ArbitrageAlert {
            alert_id,
            market_id: market_id.to_string(),
            outcome_id: outcome_id.to_string(),
            bid_provider: arb.bid_provider.clone(),
            bid_price: bid,
            ask_provider: arb.ask_provider.clone(),
            ask_price: ask,
            spread,
            spread_pct_micros: pct,
            gross_profit_per_contract: spread,
            estimated_fees: fees,
            net_profit_per_contract: net,
            max_quantity,
            estimated_total_profit: total,
            confidence_ppm: confidence,
            detected_at: now_rfc3339(),
            active: true,
            consecutive_detections: consecutive,
        };
        put_alert(&mut self.active_alerts, key, alert.duplicate());
        self.opportunities_detected = self.opportunities_detected.wrapping_add(1);
        self.opportunities_active = alert_count(&self.active_alerts) as u64;
        if self.history.len() >= MAX_HISTORY {
            self.history.remove(0);
        }
        self.history.push(alert.duplicate());
        Some(alert)
    }

    /// Drop every active alert whose key was not among those just scanned.
    pub fn expire_stale(&mut self, scanned_keys: &Vec<String>)
        requires
            old(self).wf(),
        ensures
            final(self).wf(),
            final(self).active() == old(self).active().restrict(
                Set::new(|k: Seq<char>| exists|i: int| 0 <= i < scanned_keys@.len() && scanned_keys@[i]@ == k),
            ),
            final(self).active_counted() == final(self).active().dom().len(),
            final(self).remembered_alerts() == old(self).remembered_alerts(),
            final(self).scans() == old(self).scans(),
            final(self).detected() == old(self).detected(),
            final(self).min_spread() == old(self).min_spread(),
            final(self).fee() == old(self).fee(),
    {
        let ghost start = alert_book(self.active_alerts);
        let ghost h = self.history@;
        let ghost sc = self.scans_total;
        let ghost det = self.opportunities_detected;
        let ghost ms = self.min_spread_pct_micros;
        let ghost kept = Set::new(|k: Seq<char>| exists|i: int| 0 <= i < scanned_keys@.len() && scanned_keys@[i]@ == k);
        let entries = alert_entries(&self.active_alerts);
        let mut i: usize = 0;
        while i < entries.len()
            invariant
                start.dom().finite(),
                kept == Set::new(|k: Seq<char>| exists|i: int| 0 <= i < scanned_keys@.len() && scanned_keys@[i]@ == k),
                lists_alerts(entries@, start),
                i <= entries@.len(),
                alert_book(self.active_alerts).dom().finite(),
                forall|k: Seq<char>|
                    #[trigger] alert_book(self.active_alerts).dom().contains(k) <==> start.dom().contains(k) && (kept.contains(k)
                        || forall|j: int| 0 <= j < i ==> entries@[j].0@ != k),
                forall|k: Seq<char>|
                    #[trigger] alert_book(self.active_alerts).dom().contains(k) ==> alert_book(self.active_alerts)[k]
                        == start[k],
                self.history@.len() <= MAX_HISTORY,
                self.history@ == h,
                self.scans_total == sc,
                self.opportunities_detected == det,
                self.min_spread_pct_micros == ms,
                self.estimated_fee_ppm == old(self).estimated_fee_ppm,
            decreases entries@.len() - i,
        {
            let key = &entries[i].0;
            let mut j: usize = 0;
            let mut seen = false;
            while j < scanned_keys.len() && !seen
                invariant
                    j <= scanned_keys@.len(),
                    forall|m: int| 0 <= m < j ==> (#[trigger] scanned_keys@[m])@ != key@,
                    seen ==> j < scanned_keys@.len() && scanned_keys@[j as int]@ == key@,
                decreases scanned_keys@.len() - j, (if seen { 0int } else { 1int }),
            {
                if str_eq(scanned_keys[j].as_str(), key.as_str()) {
                    seen = true;
                } else {
                    j = j + 1;
                }
            }
            if !seen {
                assert(forall|m: int| 0 <= m < scanned_keys@.len() ==> (#[trigger] scanned_keys@[m])@ != key@);
                assert(!kept.contains(key@));
                drop_alert(&mut self.active_alerts, key.as_str());
            } else {
                assert(scanned_keys@[j as int]@ == key@);
                assert(kept.contains(key@));
            }
            i = i + 1;
        }
        self.opportunities_active = alert_count(&self.active_alerts) as u64;
        proof {
            assert(alert_book(self.active_alerts) =~= start.restrict(kept));
        }
    }

    /// Every active alert, in the map's own order.
    pub fn get_active_alerts(&self) -> (r: Vec<ArbitrageAlert>)
        requires
            self.wf(),
        ensures
            r@.len() == self.active().dom().len(),
            forall|i: int| 0 <= i < r@.len() ==> is_active_alert(self.active(), #[trigger] r@[i]),
            forall|k: Seq<char>|
                #[trigger] self.active().dom().contains(k) ==> exists|i: int| 0 <= i < r@.len() && r@[i] == self.active()[k],
    {
        let entries = alert_entries(&self.active_alerts);
        let mut out: Vec<ArbitrageAlert> = Vec::new();
        let mut i: usize = 0;
        while i < entries.len()
            invariant
                lists_alerts(entries@, self.active()),
                i <= entries@.len(),
                out@.len() == i,
                forall|m: int| 0 <= m < i ==> out@[m] == (#[trigger] entries@[m]).1,
            decreases entries@.len() - i,
        {
            out.push(entries[i].1.duplicate());
            i = i + 1;
        }
        proof {
            assert forall|m: int| 0 <= m < out@.len() implies is_active_alert(self.active(), #[trigger] out@[m]) by {
                let k = entries@[m].0@;
                assert(out@[m] == entries@[m].1);
                assert(self.active().dom().contains(k) && self.active()[k] == out@[m]);
            }
            assert forall|k: Seq<char>| #[trigger] self.active().dom().contains(k) implies exists|m: int|
                0 <= m < out@.len() && out@[m] == self.active()[k] by {
                let m = choose|m: int| 0 <= m < entries@.len() && entries@[m].0@ == k;
                assert(out@[m] == entries@[m].1);
            }
        }
        out
    }

    /// The `limit` most recent alerts, newest first.
    pub fn get_history(&self, limit: usize) -> (r: Vec<ArbitrageAlert>)
        ensures
            r@ == recent(self.remembered_alerts(), limit as int),
    {
        let n = self.history.len();
        let take = if limit < n { limit } else { n };
        let mut out: Vec<ArbitrageAlert> = Vec::new();
        let mut i: usize = 0;
        while i < take
            invariant
                n == self.history@.len(),
                take <= n,
                take == (if limit < n { limit } else { n }),
                i <= take,
                out@.len() == i,
                forall|m: int| 0 <= m < i ==> out@[m] == self.history@[n - 1 - m],
            decreases take - i,
        {
            out.push(self.history[n - 1 - i].duplicate());
            i = i + 1;
        }
        assert(out@ =~= recent(self.history@, limit as int));
        out
    }

    /// A summary of the scanner: counters, the totals over the active alerts
    /// (in the map's own order, each sum stopping at the `i128` limits),
    /// and an active alert with the largest net profit.
    pub fn get_summary(&self) -> (sm: ArbitrageSummary)
        requires
            self.wf(),
        ensures
            sm.active_opportunities == self.active().dom().len(),
            sm.total_scans == self.scans(),
            sm.total_detected == self.detected(),
            sm.min_spread_threshold_pct_micros == self.min_spread(),
            sm.estimated_fee_ppm == self.fee(),
            exists|es: Seq<(String, ArbitrageAlert)>| {
                &&& lists_alerts(es, self.active())
                &&& sm.total_estimated_profit == capped_sum(es, true)
                &&& sm.average_spread_pct_micros == (if es.len() == 0 { 0 } else { trunc_div(capped_sum(es, false), es.len() as int) })
            },
            sm.best_opportunity is None <==> self.active().dom().len() == 0,
            sm.best_opportunity matches Some(b) ==> {
                &&& is_active_alert(self.active(), b)
                &&& forall|k: Seq<char>|
                    #[trigger] self.active().dom().contains(k) ==> self.active()[k].net_profit_per_contract
                        <= b.net_profit_per_contract
            },
    {
        let entries = alert_entries(&self.active_alerts);
        let n = entries.len();
        let mut total: i128 = 0;
        let mut spread_sum: i128 = 0;
        let mut best: Option<usize> = None;
        let mut i: usize = 0;
        while i < n
            invariant
                n == entries@.len(),
                lists_alerts(entries@, self.active()),
                i <= n,
                total == capped_sum(entries@.take(i as int), true),
                spread_sum == capped_sum(entries@.take(i as int), false),
                best is None <==> i == 0,
                best matches Some(b) ==> b < i && forall|m: int|
                    0 <= m < i ==> (#[trigger] entries@[m]).1.net_profit_per_contract <= entries@[b as int].1.net_profit_per_contract,
            decreases n - i,
        {
            let e = &entries[i].1;
            proof {
                let t = entries@.take(i as int + 1);
                assert(t.drop_last() =~= entries@.take(i as int));
                assert(t.last() == entries@[i as int]);
            }
            total = capped_add(total, e.estimated_total_profit);
            spread_sum = capped_add(spread_sum, e.spread_pct_micros);
            best = match best {
                Some(b) => if e.net_profit_per_contract >= entries[b].1.net_profit_per_contract {
                    Some(i)
                } else {
                    Some(b)
                },
                None => Some(i),
            };
            i = i + 1;
        }
        assert(entries@.take(n as int) =~= entries@);
        let average: i128 = if n == 0 {
            0
        } else {
            proof {
                assert(spread_sum > i128::MIN);
            }
            div_toward_zero(spread_sum, n as i128)
        };
        let best_alert = match best {
            Some(b) => {
                proof {
                    assert forall|k: Seq<char>| #[trigger] self.active().dom().contains(k) implies self.active()[k].net_profit_per_contract
                        <= entries@[b as int].1.net_profit_per_contract by {
                        let m = choose|m: int| 0 <= m < entries@.len() && entries@[m].0@ == k;
                        assert(entries@[m].1.net_profit_per_contract <= entries@[b as int].1.net_profit_per_contract);
                    }
                    assert(self.active().dom().contains(entries@[b as int].0@));
                }
                Some(entries[b].1.duplicate())
            },
            None => None,
        };
        proof {
            if n > 0 {
                assert(self.active().dom().len() > 0);
            } else {
                assert(self.active().dom().len() == 0);
            }
        }
        ArbitrageSummary {
            active_opportunities: n,
            total_scans: self.scans_total,
            total_detected: self.opportunities_detected,
            total_estimated_profit: total,
            average_spread_pct_micros: average,
            best_opportunity: best_alert,
            min_spread_threshold_pct_micros: self.min_spread_pct_micros,
            estimated_fee_ppm: self.estimated_fee_ppm,
        }
    }
}

/// Summary of a scanner.
#[derive(Debug, Clone)]
pub struct ArbitrageSummary {
    pub active_opportunities: usize,
    pub total_scans: u64,
    pub total_detected: u64,
    /// Sum of the active alerts' estimated total profits.
    pub total_estimated_profit: i128,
    /// Mean spread of the active alerts, in millionths of a percent.
    pub average_spread_pct_micros: i128,
    pub best_opportunity: Option<ArbitrageAlert>,
    pub min_spread_threshold_pct_micros: i64,
    pub estimated_fee_ppm: u64,
}

/// `a + b`, stopped at the `i128` limits.
pub open spec fn capped(a: int, b: int) -> int {
    if a + b > i128::MAX {
        i128::MAX as int
    } else if a + b < i128::MIN + 1 {
        i128::MIN + 1
    } else {
        a + b
    }
}

/// Running capped sum of the total profits (`profits`) or of the spreads.
pub open spec fn capped_sum(es: Seq<(String, ArbitrageAlert)>, profits: bool) -> int
    decreases es.len(),
{
    if es.len() == 0 {
        0
    } else {
        let a = es.last().1;
        capped(capped_sum(es.drop_last(), profits), if profits { a.estimated_total_profit as int } else { a.spread_pct_micros as int })
    }
}

fn capped_add(a: i128, b: i128) -> (r: i128)
    requires
        a > i128::MIN,
    ensures
        r == capped(a as int, b as int),
        r > i128::MIN,
{
    if b > 0 && a > i128::MAX - b {
        i128::MAX
    } else if b < 0 && a < i128::MIN + 1 - b {
        i128::MIN + 1
    } else {
        a + b
    }
}

/// Key of a market and outcome.
fn key_of(market_id: &str, outcome_id: &str) -> (k: String)
    ensures
        k@ == alert_key(market_id@, outcome_id@),
{
    proof { reveal_strlit(":"); }
    let mut k = market_id.to_string();
    k.append(":");
    k.append(outcome_id);
    k
}

fn div_toward_zero(a: i128, b: i128) -> (q: i128)
    requires
        b > 0,
        a > i128::MIN,
    ensures
        q == trunc_div(a as int, b as int),
{
    if a >= 0 {
        a / b
    } else {
        -((-a) / b)
    }
}

proof fn lemma_trunc_div_bound(a: int, b: int, m: int)
    requires
        b > 0,
        -(m * b) <= a <= m * b,
        m >= 0,
    ensures
        -m <= trunc_div(a, b) <= m,
{
    if a >= 0 {
        assert(a / b <= m) by (nonlinear_arith)
            requires
                b > 0,
                0 <= a <= m * b,
        ;
        assert(a / b >= 0) by (nonlinear_arith)
            requires
                b > 0,
                0 <= a,
        ;
    } else {
        assert((-a) / b <= m) by (nonlinear_arith)
            requires
                b > 0,
                0 <= -a <= m * b,
        ;
        assert((-a) / b >= 0) by (nonlinear_arith)
            requires
                b > 0,
                0 <= -a,
        ;
    }
}

/// Confidence score of a spread and a depth.
fn confidence_score(pct_micros: i128, max_quantity: i64) -> (c: i128)
    requires
        -300_000_000_000_000_000_000_000_000 <= pct_micros <= 300_000_000_000_000_000_000_000_000,
    ensures
        c == confidence_of(pct_micros as int, max_quantity as int),
{
    let s0 = div_toward_zero(pct_micros, 10);
    let s: i128 = if s0 < 1_000_000 { s0 } else { 1_000_000 };
    let l0: i128 = (max_quantity as i128) * 10_000;
    let l: i128 = if l0 < 1_000_000 { l0 } else { 1_000_000 };
    let c0 = div_toward_zero(6 * s + 4 * l, 10);
    if c0 < 1_000_000 { c0 } else { 1_000_000 }
}


// ─── Laws ───────────────────────────────────────────────────

/// An alert is only raised for a spread that beats the fees, so with prices
/// that are not negative its net profit per contract is positive.
pub proof fn law_alerts_are_profitable(bid: int, ask: int, fee_ppm: int)
    requires
        beats_fees(bid, ask, fee_ppm),
        bid >= 0,
        ask >= 0,
        fee_ppm >= 0,
    ensures
        bid - ask - fees_of(bid, ask, fee_ppm) > 0,
{
    let x = (ask + bid) * fee_ppm;
    assert(x >= 0) by (nonlinear_arith)
        requires
            ask + bid >= 0,
            fee_ppm >= 0,
            x == (ask + bid) * fee_ppm,
    ;
    assert(x / 1_000_000 * 1_000_000 <= x) by (nonlinear_arith)
        requires
            x >= 0,
    ;
}

/// Remembering an alert keeps at most `MAX_HISTORY` alerts, the new one last.
pub proof fn law_history_bounded(h: Seq<ArbitrageAlert>, a: ArbitrageAlert)
    requires
        h.len() <= MAX_HISTORY,
    ensures
        remembered(h, a).len() <= MAX_HISTORY,
        remembered(h, a).last() == a,
        h.len() < MAX_HISTORY ==> remembered(h, a).len() == h.len() + 1,
{
}

/// The newest remembered alert is the first one the history returns.
pub proof fn law_history_newest_first(h: Seq<ArbitrageAlert>, limit: int)
    requires
        h.len() > 0,
        limit > 0,
    ensures
        recent(h, limit)[0] == h.last(),
{
}


// ─── Scanning ───────────────────────────────────────────────

/// Quantity an opportunity can be taken for: the smaller of the best merged
/// bid and ask totals, zero for a missing side.
pub open spec fn executable_quantity(book: MergedOrderBook) -> int {
    let b: int = if book.bids@.len() > 0 { book.bids@[0].total_quantity as int } else { 0 };
    let a: int = if book.asks@.len() > 0 { book.asks@[0].total_quantity as int } else { 0 };
    if b < a { b } else { a }
}

/// The market id a canonical id is scanned under.
pub open spec fn scanned_market(canonical_id: Seq<char>) -> Seq<char> {
    "upp:"@ + canonical_id
}

impl ArbitrageScanner {
    /// Scan one market's merged book for its `yes` outcome: an opportunity
    /// found in it is judged with the quantity the best levels allow. The
    /// key the market is scanned under is returned with the alert. An
    /// opportunity whose key has already been detected `u32::MAX` times in
    /// a row is left alone.
    pub fn scan_merged_book(&mut self, canonical_id: &str, book: &MergedOrderBook) -> (r: (String, Option<ArbitrageAlert>))
        requires
            old(self).wf(),
        ensures
            final(self).wf(),
            final(self).scans() == old(self).scans(),
            final(self).min_spread() == old(self).min_spread(),
            final(self).fee() == old(self).fee(),
            r.0@ == alert_key(scanned_market(canonical_id@), "yes"@),
            ({
                let key = alert_key(scanned_market(canonical_id@), "yes"@);
                let saturated = old(self).active().dom().contains(key) && old(self).active()[key].consecutive_detections
                    == u32::MAX;
                match book.arbitrage {
                    Some(arb) if !saturated => judged(
                        *old(self),
                        *final(self),
                        r.1,
                        scanned_market(canonical_id@),
                        "yes"@,
                        arb,
                        executable_quantity(*book),
                    ),
                    _ => {
                        &&& r.1 is None
                        &&& final(self).active() == old(self).active()
                        &&& final(self).remembered_alerts() == old(self).remembered_alerts()
                        &&& final(self).detected() == old(self).detected()
                        &&& final(self).active_counted() == old(self).active_counted()
                    },
                }
            }),
    {
        proof {
            reveal_strlit("upp:");
            reveal_strlit("yes");
        }
        let mut market_id = "upp:".to_string();
        market_id.append(canonical_id);
        let key = key_of(market_id.as_str(), "yes");
        match &book.arbitrage {
            None => (key, None),
            Some(arb) => {
                if let Some(n) = self.detections(market_id.as_str(), "yes") {
                    if n == u32::MAX {
                        return (key, None);
                    }
                }
                let b: i64 = if book.bids.len() > 0 { book.bids[0].total_quantity } else { 0 };
                let a: i64 = if book.asks.len() > 0 { book.asks[0].total_quantity } else { 0 };
                let max_quantity = if b < a { b } else { a };
                let alert = self.process_opportunity(market_id.as_str(), "yes", arb, max_quantity);
                (key, alert)
            },
        }
    }
}


// ─── Markets listed by several providers ────────────────────

/// Every id listed, provider by provider, in listing order.
pub open spec fn all_listed(lists: Seq<(String, Vec<String>)>) -> Seq<Seq<char>>
    decreases lists.len(),
{
    if lists.len() == 0 {
        Seq::empty()
    } else {
        all_listed(lists.drop_last()) + texts(lists.last().1@)
    }
}

/// Distinct texts in order of first appearance.
pub open spec fn first_seen(ids: Seq<Seq<char>>) -> Seq<Seq<char>>
    decreases ids.len(),
{
    if ids.len() == 0 {
        Seq::empty()
    } else {
        let d = first_seen(ids.drop_last());
        if d.contains(ids.last()) { d } else { d.push(ids.last()) }
    }
}

/// The providers, in order, whose listing holds `id`.
pub open spec fn listers(lists: Seq<(String, Vec<String>)>, id: Seq<char>) -> Seq<Seq<char>>
    decreases lists.len(),
{
    if lists.len() == 0 {
        Seq::empty()
    } else {
        listers(lists.drop_last(), id) + if texts(lists.last().1@).contains(id) {
            seq![lists.last().0@]
        } else {
            Seq::empty()
        }
    }
}

/// The ids, in order, that at least two providers list, each with those
/// providers.
pub open spec fn shared_groups(lists: Seq<(String, Vec<String>)>, ids: Seq<Seq<char>>) -> Seq<(Seq<char>, Seq<Seq<char>>)>
    decreases ids.len(),
{
    if ids.len() == 0 {
        Seq::empty()
    } else {
        let id = ids.last();
        shared_groups(lists, ids.drop_last()) + if listers(lists, id).len() >= 2 {
            seq![(id, listers(lists, id))]
        } else {
            Seq::empty()
        }
    }
}

fn holds_text(v: &Vec<String>, t: &str) -> (r: bool)
    ensures
        r == texts(v@).contains(t@),
{
    let mut i: usize = 0;
    while i < v.len()
        invariant
            i <= v@.len(),
            forall|j: int| 0 <= j < i ==> v@[j]@ != t@,
        decreases v@.len() - i,
    {
        if str_eq(v[i].as_str(), t) {
            assert(texts(v@)[i as int] == t@);
            return true;
        }
        i = i + 1;
    }
    assert(!texts(v@).contains(t@)) by {
        if texts(v@).contains(t@) {
            let w = choose|w: int| 0 <= w < texts(v@).len() && texts(v@)[w] == t@;
            assert(v@[w]@ == t@);
        }
    }
    false
}

fn distinct_ids(lists: &Vec<(String, Vec<String>)>) -> (ids: Vec<String>)
    ensures
        texts(ids@) == first_seen(all_listed(lists@)),
{
    let mut ids: Vec<String> = Vec::new();
    let mut a: usize = 0;
    while a < lists.len()
        invariant
            a <= lists@.len(),
            texts(ids@) == first_seen(all_listed(lists@.take(a as int))),
        decreases lists@.len() - a,
    {
        let list = &lists[a].1;
        let ghost head = all_listed(lists@.take(a as int));
        let mut j: usize = 0;
        while j < list.len()
            invariant
                a < lists@.len(),
                *list == lists@[a as int].1,
                j <= list@.len(),
                head == all_listed(lists@.take(a as int)),
                texts(ids@) == first_seen(head + texts(list@.take(j as int))),
            decreases list@.len() - j,
        {
            let ghost prefix = head + texts(list@.take(j as int));
            let ghost next = head + texts(list@.take(j as int + 1));
            assert(next.drop_last() =~= prefix);
            assert(next.last() == list@[j as int]@);
            if !holds_text(&ids, list[j].as_str()) {
                let ghost before = texts(ids@);
                ids.push(list[j].clone());
                assert(texts(ids@) =~= before.push(list@[j as int]@));
            }
            j = j + 1;
        }
        assert(list@.take(list@.len() as int) =~= list@);
        assert(lists@.take(a as int + 1).drop_last() =~= lists@.take(a as int));
        assert(all_listed(lists@.take(a as int + 1)) =~= head + texts(list@));
        a = a + 1;
    }
    assert(lists@.take(lists@.len() as int) =~= lists@);
    ids
}

fn listers_of(lists: &Vec<(String, Vec<String>)>, id: &str) -> (r: Vec<String>)
    ensures
        texts(r@) == listers(lists@, id@),
{
    let mut r: Vec<String> = Vec::new();
    let mut a: usize = 0;
    while a < lists.len()
        invariant
            a <= lists@.len(),
            texts(r@) == listers(lists@.take(a as int), id@),
        decreases lists@.len() - a,
    {
        assert(lists@.take(a as int + 1).drop_last() =~= lists@.take(a as int));
        let ghost before = texts(r@);
        if holds_text(&lists[a].1, id) {
            r.push(lists[a].0.clone());
            assert(texts(r@) =~= before.push(lists@[a as int].0@));
        } else {
            assert(texts(r@) =~= before + Seq::<Seq<char>>::empty());
        }
        a = a + 1;
    }
    assert(lists@.take(lists@.len() as int) =~= lists@);
    r
}

/// The market ids, in order of first listing, that at least two providers
/// list, each with the providers listing it, in provider order. Each entry
/// of `lists` is a provider and the native ids it lists.
pub fn cross_listed(lists: &Vec<(String, Vec<String>)>) -> (r: Vec<(String, Vec<String>)>)
    ensures
        r@.map_values(|g: (String, Vec<String>)| (g.0@, texts(g.1@))) == shared_groups(
            lists@,
            first_seen(all_listed(lists@)),
        ),
{
    let ids = distinct_ids(lists);
    let ghost all = texts(ids@);
    let mut r: Vec<(String, Vec<String>)> = Vec::new();
    let mut i: usize = 0;
    while i < ids.len()
        invariant
            i <= ids@.len(),
            all == texts(ids@),
            r@.map_values(|g: (String, Vec<String>)| (g.0@, texts(g.1@))) == shared_groups(lists@, all.take(i as int)),
        decreases ids@.len() - i,
    {
        assert(all.take(i as int + 1).drop_last() =~= all.take(i as int));
        assert(all.take(i as int + 1).last() == ids@[i as int]@);
        let ghost before = r@.map_values(|g: (String, Vec<String>)| (g.0@, texts(g.1@)));
        let who = listers_of(lists, ids[i].as_str());
        if who.len() >= 2 {
            r.push((ids[i].clone(), who));
            assert(r@.map_values(|g: (String, Vec<String>)| (g.0@, texts(g.1@))) =~= before.push(
                (ids@[i as int]@, listers(lists@, ids@[i as int]@)),
            ));
        } else {
            assert(r@.map_values(|g: (String, Vec<String>)| (g.0@, texts(g.1@))) =~= before + Seq::<
                (Seq<char>, Seq<Seq<char>>),
            >::empty());
        }
        i = i + 1;
    }
    assert(all.take(all.len() as int) =~= all);
    r
}


// ─── Listing alerts ─────────────────────────────────────────

/// Whether an alert passes a listing's filters: at least the spread and the
/// confidence asked for, and the named provider on one of its sides.
pub open spec fn alert_passes(
    a: ArbitrageAlert,
    min_spread_pct_micros: Option<i128>,
    min_confidence_ppm: Option<i128>,
    provider: Option<Seq<char>>,
) -> bool {
    &&& match min_spread_pct_micros {
        Some(s) => a.spread_pct_micros >= s,
        None => true,
    }
    &&& match min_confidence_ppm {
        Some(c) => a.confidence_ppm >= c,
        None => true,
    }
    &&& match provider {
        Some(p) => a.bid_provider@ == p || a.ask_provider@ == p,
        None => true,
    }
}

/// The alerts that pass the filters, in order.
pub open spec fn passing(
    s: Seq<ArbitrageAlert>,
    min_spread_pct_micros: Option<i128>,
    min_confidence_ppm: Option<i128>,
    provider: Option<Seq<char>>,
) -> Seq<ArbitrageAlert>
    decreases s.len(),
{
    if s.len() == 0 {
        Seq::empty()
    } else {
        passing(s.drop_last(), min_spread_pct_micros, min_confidence_ppm, provider) + if alert_passes(
            s.last(),
            min_spread_pct_micros,
            min_confidence_ppm,
            provider,
        ) {
            seq![s.last()]
        } else {
            Seq::empty()
        }
    }
}

/// `a` placed into alerts ordered by falling net profit: before the first
/// one that earns strictly less, so that equal profits keep their order.
pub open spec fn insert_by_profit(g: Seq<ArbitrageAlert>, a: ArbitrageAlert) -> Seq<ArbitrageAlert>
    decreases g.len(),
{
    if g.len() == 0 {
        seq![a]
    } else if g[0].net_profit_per_contract < a.net_profit_per_contract {
        seq![a] + g
    } else {
        seq![g[0]] + insert_by_profit(g.drop_first(), a)
    }
}

/// Alerts by falling net profit per contract, ties in their original order.
pub open spec fn by_profit(s: Seq<ArbitrageAlert>) -> Seq<ArbitrageAlert>
    decreases s.len(),
{
    if s.len() == 0 {
        Seq::empty()
    } else {
        insert_by_profit(by_profit(s.drop_last()), s.last())
    }
}

/// The view of an optional text.
pub open spec fn opt_seq(o: Option<&str>) -> Option<Seq<char>> {
    match o {
        Some(t) => Some(t@),
        None => None,
    }
}

/// The alerts that pass the filters, in their order.
pub fn filter_alerts(
    alerts: &Vec<ArbitrageAlert>,
    min_spread_pct_micros: Option<i128>,
    min_confidence_ppm: Option<i128>,
    provider: Option<&str>,
) -> (r: Vec<ArbitrageAlert>)
    ensures
        r@ == passing(alerts@, min_spread_pct_micros, min_confidence_ppm, opt_seq(provider)),
{
    let ghost pv = opt_seq(provider);
    let mut r: Vec<ArbitrageAlert> = Vec::new();
    let mut i: usize = 0;
    while i < alerts.len()
        invariant
            i <= alerts@.len(),
            pv == opt_seq(provider),
            r@ == passing(alerts@.take(i as int), min_spread_pct_micros, min_confidence_ppm, pv),
        decreases alerts@.len() - i,
    {
        let a = &alerts[i];
        let ghost t = alerts@.take(i as int + 1);
        assert(t.drop_last() =~= alerts@.take(i as int));
        assert(t.last() == *a);
        let spread_ok = match min_spread_pct_micros {
            Some(s) => a.spread_pct_micros >= s,
            None => true,
        };
        let confidence_ok = match min_confidence_ppm {
            Some(c) => a.confidence_ppm >= c,
            None => true,
        };
        let provider_ok = match provider {
            Some(p) => str_eq(a.bid_provider.as_str(), p) || str_eq(a.ask_provider.as_str(), p),
            None => true,
        };
        let ghost before = r@;
        if spread_ok && confidence_ok && provider_ok {
            r.push(a.duplicate());
            assert(r@ =~= before + seq![*a]);
        } else {
            assert(r@ =~= before + Seq::<ArbitrageAlert>::empty());
        }
        i = i + 1;
    }
    assert(alerts@.take(alerts@.len() as int) =~= alerts@);
    r
}

proof fn lemma_insert_by_profit_at(g: Seq<ArbitrageAlert>, a: ArbitrageAlert, p: int)
    requires
        0 <= p <= g.len(),
        forall|k: int| 0 <= k < p ==> !((#[trigger] g[k]).net_profit_per_contract < a.net_profit_per_contract),
        p < g.len() ==> g[p].net_profit_per_contract < a.net_profit_per_contract,
    ensures
        insert_by_profit(g, a) == g.insert(p, a),
    decreases p,
{
    if p == 0 {
        if g.len() == 0 {
            assert(g.insert(0, a) =~= seq![a]);
        } else {
            assert(g.insert(0, a) =~= seq![a] + g);
        }
    } else {
        let t = g.drop_first();
        assert(!(g[0].net_profit_per_contract < a.net_profit_per_contract));
        assert forall|k: int| 0 <= k < p - 1 implies !((#[trigger] t[k]).net_profit_per_contract
            < a.net_profit_per_contract) by {
            assert(t[k] == g[k + 1]);
        }
        lemma_insert_by_profit_at(t, a, p - 1);
        assert(seq![g[0]] + t.insert(p - 1, a) =~= g.insert(p, a));
    }
}

/// Active alerts for a listing: those that pass the filters, by falling net
/// profit per contract (equal profits in their order), at most `limit`.
pub fn select_opportunities(
    alerts: &Vec<ArbitrageAlert>,
    min_spread_pct_micros: Option<i128>,
    min_confidence_ppm: Option<i128>,
    provider: Option<&str>,
    limit: usize,
) -> (r: Vec<ArbitrageAlert>)
    ensures
        r@ == crate::storage::at_most(
            by_profit(passing(alerts@, min_spread_pct_micros, min_confidence_ppm, opt_seq(provider))),
            limit as int,
        ),
{
    let kept = filter_alerts(alerts, min_spread_pct_micros, min_confidence_ppm, provider);
    let mut sorted: Vec<ArbitrageAlert> = Vec::new();
    let mut i: usize = 0;
    while i < kept.len()
        invariant
            i <= kept@.len(),
            sorted@ == by_profit(kept@.take(i as int)),
        decreases kept@.len() - i,
    {
        let a = &kept[i];
        let ghost t = kept@.take(i as int + 1);
        assert(t.drop_last() =~= kept@.take(i as int));
        assert(t.last() == *a);
        let ghost g = sorted@;
        let mut p: usize = 0;
        let mut found = false;
        while p < sorted.len() && !found
            invariant
                g == sorted@,
                p <= sorted@.len(),
                forall|k: int| 0 <= k < p ==> !((#[trigger] sorted@[k]).net_profit_per_contract < a.net_profit_per_contract),
                found ==> p < sorted@.len() && sorted@[p as int].net_profit_per_contract < a.net_profit_per_contract,
            decreases sorted@.len() - p, (if found { 0int } else { 1int }),
        {
            if sorted[p].net_profit_per_contract < a.net_profit_per_contract {
                found = true;
            } else {
                p = p + 1;
            }
        }
        proof {
            lemma_insert_by_profit_at(g, *a, p as int);
        }
        sorted.insert(p, a.duplicate());
        i = i + 1;
    }
    assert(kept@.take(kept@.len() as int) =~= kept@);
    if limit < sorted.len() {
        sorted.truncate(limit);
    }
    sorted
}


/// An alert is among those a filter keeps exactly when it is one of the
/// alerts and passes the filter.
proof fn lemma_passing_contains(
    s: Seq<ArbitrageAlert>,
    min_spread_pct_micros: Option<i128>,
    min_confidence_ppm: Option<i128>,
    provider: Option<Seq<char>>,
    a: ArbitrageAlert,
)
    ensures
        passing(s, min_spread_pct_micros, min_confidence_ppm, provider).contains(a) <==> s.contains(a)
            && alert_passes(a, min_spread_pct_micros, min_confidence_ppm, provider),
    decreases s.len(),
{
    if s.len() > 0 {
        let t = s.drop_last();
        lemma_passing_contains(t, min_spread_pct_micros, min_confidence_ppm, provider, a);
        let pt = passing(t, min_spread_pct_micros, min_confidence_ppm, provider);
        let tail = if alert_passes(s.last(), min_spread_pct_micros, min_confidence_ppm, provider) {
            seq![s.last()]
        } else {
            Seq::empty()
        };
        assert(s =~= t.push(s.last()));
        if passing(s, min_spread_pct_micros, min_confidence_ppm, provider).contains(a) {
            let i = choose|i: int| 0 <= i < (pt + tail).len() && (pt + tail)[i] == a;
            if i >= pt.len() {
                assert(tail[i - pt.len()] == a);
            } else {
                assert(pt[i] == a);
            }
        }
        if s.contains(a) && alert_passes(a, min_spread_pct_micros, min_confidence_ppm, provider) {
            let i = choose|i: int| 0 <= i < s.len() && s[i] == a;
            if i == s.len() - 1 {
                assert((pt + tail)[pt.len() as int] == a);
            } else {
                assert(t[i] == a);
                let j = choose|j: int| 0 <= j < pt.len() && pt[j] == a;
                assert((pt + tail)[j] == a);
            }
        }
    }
}

/// Naming a provider keeps, of the alerts the other filters keep, exactly
/// those where that provider buys or sells: it may be on the bid side or on
/// the ask side.
pub proof fn law_provider_filter_matches_either_side(
    alerts: Seq<ArbitrageAlert>,
    min_spread_pct_micros: Option<i128>,
    min_confidence_ppm: Option<i128>,
    provider: Seq<char>,
    a: ArbitrageAlert,
)
    ensures
        passing(alerts, min_spread_pct_micros, min_confidence_ppm, Some(provider)).contains(a) <==> passing(
            alerts,
            min_spread_pct_micros,
            min_confidence_ppm,
            None,
        ).contains(a) && (a.bid_provider@ == provider || a.ask_provider@ == provider),
{
    lemma_passing_contains(alerts, min_spread_pct_micros, min_confidence_ppm, Some(provider), a);
    lemma_passing_contains(alerts, min_spread_pct_micros, min_confidence_ppm, None, a);
}


/// Alerts ordered by falling net profit per contract.
pub open spec fn profit_descending(s: Seq<ArbitrageAlert>) -> bool {
    forall|i: int, j: int| 0 <= i < j < s.len() ==> (#[trigger] s[i]).net_profit_per_contract >= (#[trigger] s[j]).net_profit_per_contract
}

proof fn lemma_insert_by_profit(g: Seq<ArbitrageAlert>, a: ArbitrageAlert)
    requires
        profit_descending(g),
    ensures
        profit_descending(insert_by_profit(g, a)),
        insert_by_profit(g, a).to_multiset() == g.to_multiset().insert(a),
        insert_by_profit(g, a).len() == g.len() + 1,
        forall|k: int| 0 <= k < insert_by_profit(g, a).len() ==> (#[trigger] insert_by_profit(g, a)[k] == a || g.contains(insert_by_profit(g, a)[k])),
    decreases g.len(),
{
    broadcast use vstd::seq_lib::group_seq_properties;
    let r = insert_by_profit(g, a);
    if g.len() == 0 {
        assert(r =~= seq![a]);
        assert(seq![a] =~= Seq::<ArbitrageAlert>::empty().push(a));
    } else if g[0].net_profit_per_contract < a.net_profit_per_contract {
        assert(r =~= seq![a] + g);
        assert forall|i: int, j: int| 0 <= i < j < r.len() implies (#[trigger] r[i]).net_profit_per_contract >= (#[trigger] r[j]).net_profit_per_contract by {
            if i > 0 {
                assert(r[i] == g[i - 1] && r[j] == g[j - 1]);
            } else {
                assert(r[j] == g[j - 1]);
                if j - 1 > 0 {
                    assert(g[0].net_profit_per_contract >= g[j - 1].net_profit_per_contract);
                }
            }
        }
        vstd::seq_lib::lemma_multiset_commutative(seq![a], g);
        assert(seq![a] =~= Seq::<ArbitrageAlert>::empty().push(a));
        assert forall|k: int| 0 <= k < r.len() implies (#[trigger] r[k] == a || g.contains(r[k])) by {
            if k > 0 {
                assert(r[k] == g[k - 1]);
            }
        }
    } else {
        let t = g.drop_first();
        assert forall|i: int, j: int| 0 <= i < j < t.len() implies (#[trigger] t[i]).net_profit_per_contract >= (#[trigger] t[j]).net_profit_per_contract by {
            assert(t[i] == g[i + 1] && t[j] == g[j + 1]);
        }
        lemma_insert_by_profit(t, a);
        let rt = insert_by_profit(t, a);
        assert(r =~= seq![g[0]] + rt);
        assert forall|i: int, j: int| 0 <= i < j < r.len() implies (#[trigger] r[i]).net_profit_per_contract >= (#[trigger] r[j]).net_profit_per_contract by {
            if i > 0 {
                assert(r[i] == rt[i - 1] && r[j] == rt[j - 1]);
            } else {
                assert(r[j] == rt[j - 1]);
                if rt[j - 1] == a {
                } else {
                    let w = choose|w: int| 0 <= w < t.len() && t[w] == rt[j - 1];
                    assert(t[w] == g[w + 1]);
                }
            }
        }
        assert(g =~= seq![g[0]] + t);
        vstd::seq_lib::lemma_multiset_commutative(seq![g[0]], rt);
        vstd::seq_lib::lemma_multiset_commutative(seq![g[0]], t);
        assert forall|k: int| 0 <= k < r.len() implies (#[trigger] r[k] == a || g.contains(r[k])) by {
            if k > 0 {
                assert(r[k] == rt[k - 1]);
                if rt[k - 1] != a {
                    let w = choose|w: int| 0 <= w < t.len() && t[w] == rt[k - 1];
                    assert(g[w + 1] == t[w]);
                }
            } else {
                assert(g[0] == r[0]);
            }
        }
    }
}

/// Ranking by profit reorders the alerts and nothing else: the ranked list
/// holds exactly the same alerts, each as often, ordered by falling net
/// profit per contract.
pub proof fn law_ranking_sorts_by_profit(s: Seq<ArbitrageAlert>)
    ensures
        profit_descending(by_profit(s)),
        by_profit(s).to_multiset() == s.to_multiset(),
    decreases s.len(),
{
    broadcast use vstd::seq_lib::group_seq_properties;
    if s.len() > 0 {
        law_ranking_sorts_by_profit(s.drop_last());
        lemma_insert_by_profit(by_profit(s.drop_last()), s.last());
        assert(s =~= s.drop_last().push(s.last()));
    }
}


/// With prices that are not negative, an opportunity is alerted on only
/// when the bid is above the ask and the profit left after both sides' fees
/// is positive; the alert carries the parsed prices, their difference as
/// spread and the detection count one above the previous one; and a
/// crossed-out opportunity (bid at or below ask) is never alerted on.
pub proof fn law_alerts_only_on_profit_after_fees(
    before: ArbitrageScanner,
    after: ArbitrageScanner,
    r: Option<ArbitrageAlert>,
    market_id: Seq<char>,
    outcome_id: Seq<char>,
    arb: ArbitrageOpportunity,
    max_quantity: int,
)
    requires
        judged(before, after, r, market_id, outcome_id, arb, max_quantity),
        price_or_zero(arb.bid_price@) >= 0,
        price_or_zero(arb.ask_price@) >= 0,
    ensures
        price_or_zero(arb.bid_price@) <= price_or_zero(arb.ask_price@) ==> r is None,
        r matches Some(a) ==> {
            &&& a.bid_price == price_or_zero(arb.bid_price@)
            &&& a.ask_price == price_or_zero(arb.ask_price@)
            &&& a.bid_price > a.ask_price
            &&& a.spread == a.bid_price - a.ask_price
            &&& a.net_profit_per_contract > 0
            &&& a.net_profit_per_contract == a.spread - a.estimated_fees
            &&& a.estimated_fees >= 0
            &&& a.consecutive_detections == (if before.active().dom().contains(alert_key(market_id, outcome_id)) {
                before.active()[alert_key(market_id, outcome_id)].consecutive_detections + 1
            } else {
                1
            })
        },
        r is None ==> after.active() == before.active(),
        r matches Some(a) ==> after.active() == before.active().insert(alert_key(market_id, outcome_id), a),
{
    let bid = price_or_zero(arb.bid_price@);
    let ask = price_or_zero(arb.ask_price@);
    let fee = before.fee() as int;
    let x = (ask + bid) * fee;
    assert(x >= 0) by (nonlinear_arith)
        requires
            ask + bid >= 0,
            fee >= 0,
            x == (ask + bid) * fee,
    ;
    if beats_fees(bid, ask, fee) {
        law_alerts_are_profitable(bid, ask, fee);
        assert(bid > ask) by (nonlinear_arith)
            requires
                (bid - ask) * 1_000_000 > x,
                x >= 0,
        ;
    } else if bid <= ask {
        assert((bid - ask) * 1_000_000 <= 0) by (nonlinear_arith)
            requires
                bid <= ask,
        ;
    }
    assert(x / 1_000_000 >= 0) by (nonlinear_arith)
        requires
            x >= 0,
    ;
}

} // verus!
