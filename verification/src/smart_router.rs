//! Smart order routing: finds the best prices across providers and splits an
//! order over their books so that the cheapest liquidity is used first.
//!
//! Prices are micros (see `decimal`), fee rates are parts per million of the
//! cost, and costs are price micros times contracts, held in `i128`.
use std::sync::atomic::AtomicU64;
use std::sync::atomic::Ordering;
use vstd::prelude::*;
use crate::adapters::{OrderBookLevel, OrderBookSnapshot};
use crate::decimal::{decimal_micros, parse_price_micros};
use crate::text::{lowercase, str_eq, to_lowercase};
use crate::types::{now_rfc3339, Side};

verus! {

/// Parts per million in one whole.
pub const PPM: i64 = 1_000_000;

/// Largest price magnitude a route is computed for: a million units.
pub const MAX_ROUTE_PRICE: i64 = 1_000_000_000_000;

/// Largest fee rate a route is computed for: the whole cost.
pub const MAX_FEE_PPM: u64 = 1_000_000;

// ─── Strategy ───────────────────────────────────────────────

/// How an order is routed.
#[derive(Debug, Clone, Copy, PartialEq, Eq, Structural)]
pub enum RoutingStrategy {
    /// The single provider with the best price.
    BestPrice,
    /// Split across providers, cheapest liquidity first.
    SplitOptimal,
    /// Only the provider the caller names.
    DirectRoute,
}

/// Strategy named by an already lower-cased value.
pub open spec fn strategy_named(lower: Seq<char>) -> Option<RoutingStrategy> {
    if lower == "best_price"@ || lower == "best"@ {
        Some(RoutingStrategy::BestPrice)
    } else if lower == "split"@ || lower == "split_optimal"@ || lower == "optimal"@ {
        Some(RoutingStrategy::SplitOptimal)
    } else if lower == "direct"@ {
        Some(RoutingStrategy::DirectRoute)
    } else {
        None
    }
}

impl RoutingStrategy {
    /// Strategy of a lower-cased name.
    pub fn from_lowercase(lower: &str) -> (r: Option<RoutingStrategy>)
        ensures
            r == strategy_named(lower@),
    {
        if str_eq(lower, "best_price") || str_eq(lower, "best") {
            Some(RoutingStrategy::BestPrice)
        } else if str_eq(lower, "split") || str_eq(lower, "split_optimal") || str_eq(lower, "optimal") {
            Some(RoutingStrategy::SplitOptimal)
        } else if str_eq(lower, "direct") {
            Some(RoutingStrategy::DirectRoute)
        } else {
            None
        }
    }

    /// Strategy of a name in any letter case; `None` when unknown.
    pub fn parse(s: &str) -> (r: Option<RoutingStrategy>)
        ensures
            r == strategy_named(lowercase(s@)),
    {
        let lower = to_lowercase(s);
        Self::from_lowercase(lower.as_str())
    }
}

// ─── Liquidity ──────────────────────────────────────────────

/// One price level of a provider's book, price in micros.
#[derive(Debug, Clone, Copy, PartialEq, Eq, Structural)]
pub struct BookLevel {
    pub price: i64,
    pub quantity: i64,
}

/// What one provider offers for one outcome on the side an order takes.
#[derive(Debug, Clone)]
pub struct ProviderLiquidity {
    pub provider_id: String,
    /// Lowest ask for a buy, highest bid (never below zero) for a sell.
    pub best_price: i64,
    /// Total quantity over the levels.
    pub available_quantity: i64,
    pub levels: Vec<BookLevel>,
    /// Fee rate in parts per million of the cost.
    pub estimated_fee_ppm: u64,
}

/// The book levels of the side an order takes: asks for a buy, bids for a sell.
pub open spec fn side_levels(snapshot: OrderBookSnapshot, side: Side) -> Seq<OrderBookLevel> {
    match side {
        Side::Buy => snapshot.asks@,
        Side::Sell => snapshot.bids@,
    }
}

/// The levels whose price parses, in book order; the others are skipped.
pub open spec fn parsed_levels(ls: Seq<OrderBookLevel>) -> Seq<BookLevel>
    decreases ls.len(),
{
    if ls.len() == 0 {
        Seq::empty()
    } else {
        let rest = parsed_levels(ls.drop_last());
        match decimal_micros(ls.last().price@) {
            Some(p) => rest.push(BookLevel { price: p as i64, quantity: ls.last().quantity }),
            None => rest,
        }
    }
}

/// Sum of the quantities of some levels.
pub open spec fn total_quantity(ls: Seq<BookLevel>) -> int
    decreases ls.len(),
{
    if ls.len() == 0 {
        0
    } else {
        total_quantity(ls.drop_last()) + ls.last().quantity
    }
}

/// Every running total of the quantities fits in an `i64`.
pub open spec fn running_totals_fit(ls: Seq<BookLevel>) -> bool {
    forall|k: int| 0 <= k <= ls.len() ==> i64::MIN <= #[trigger] total_quantity(ls.take(k)) <= i64::MAX
}

/// Lowest price of the levels; zero when there are none.
pub open spec fn lowest_price(ls: Seq<BookLevel>) -> int
    decreases ls.len(),
{
    if ls.len() == 0 {
        0
    } else if ls.len() == 1 {
        ls[0].price as int
    } else {
        let m = lowest_price(ls.drop_last());
        if ls.last().price < m { ls.last().price as int } else { m }
    }
}

/// Highest price of the levels, and never below zero.
pub open spec fn highest_price(ls: Seq<BookLevel>) -> int
    decreases ls.len(),
{
    if ls.len() == 0 {
        0
    } else {
        let m = highest_price(ls.drop_last());
        if ls.last().price > m { ls.last().price as int } else { m }
    }
}

/// Best price of the levels for an order on `side`.
pub open spec fn best_level_price(ls: Seq<BookLevel>, side: Side) -> int {
    match side {
        Side::Buy => lowest_price(ls),
        Side::Sell => highest_price(ls),
    }
}

// ─── Router ─────────────────────────────────────────────────

/// Counters of a router.
#[derive(Debug, Clone, Copy)]
pub struct RouterStats {
    pub routes_computed: u64,
    pub orders_routed: u64,
}

/// The smart order router: a default fee rate plus two shared counters.
pub struct SmartRouter {
    default_fee_ppm: u64,
    routes_computed: AtomicU64,
    orders_routed: AtomicU64,
}

impl SmartRouter {
    /// Fee rate applied to every provider, in parts per million.
    pub closed spec fn fee_ppm(&self) -> nat {
        self.default_fee_ppm as nat
    }

    /// A router with the given default fee rate and both counters at zero.
    pub fn new(default_fee_ppm: u64) -> (r: Self)
        ensures
            r.fee_ppm() == default_fee_ppm,
    {
        SmartRouter {
            default_fee_ppm,
            routes_computed: AtomicU64::new(0),
            orders_routed: AtomicU64::new(0),
        }
    }

    /// The default fee rate, in parts per million.
    pub fn default_fee_ppm(&self) -> (ppm: u64)
        ensures
            ppm == self.fee_ppm(),
    {
        self.default_fee_ppm
    }

    /// Count one more computed route.
    pub fn note_route_computed(&self) {
        self.routes_computed.fetch_add(1, Ordering::Relaxed);
    }

    /// Count one more order placed through a plan.
    pub fn note_order_routed(&self) {
        self.orders_routed.fetch_add(1, Ordering::Relaxed);
    }

    /// Current values of the counters.
    pub fn stats(&self) -> RouterStats {
        RouterStats {
            routes_computed: self.routes_computed.load(Ordering::Relaxed),
            orders_routed: self.orders_routed.load(Ordering::Relaxed),
        }
    }

    /// What `provider_id` offers for an order on `side`, read off one book
    /// snapshot: the levels whose price parses, their best price and their
    /// total quantity, at the router's default fee rate.
    pub fn extract_liquidity(&self, provider_id: &str, snapshot: &OrderBookSnapshot, side: Side) -> (l:
        ProviderLiquidity)
        requires
            running_totals_fit(parsed_levels(side_levels(*snapshot, side))),
        ensures
            l.provider_id@ == provider_id@,
            l.levels@ == parsed_levels(side_levels(*snapshot, side)),
            l.best_price == best_level_price(l.levels@, side),
            l.available_quantity == total_quantity(l.levels@),
            l.estimated_fee_ppm == self.fee_ppm(),
    {
        let levels: &Vec<OrderBookLevel> = match side {
            Side::Buy => &snapshot.asks,
            Side::Sell => &snapshot.bids,
        };
        let ghost all = parsed_levels(side_levels(*snapshot, side));
        let mut parsed: Vec<BookLevel> = Vec::new();
        let mut lowest: i64 = 0;
        let mut highest: i64 = 0;
        let mut total: i64 = 0;
        let n = levels.len();
        let mut i: usize = 0;
        while i < n
            invariant
                n == levels@.len(),
                levels@ == side_levels(*snapshot, side),
                all == parsed_levels(levels@),
                running_totals_fit(all),
                i <= n,
                parsed@ == parsed_levels(levels@.take(i as int)),
                lowest == lowest_price(parsed@),
                highest == highest_price(parsed@),
                total == total_quantity(parsed@),
            decreases n - i,
        {
            let ghost before = parsed@;
            assert(levels@.take(i as int + 1).drop_last() =~= levels@.take(i as int));
            match parse_price_micros(levels[i].price.as_str()) {
                Some(p) => {
                    let q = levels[i].quantity;
                    proof {
                        lemma_parsed_prefix(levels@, i as int + 1);
                        lemma_parsed_len_le(levels@, i as int + 1);
                        assert(parsed_levels(levels@.take(i as int + 1)) == before.push(
                            BookLevel { price: p, quantity: q },
                        ));
                        assert(before.push(BookLevel { price: p, quantity: q }).drop_last() =~= before);
                        assert(all.take(before.len() as int + 1) =~= before.push(BookLevel { price: p, quantity: q }));
                        assert(i64::MIN <= total_quantity(all.take(before.len() as int + 1)) <= i64::MAX);
                    }
                    if parsed.len() == 0 || p < lowest {
                        lowest = p;
                    }
                    if p > highest {
                        highest = p;
                    }
                    total = total + q;
                    parsed.push(BookLevel { price: p, quantity: q });
                },
                None => {},
            }
            i = i + 1;
        }
        assert(levels@.take(n as int) =~= levels@);
        let best = match side {
            Side::Buy => lowest,
            Side::Sell => highest,
        };
        ProviderLiquidity {
            provider_id: provider_id.to_string(),
            best_price: best,
            available_quantity: total,
            levels: parsed,
            estimated_fee_ppm: self.default_fee_ppm,
        }
    }
}

impl SmartRouter {
    /// What `provider_id` offers for an order on `side`, as
    /// `extract_liquidity` reads it; `None` when a running total of the
    /// quantities leaves `i64`.
    pub fn try_extract_liquidity(&self, provider_id: &str, snapshot: &OrderBookSnapshot, side: Side) -> (r: Option<
        ProviderLiquidity,
    >)
        ensures
            r is None <==> !running_totals_fit(parsed_levels(side_levels(*snapshot, side))),
            r matches Some(l) ==> {
                &&& l.provider_id@ == provider_id@
                &&& l.levels@ == parsed_levels(side_levels(*snapshot, side))
                &&& l.best_price == best_level_price(l.levels@, side)
                &&& l.available_quantity == total_quantity(l.levels@)
                &&& l.estimated_fee_ppm == self.fee_ppm()
            },
    {
        let levels: &Vec<OrderBookLevel> = match side {
            Side::Buy => &snapshot.asks,
            Side::Sell => &snapshot.bids,
        };
        let ghost all = parsed_levels(side_levels(*snapshot, side));
        let mut parsed: Vec<BookLevel> = Vec::new();
        let mut lowest: i64 = 0;
        let mut highest: i64 = 0;
        let mut total: i64 = 0;
        let n = levels.len();
        let mut i: usize = 0;
        assert(total_quantity(all.take(0)) == 0);
        while i < n
            invariant
                n == levels@.len(),
                levels@ == side_levels(*snapshot, side),
                all == parsed_levels(levels@),
                i <= n,
                parsed@ == parsed_levels(levels@.take(i as int)),
                parsed@ == all.take(parsed@.len() as int),
                parsed@.len() <= all.len(),
                lowest == lowest_price(parsed@),
                highest == highest_price(parsed@),
                total == total_quantity(parsed@),
                forall|k: int| 0 <= k <= parsed@.len() ==> i64::MIN <= #[trigger] total_quantity(all.take(k)) <= i64::MAX,
            decreases n - i,
        {
            let ghost before = parsed@;
            assert(levels@.take(i as int + 1).drop_last() =~= levels@.take(i as int));
            match parse_price_micros(levels[i].price.as_str()) {
                Some(p) => {
                    let q = levels[i].quantity;
                    proof {
                        lemma_parsed_prefix(levels@, i as int + 1);
                        lemma_parsed_len_le(levels@, i as int + 1);
                        assert(parsed_levels(levels@.take(i as int + 1)) == before.push(
                            BookLevel { price: p, quantity: q },
                        ));
                        assert(before.push(BookLevel { price: p, quantity: q }).drop_last() =~= before);
                        assert(all.take(before.len() as int + 1) =~= before.push(BookLevel { price: p, quantity: q }));
                        assert(all.take(before.len() as int + 1).drop_last() =~= all.take(before.len() as int));
                    }
                    let wide: i128 = total as i128 + q as i128;
                    if wide < i64::MIN as i128 || wide > i64::MAX as i128 {
                        proof {
                            let k = before.len() as int + 1;
                            assert(!(i64::MIN <= total_quantity(all.take(k)) <= i64::MAX));
                        }
                        return None;
                    }
                    if parsed.len() == 0 || p < lowest {
                        lowest = p;
                    }
                    if p > highest {
                        highest = p;
                    }
                    total = wide as i64;
                    parsed.push(BookLevel { price: p, quantity: q });
                    proof {
                        assert forall|k: int| 0 <= k <= parsed@.len() implies i64::MIN <= #[trigger] total_quantity(
                            all.take(k),
                        ) <= i64::MAX by {
                            if k == parsed@.len() {
                                assert(all.take(k) =~= parsed@);
                            }
                        }
                    }
                },
                None => {
                    proof {
                        lemma_parsed_prefix(levels@, i as int + 1);
                        assert(parsed_levels(levels@.take(i as int + 1)) == before);
                    }
                },
            }
            i = i + 1;
        }
        assert(levels@.take(n as int) =~= levels@);
        assert(parsed@ =~= all);
        let best = match side {
            Side::Buy => lowest,
            Side::Sell => highest,
        };
        Some(ProviderLiquidity {
            provider_id: provider_id.to_string(),
            best_price: best,
            available_quantity: total,
            levels: parsed,
            estimated_fee_ppm: self.default_fee_ppm,
        })
    }
}

/// The levels parsed from a prefix of the book are a prefix of those parsed
/// from the whole book.
proof fn lemma_parsed_prefix(ls: Seq<OrderBookLevel>, k: int)
    requires
        0 <= k <= ls.len(),
    ensures
        parsed_levels(ls.take(k)) == parsed_levels(ls).take(parsed_levels(ls.take(k)).len() as int),
    decreases ls.len(),
{
    if k == ls.len() {
        assert(ls.take(k) =~= ls);
    } else {
        assert(ls.drop_last().take(k) =~= ls.take(k));
        lemma_parsed_prefix(ls.drop_last(), k);
        let a = parsed_levels(ls.drop_last());
        let t = parsed_levels(ls.take(k));
        lemma_parsed_len_le(ls.drop_last(), k);
        match decimal_micros(ls.last().price@) {
            Some(p) => {
                assert(a.push(BookLevel { price: p as i64, quantity: ls.last().quantity }).take(t.len() as int)
                    =~= a.take(t.len() as int));
            },
            None => {},
        }
    }
}

/// Fewer levels are parsed from a prefix than from the whole book.
proof fn lemma_parsed_len_le(ls: Seq<OrderBookLevel>, k: int)
    requires
        0 <= k <= ls.len(),
    ensures
        parsed_levels(ls.take(k)).len() <= parsed_levels(ls).len(),
    decreases ls.len(),
{
    if k < ls.len() {
        assert(ls.drop_last().take(k) =~= ls.take(k));
        lemma_parsed_len_le(ls.drop_last(), k);
    } else {
        assert(ls.take(k) =~= ls);
    }
}


// ─── Merged book ────────────────────────────────────────────

/// A level of the book merged over all providers: price, quantity and the
/// index of the provider it comes from.
#[derive(Debug, Clone, Copy, PartialEq, Eq, Structural)]
pub struct BookEntry {
    pub price: i64,
    pub quantity: i64,
    pub source: usize,
}

/// One provider's levels as entries of the merged book.
pub open spec fn levels_as_entries(ls: Seq<BookLevel>, source: usize) -> Seq<BookEntry> {
    ls.map_values(|l: BookLevel| BookEntry { price: l.price, quantity: l.quantity, source })
}

/// All levels of all providers, provider by provider, each in book order.
pub open spec fn entries_of(liq: Seq<ProviderLiquidity>) -> Seq<BookEntry>
    decreases liq.len(),
{
    if liq.len() == 0 {
        Seq::empty()
    } else {
        entries_of(liq.drop_last()) + levels_as_entries(liq.last().levels@, (liq.len() - 1) as usize)
    }
}

/// `a` is consumed strictly before `b` by an order on `side`: a buy takes
/// the lower price first, a sell the higher.
pub open spec fn ahead(a: BookEntry, b: BookEntry, side: Side) -> bool {
    match side {
        Side::Buy => a.price < b.price,
        Side::Sell => a.price > b.price,
    }
}

/// `x` placed into the ordered book `g`: before the first entry it is
/// strictly ahead of, so that among equal prices the earlier entry stays first.
pub open spec fn insert_entry(g: Seq<BookEntry>, x: BookEntry, side: Side) -> Seq<BookEntry>
    decreases g.len(),
{
    if g.len() == 0 {
        seq![x]
    } else if ahead(x, g[0], side) {
        seq![x] + g
    } else {
        seq![g[0]] + insert_entry(g.drop_first(), x, side)
    }
}

/// The merged book in the order an order on `side` consumes it: by price,
/// best first, ties kept in their original order.
pub open spec fn sorted_book(s: Seq<BookEntry>, side: Side) -> Seq<BookEntry>
    decreases s.len(),
{
    if s.len() == 0 {
        Seq::empty()
    } else {
        insert_entry(sorted_book(s.drop_last(), side), s.last(), side)
    }
}

/// What a walk of the book takes from one level: the level and the amount.
pub open spec fn walk(book: Seq<BookEntry>, i: int, remaining: int) -> Seq<(BookEntry, int)>
    decreases book.len() - i,
{
    if i < 0 || i >= book.len() || remaining <= 0 {
        Seq::empty()
    } else {
        let f = if remaining < book[i].quantity { remaining } else { book[i].quantity as int };
        seq![(book[i], f)] + walk(book, i + 1, remaining - f)
    }
}

/// Sum of the amounts taken.
pub open spec fn fills_quantity(fills: Seq<(BookEntry, int)>) -> int
    decreases fills.len(),
{
    if fills.len() == 0 {
        0
    } else {
        fills_quantity(fills.drop_last()) + fills.last().1
    }
}

/// Sum of price times amount over the fills.
pub open spec fn fills_cost(fills: Seq<(BookEntry, int)>) -> int
    decreases fills.len(),
{
    if fills.len() == 0 {
        0
    } else {
        fills_cost(fills.drop_last()) + fills.last().0.price * fills.last().1
    }
}

/// A routing leg as a mathematical value.
pub ghost struct LegModel {
    pub provider: Seq<char>,
    pub price: int,
    pub quantity: int,
    pub cost: int,
    pub priority: int,
}

/// Index of the first leg for `provider`, or -1 when there is none.
pub open spec fn find_leg(legs: Seq<LegModel>, provider: Seq<char>) -> int
    decreases legs.len(),
{
    if legs.len() == 0 {
        -1
    } else {
        let k = find_leg(legs.drop_last(), provider);
        if k >= 0 {
            k
        } else if legs.last().provider == provider {
            legs.len() - 1
        } else {
            -1
        }
    }
}

/// The legs after one more fill from `provider`: its leg grows, and takes
/// the fill's price; a provider without a leg gets a new one, next in priority.
pub open spec fn add_fill(legs: Seq<LegModel>, provider: Seq<char>, price: int, amount: int) -> Seq<LegModel> {
    let k = find_leg(legs, provider);
    if k >= 0 {
        legs.update(
            k,
            LegModel {
                price: price,
                quantity: legs[k].quantity + amount,
                cost: legs[k].cost + price * amount,
                ..legs[k]
            },
        )
    } else {
        legs.push(
            LegModel { provider, price, quantity: amount, cost: price * amount, priority: legs.len() as int + 1 },
        )
    }
}

/// The legs that a sequence of fills adds up to, one per provider.
pub open spec fn aggregate(fills: Seq<(BookEntry, int)>, liq: Seq<ProviderLiquidity>) -> Seq<LegModel>
    decreases fills.len(),
{
    if fills.len() == 0 {
        Seq::empty()
    } else {
        let f = fills.last();
        add_fill(aggregate(fills.drop_last(), liq), liq[f.0.source as int].provider_id@, f.0.price as int, f.1)
    }
}

/// Index of the first provider entry named `provider`, or -1.
pub open spec fn find_provider(liq: Seq<ProviderLiquidity>, provider: Seq<char>) -> int
    decreases liq.len(),
{
    if liq.len() == 0 {
        -1
    } else {
        let k = find_provider(liq.drop_last(), provider);
        if k >= 0 {
            k
        } else if liq.last().provider_id@ == provider {
            liq.len() - 1
        } else {
            -1
        }
    }
}

/// Fee rate of the first provider entry named `provider`, else `default`.
pub open spec fn fee_ppm_for(liq: Seq<ProviderLiquidity>, provider: Seq<char>, default: int) -> int {
    let k = find_provider(liq, provider);
    if k >= 0 { liq[k].estimated_fee_ppm as int } else { default }
}

/// `a / b` rounded toward zero, for `b > 0`.
pub open spec fn trunc_div(a: int, b: int) -> int {
    if a >= 0 { a / b } else { -((-a) / b) }
}

/// Fee on a cost at a rate in parts per million, rounded toward zero.
pub open spec fn fee_of(cost: int, ppm: int) -> int {
    trunc_div(cost * ppm, PPM as int)
}

/// Total fees of the legs.
pub open spec fn legs_fees(legs: Seq<LegModel>, liq: Seq<ProviderLiquidity>, default: int) -> int
    decreases legs.len(),
{
    if legs.len() == 0 {
        0
    } else {
        legs_fees(legs.drop_last(), liq, default) + fee_of(
            legs.last().cost,
            fee_ppm_for(liq, legs.last().provider, default),
        )
    }
}

/// Total quantity of the legs.
pub open spec fn legs_quantity(legs: Seq<LegModel>) -> int
    decreases legs.len(),
{
    if legs.len() == 0 {
        0
    } else {
        legs_quantity(legs.drop_last()) + legs.last().quantity
    }
}

/// The fills of a split route.
pub open spec fn split_fills(liq: Seq<ProviderLiquidity>, side: Side, quantity: int) -> Seq<(BookEntry, int)> {
    walk(sorted_book(entries_of(liq), side), 0, quantity)
}

/// Every level has a non-negative quantity and a price of at most
/// `MAX_ROUTE_PRICE` in size, every best price is that small, every fee
/// rate is at most the whole cost, and the merged book has fewer than
/// `u32::MAX` levels.
pub open spec fn routable(liq: Seq<ProviderLiquidity>) -> bool {
    &&& levels_ok(liq)
    &&& priced(liq)
    &&& entries_of(liq).len() < u32::MAX
}

/// Every level has a non-negative quantity and a price of at most
/// `MAX_ROUTE_PRICE` in size.
pub open spec fn levels_ok(liq: Seq<ProviderLiquidity>) -> bool {
    forall|p: int, j: int|
        0 <= p < liq.len() && 0 <= j < liq[p].levels@.len() ==> {
            &&& 0 <= #[trigger] liq[p].levels@[j].quantity
            &&& -MAX_ROUTE_PRICE <= liq[p].levels@[j].price <= MAX_ROUTE_PRICE
        }
}

/// Every best price is at most `MAX_ROUTE_PRICE` in size and every fee rate
/// is at most the whole cost.
pub open spec fn priced(liq: Seq<ProviderLiquidity>) -> bool {
    forall|p: int| 0 <= p < liq.len() ==> liquidity_priced(#[trigger] liq[p])
}

/// The best price is at most `MAX_ROUTE_PRICE` in size and the fee rate is
/// at most the whole cost.
pub open spec fn liquidity_priced(l: ProviderLiquidity) -> bool {
    &&& l.estimated_fee_ppm <= MAX_FEE_PPM
    &&& -MAX_ROUTE_PRICE <= l.best_price <= MAX_ROUTE_PRICE
}

/// An entry of the merged book within the routing bounds.
pub open spec fn entry_ok(e: BookEntry, n: int) -> bool {
    &&& e.source < n
    &&& 0 <= e.quantity
    &&& -MAX_ROUTE_PRICE <= e.price <= MAX_ROUTE_PRICE
}

// ─── Plans ──────────────────────────────────────────────────

/// One leg of a plan: an order to one provider.
#[derive(Debug, Clone)]
pub struct RoutingLeg {
    pub provider: String,
    /// Price of the last level taken from this provider, in micros.
    pub price: i64,
    pub quantity: i64,
    /// Price times quantity over the levels taken.
    pub estimated_cost: i128,
    pub estimated_fee: i128,
    /// Share of the leg's quantity the provider can fill, in parts per million.
    pub fill_probability_ppm: i128,
    /// 1 is executed first.
    pub priority: u32,
}

/// How to fill an order across providers.
#[derive(Debug, Clone)]
pub struct RoutingPlan {
    pub market_native_id: String,
    pub outcome_id: String,
    /// `buy` or `sell`.
    pub side: String,
    pub total_quantity: i64,
    pub legs: Vec<RoutingLeg>,
    pub estimated_total_cost: i128,
    /// Average price over the filled quantity, in micros.
    pub estimated_avg_price: i64,
    pub estimated_fees: i128,
    /// Cost of sending the whole order to the first provider at its best price, fees included.
    pub naive_cost: i128,
    pub savings: i128,
    /// Savings as a share of the naive cost, in parts per million.
    pub savings_ppm: i128,
    pub providers_considered: usize,
    pub computed_at: String,
}

/// Lower-case name of a side.
pub open spec fn side_label(side: Side) -> Seq<char> {
    match side {
        Side::Buy => "buy"@,
        Side::Sell => "sell"@,
    }
}

/// The leg `leg` is the model `m`, with its fee at the provider's rate.
pub open spec fn leg_is(leg: RoutingLeg, m: LegModel, fee_ppm: int) -> bool {
    &&& leg.provider@ == m.provider
    &&& leg.price == m.price
    &&& leg.quantity == m.quantity
    &&& leg.estimated_cost == m.cost
    &&& leg.priority == m.priority
    &&& leg.estimated_fee == fee_of(m.cost, fee_ppm)
}

/// Average price of a fill: cost over quantity, rounded toward zero; zero
/// when nothing is filled.
pub open spec fn average_price(cost: int, filled: int) -> int {
    if filled > 0 { trunc_div(cost, filled) } else { 0 }
}

/// Cost, fees included, of the whole order at the first provider's best price.
pub open spec fn naive_cost_of(liq: Seq<ProviderLiquidity>, quantity: int, actual: int) -> int {
    if liq.len() > 0 {
        let c = liq[0].best_price * quantity;
        c + fee_of(c, liq[0].estimated_fee_ppm as int)
    } else {
        actual
    }
}

/// What a split route is: the legs the walk of the ordered merged book adds
/// up to, with the totals, the naive comparison and the savings.
pub open spec fn is_split_plan(
    plan: RoutingPlan,
    liq: Seq<ProviderLiquidity>,
    default_ppm: int,
    market: Seq<char>,
    outcome: Seq<char>,
    side: Side,
    quantity: int,
) -> bool {
    let fills = split_fills(liq, side, quantity);
    let legs = aggregate(fills, liq);
    let fees = legs_fees(legs, liq, default_ppm);
    let actual = fills_cost(fills) + fees;
    let naive = naive_cost_of(liq, quantity, actual);
    let savings = if naive - actual > 0 { naive - actual } else { 0 };
    &&& plan.market_native_id@ == market
    &&& plan.outcome_id@ == outcome
    &&& plan.side@ == side_label(side)
    &&& plan.total_quantity == quantity
    &&& plan.legs@.len() == legs.len()
    &&& forall|k: int|
        0 <= k < legs.len() ==> leg_is(#[trigger] plan.legs@[k], legs[k], fee_ppm_for(liq, legs[k].provider, default_ppm))
            && plan.legs@[k].fill_probability_ppm == PPM
    &&& plan.estimated_fees == fees
    &&& plan.estimated_total_cost == actual
    &&& plan.estimated_avg_price == average_price(fills_cost(fills), fills_quantity(fills))
    &&& plan.naive_cost == naive
    &&& plan.savings == savings
    &&& plan.savings_ppm == (if naive > 0 { savings * PPM / naive } else { 0 })
    &&& plan.providers_considered == liq.len()
}


// ─── Building and ordering the merged book ──────────────────

/// All levels of all providers as one book, provider by provider.
pub fn merged_book(liquidity: &Vec<ProviderLiquidity>) -> (book: Vec<BookEntry>)
    requires
        routable(liquidity@),
    ensures
        book@ == entries_of(liquidity@),
        forall|k: int| 0 <= k < book@.len() ==> entry_ok(#[trigger] book@[k], liquidity@.len() as int),
{
    let mut book: Vec<BookEntry> = Vec::new();
    let n = liquidity.len();
    let mut p: usize = 0;
    while p < n
        invariant
            n == liquidity@.len(),
            routable(liquidity@),
            p <= n,
            book@ == entries_of(liquidity@.take(p as int)),
            forall|k: int| 0 <= k < book@.len() ==> entry_ok(#[trigger] book@[k], n as int),
        decreases n - p,
    {
        let levels = &liquidity[p].levels;
        let m = levels.len();
        let ghost start = book@;
        let mut j: usize = 0;
        while j < m
            invariant
                n == liquidity@.len(),
                routable(liquidity@),
                p < n,
                levels@ == liquidity@[p as int].levels@,
                m == levels@.len(),
                j <= m,
                start == entries_of(liquidity@.take(p as int)),
                book@ == start + levels_as_entries(levels@.take(j as int), p),
                forall|k: int| 0 <= k < book@.len() ==> entry_ok(#[trigger] book@[k], n as int),
            decreases m - j,
        {
            let l = levels[j];
            proof {
                assert(0 <= liquidity@[p as int].levels@[j as int].quantity);
            }
            book.push(BookEntry { price: l.price, quantity: l.quantity, source: p });
            assert(levels_as_entries(levels@.take(j as int + 1), p) =~= levels_as_entries(
                levels@.take(j as int),
                p,
            ).push(BookEntry { price: l.price, quantity: l.quantity, source: p }));
            j = j + 1;
        }
        proof {
            assert(levels@.take(m as int) =~= levels@);
            assert(liquidity@.take(p as int + 1).drop_last() =~= liquidity@.take(p as int));
        }
        p = p + 1;
    }
    assert(liquidity@.take(n as int) =~= liquidity@);
    book
}

/// Inserting at the first position where the entry is strictly ahead is
/// what `insert_entry` describes.
proof fn lemma_insert_at(g: Seq<BookEntry>, x: BookEntry, side: Side, p: int)
    requires
        0 <= p <= g.len(),
        forall|k: int| 0 <= k < p ==> !ahead(x, #[trigger] g[k], side),
        p < g.len() ==> ahead(x, g[p], side),
    ensures
        insert_entry(g, x, side) == g.insert(p, x),
    decreases p,
{
    if p == 0 {
        if g.len() == 0 {
            assert(g.insert(0, x) =~= seq![x]);
        } else {
            assert(g.insert(0, x) =~= seq![x] + g);
        }
    } else {
        assert(!ahead(x, g[0], side));
        let t = g.drop_first();
        assert forall|k: int| 0 <= k < p - 1 implies !ahead(x, #[trigger] t[k], side) by {
            assert(t[k] == g[k + 1]);
        }
        lemma_insert_at(t, x, side, p - 1);
        assert(seq![g[0]] + t.insert(p - 1, x) =~= g.insert(p, x));
    }
}

/// Every entry of an insertion is the inserted one or came from the book.
proof fn lemma_insert_members(g: Seq<BookEntry>, x: BookEntry, side: Side)
    ensures
        insert_entry(g, x, side).len() == g.len() + 1,
        forall|k: int|
            0 <= k < g.len() + 1 ==> #[trigger] insert_entry(g, x, side)[k] == x || g.contains(
                insert_entry(g, x, side)[k],
            ),
    decreases g.len(),
{
    if g.len() > 0 && !ahead(x, g[0], side) {
        let t = g.drop_first();
        lemma_insert_members(t, x, side);
        let r = insert_entry(g, x, side);
        assert forall|k: int| 0 <= k < g.len() + 1 implies #[trigger] r[k] == x || g.contains(r[k]) by {
            if k > 0 {
                let rt = insert_entry(t, x, side);
                assert(r[k] == rt[k - 1]);
                if rt[k - 1] != x {
                    let w = choose|w: int| 0 <= w < t.len() && t[w] == rt[k - 1];
                    assert(g[w + 1] == r[k]);
                }
            } else {
                assert(r[0] == g[0]);
            }
        }
    } else if g.len() > 0 {
        let r = insert_entry(g, x, side);
        assert forall|k: int| 0 <= k < g.len() + 1 implies #[trigger] r[k] == x || g.contains(r[k]) by {
            if k > 0 {
                assert(r[k] == g[k - 1]);
            }
        }
    }
}

/// The ordered book has as many entries as the book, each taken from it.
proof fn lemma_sorted_members(s: Seq<BookEntry>, side: Side)
    ensures
        sorted_book(s, side).len() == s.len(),
        forall|k: int| 0 <= k < s.len() ==> s.contains(#[trigger] sorted_book(s, side)[k]),
    decreases s.len(),
{
    if s.len() > 0 {
        let d = s.drop_last();
        lemma_sorted_members(d, side);
        let g = sorted_book(d, side);
        lemma_insert_members(g, s.last(), side);
        assert forall|k: int| 0 <= k < s.len() implies s.contains(#[trigger] sorted_book(s, side)[k]) by {
            let e = sorted_book(s, side)[k];
            if e == s.last() {
                assert(s[s.len() - 1] == e);
            } else {
                let w = choose|w: int| 0 <= w < g.len() && g[w] == e;
                let v = choose|v: int| 0 <= v < d.len() && d[v] == g[w];
                assert(s[v] == e);
            }
        }
    }
}

/// The merged book in consumption order for `side`.
pub fn sort_book(book: &Vec<BookEntry>, side: Side) -> (sorted: Vec<BookEntry>)
    ensures
        sorted@ == sorted_book(book@, side),
{
    let mut g: Vec<BookEntry> = Vec::new();
    let n = book.len();
    let mut i: usize = 0;
    while i < n
        invariant
            n == book@.len(),
            i <= n,
            g@ == sorted_book(book@.take(i as int), side),
        decreases n - i,
    {
        let x = book[i];
        let mut p: usize = 0;
        let mut found = false;
        while p < g.len() && !found
            invariant
                p <= g@.len(),
                forall|k: int| 0 <= k < p ==> !ahead(x, #[trigger] g@[k], side),
                found ==> p < g@.len() && ahead(x, g@[p as int], side),
            decreases g@.len() - p, (if found { 0int } else { 1int }),
        {
            let y = g[p];
            let before = match side {
                Side::Buy => x.price < y.price,
                Side::Sell => x.price > y.price,
            };
            if before {
                found = true;
            } else {
                p = p + 1;
            }
        }
        proof {
            lemma_insert_at(g@, x, side, p as int);
            assert(book@.take(i as int + 1).drop_last() =~= book@.take(i as int));
        }
        g.insert(p, x);
        i = i + 1;
    }
    assert(book@.take(n as int) =~= book@);
    g
}


// ─── Arithmetic helpers ─────────────────────────────────────

/// Fee on `cost` at `ppm` parts per million, rounded toward zero; never
/// larger in size than the cost.
pub fn fee_amount(cost: i128, ppm: u64) -> (fee: i128)
    requires
        -10_000_000_000_000_000_000_000_000_000_000 <= cost <= 10_000_000_000_000_000_000_000_000_000_000,
        ppm <= MAX_FEE_PPM,
    ensures
        fee == fee_of(cost as int, ppm as int),
        -cost <= fee <= cost || cost <= fee <= -cost,
{
    let r: i128 = ppm as i128;
    if cost >= 0 {
        proof {
            assert(0 <= cost * r <= cost * 1_000_000) by (nonlinear_arith)
                requires
                    0 <= cost,
                    0 <= r <= 1_000_000,
            ;
            assert((cost * r) / 1_000_000 <= cost) by (nonlinear_arith)
                requires
                    0 <= cost * r <= cost * 1_000_000,
            ;
        }
        (cost * r) / 1_000_000
    } else {
        let a: i128 = -cost;
        proof {
            assert(0 <= a * r <= a * 1_000_000) by (nonlinear_arith)
                requires
                    0 <= a,
                    0 <= r <= 1_000_000,
            ;
            assert((a * r) / 1_000_000 <= a) by (nonlinear_arith)
                requires
                    0 <= a * r <= a * 1_000_000,
            ;
            assert(cost * r == -(a * r)) by (nonlinear_arith)
                requires
                    a == -cost,
            ;
        }
        -((a * r) / 1_000_000)
    }
}

/// `a` divided by a positive `b`, rounded toward zero.
fn div_toward_zero(a: i128, b: i128) -> (q: i128)
    requires
        b > 0,
        a > i128::MIN,
    ensures
        q == trunc_div(a as int, b as int),
{
    if a >= 0 {
        a / b
    } else {
        -((-a) / b)
    }
}

/// A quotient bounded as its numerator is: `|a| <= m * b` gives `|a / b| <= m`.
proof fn lemma_quotient_bound(a: int, b: int, m: int)
    requires
        b > 0,
        m >= 0,
        -(m * b) <= a <= m * b,
    ensures
        -m <= trunc_div(a, b) <= m,
{
    if a >= 0 {
        assert(a / b <= m) by (nonlinear_arith)
            requires
                b > 0,
                0 <= a <= m * b,
        ;
        assert(a / b >= 0) by (nonlinear_arith)
            requires
                b > 0,
                0 <= a,
        ;
    } else {
        assert((-a) / b <= m) by (nonlinear_arith)
            requires
                b > 0,
                0 <= -a <= m * b,
        ;
        assert((-a) / b >= 0) by (nonlinear_arith)
            requires
                b > 0,
                0 <= -a,
        ;
    }
}

/// `m * a + m * b == m * (a + b)`.
proof fn lemma_scaled_sum(m: int, a: int, b: int)
    ensures
        m * a + m * b == m * (a + b),
{
    assert(m * a + m * b == m * (a + b)) by (nonlinear_arith);
}

// ─── Leg bookkeeping lemmas ─────────────────────────────────

/// `find_leg` finds the first leg for a provider, or reports none.
proof fn lemma_find_leg(legs: Seq<LegModel>, provider: Seq<char>)
    ensures
        -1 <= find_leg(legs, provider) < legs.len(),
        find_leg(legs, provider) >= 0 ==> legs[find_leg(legs, provider)].provider == provider,
        forall|i: int| 0 <= i < legs.len() && (find_leg(legs, provider) == -1 || i < find_leg(legs, provider))
            ==> #[trigger] legs[i].provider != provider,
    decreases legs.len(),
{
    if legs.len() > 0 {
        let d = legs.drop_last();
        lemma_find_leg(d, provider);
        assert forall|i: int|
            0 <= i < legs.len() && (find_leg(legs, provider) == -1 || i < find_leg(legs, provider)) implies
            #[trigger] legs[i].provider != provider by {
            if i < legs.len() - 1 {
                assert(d[i] == legs[i]);
            }
        }
    }
}

/// `find_provider` finds the first provider entry of a name, or reports none.
proof fn lemma_find_provider(liq: Seq<ProviderLiquidity>, provider: Seq<char>)
    ensures
        -1 <= find_provider(liq, provider) < liq.len(),
        find_provider(liq, provider) >= 0 ==> liq[find_provider(liq, provider)].provider_id@ == provider,
        forall|i: int| 0 <= i < liq.len() && (find_provider(liq, provider) == -1 || i < find_provider(liq, provider))
            ==> #[trigger] liq[i].provider_id@ != provider,
    decreases liq.len(),
{
    if liq.len() > 0 {
        let d = liq.drop_last();
        lemma_find_provider(d, provider);
        assert forall|i: int|
            0 <= i < liq.len() && (find_provider(liq, provider) == -1 || i < find_provider(liq, provider)) implies
            #[trigger] liq[i].provider_id@ != provider by {
            if i < liq.len() - 1 {
                assert(d[i] == liq[i]);
            }
        }
    }
}

/// Replacing one leg changes the total quantity by the difference.
proof fn lemma_legs_quantity_update(legs: Seq<LegModel>, k: int, v: LegModel)
    requires
        0 <= k < legs.len(),
    ensures
        legs_quantity(legs.update(k, v)) == legs_quantity(legs) - legs[k].quantity + v.quantity,
    decreases legs.len(),
{
    let u = legs.update(k, v);
    if k == legs.len() - 1 {
        assert(u.drop_last() =~= legs.drop_last());
    } else {
        assert(u.drop_last() =~= legs.drop_last().update(k, v));
        lemma_legs_quantity_update(legs.drop_last(), k, v);
    }
}

/// With no negative quantities, a prefix of the legs holds no more than all of them.
proof fn lemma_legs_quantity_prefix(legs: Seq<LegModel>, k: int)
    requires
        0 <= k <= legs.len(),
        forall|i: int| 0 <= i < legs.len() ==> 0 <= #[trigger] legs[i].quantity,
    ensures
        0 <= legs_quantity(legs.take(k)) <= legs_quantity(legs),
    decreases legs.len(),
{
    if k == legs.len() {
        assert(legs.take(k) =~= legs);
        if legs.len() > 0 {
            lemma_legs_quantity_prefix(legs.drop_last(), k - 1);
            assert(legs.drop_last().take(k - 1) =~= legs.drop_last());
        }
    } else {
        assert(legs.drop_last().take(k) =~= legs.take(k));
        lemma_legs_quantity_prefix(legs.drop_last(), k);
        assert(0 <= legs[legs.len() - 1].quantity);
    }
}

// ─── Split routing ──────────────────────────────────────────

impl SmartRouter {
    /// Split an order over the merged book of all providers: walk the levels
    /// best price first (ties in provider order), take from each what is
    /// still missing, and gather what each provider fills into one leg,
    /// numbered in the order providers are first reached. The plan reports
    /// the cost, the fees at each provider's rate, the average price, and
    /// what sending everything to the first provider would have cost.
    pub fn route_split_optimal(
        &self,
        liquidity: &Vec<ProviderLiquidity>,
        market_native_id: &str,
        outcome_id: &str,
        side: Side,
        quantity: i64,
    ) -> (plan: RoutingPlan)
        requires
            routable(liquidity@),
        ensures
            is_split_plan(plan, liquidity@, self.fee_ppm() as int, market_native_id@, outcome_id@, side, quantity as int),
    {
        let ghost liq = liquidity@;
        let n = liquidity.len();
        let flat = merged_book(liquidity);
        let book = sort_book(&flat, side);
        proof {
            lemma_sorted_members(flat@, side);
            assert forall|k: int| 0 <= k < book@.len() implies entry_ok(#[trigger] book@[k], n as int) by {
                let w = choose|w: int| 0 <= w < flat@.len() && flat@[w] == book@[k];
                assert(entry_ok(flat@[w], n as int));
            }
        }
        let ghost fills = walk(book@, 0, quantity as int);
        let ghost mut done: Seq<(BookEntry, int)> = Seq::empty();
        let mut leg_src: Vec<usize> = Vec::new();
        let mut leg_price: Vec<i64> = Vec::new();
        let mut leg_qty: Vec<i64> = Vec::new();
        let mut leg_cost: Vec<i128> = Vec::new();
        let mut remaining: i64 = quantity;
        let mut total_cost: i128 = 0;
        let mut i: usize = 0;
        assert(done + walk(book@, 0, quantity as int) =~= fills);
        while i < book.len() && remaining > 0
            invariant
                liq == liquidity@,
                n == liq.len(),
                routable(liq),
                book@.len() < u32::MAX,
                forall|k: int| 0 <= k < book@.len() ==> entry_ok(#[trigger] book@[k], n as int),
                fills == walk(book@, 0, quantity as int),
                i <= book@.len(),
                done + walk(book@, i as int, remaining as int) == fills,
                remaining <= quantity,
                0 <= quantity - remaining <= i64::MAX,
                fills_quantity(done) == quantity - remaining,
                total_cost == fills_cost(done),
                -(MAX_ROUTE_PRICE * (quantity - remaining)) <= total_cost <= MAX_ROUTE_PRICE * (quantity - remaining),
                leg_src@.len() == leg_price@.len(),
                leg_src@.len() == leg_qty@.len(),
                leg_src@.len() == leg_cost@.len(),
                leg_src@.len() <= i,
                aggregate(done, liq).len() == leg_src@.len(),
                forall|k: int| 0 <= k < leg_src@.len() ==> (#[trigger] aggregate(done, liq)[k]) == (LegModel {
                    provider: liq[leg_src@[k] as int].provider_id@,
                    price: leg_price@[k] as int,
                    quantity: leg_qty@[k] as int,
                    cost: leg_cost@[k] as int,
                    priority: k + 1,
                }),
                forall|k: int| 0 <= k < leg_src@.len() ==> #[trigger] leg_src@[k] < n,
                forall|k: int|
                    0 <= k < leg_src@.len() ==> 0 <= #[trigger] leg_qty@[k] <= quantity - remaining,
                forall|k: int|
                    0 <= k < leg_src@.len() ==> -(MAX_ROUTE_PRICE * leg_qty@[k]) <= #[trigger] leg_cost@[k]
                        <= MAX_ROUTE_PRICE * leg_qty@[k],
                legs_quantity(aggregate(done, liq)) == quantity - remaining,
            decreases book@.len() - i,
        {
            let e = book[i];
            assert(entry_ok(book@[i as int], n as int));
            let f: i64 = if remaining < e.quantity { remaining } else { e.quantity };
            proof {
                assert(0 <= f <= i64::MAX);
                assert(-(MAX_ROUTE_PRICE * f) <= e.price * f <= MAX_ROUTE_PRICE * f) by (nonlinear_arith)
                    requires
                        -MAX_ROUTE_PRICE <= e.price <= MAX_ROUTE_PRICE,
                        0 <= f,
                ;
                assert(MAX_ROUTE_PRICE * f <= MAX_ROUTE_PRICE * i64::MAX) by (nonlinear_arith)
                    requires
                        0 <= f <= i64::MAX,
                ;
            }
            let cost: i128 = (e.price as i128) * (f as i128);
            proof {
                assert(MAX_ROUTE_PRICE * (quantity - remaining) + MAX_ROUTE_PRICE * f == MAX_ROUTE_PRICE * (
                quantity - remaining + f)) by (nonlinear_arith);
            }
            let ghost agg = aggregate(done, liq);
            let ghost prov = liq[e.source as int].provider_id@;
            let mut j: usize = 0;
            let mut found = false;
            while j < leg_src.len() && !found
                invariant
                    liq == liquidity@,
                    n == liq.len(),
                    e.source < n,
                    prov == liq[e.source as int].provider_id@,
                    agg.len() == leg_src@.len(),
                    forall|k: int| 0 <= k < leg_src@.len() ==> #[trigger] leg_src@[k] < n,
                    forall|k: int| 0 <= k < leg_src@.len() ==> (#[trigger] agg[k]).provider == liq[leg_src@[k] as int].provider_id@,
                    j <= leg_src@.len(),
                    forall|k: int| 0 <= k < j ==> (#[trigger] agg[k]).provider != prov,
                    found ==> j < leg_src@.len() && agg[j as int].provider == prov,
                decreases leg_src@.len() - j, (if found { 0int } else { 1int }),
            {
                assert(agg[j as int].provider == liq[leg_src@[j as int] as int].provider_id@);
                if str_eq(liquidity[leg_src[j]].provider_id.as_str(), liquidity[e.source].provider_id.as_str()) {
                    found = true;
                } else {
                    j = j + 1;
                }
            }
            proof {
                lemma_find_leg(agg, prov);
                assert(done.push((e, f as int)).drop_last() =~= done);
            }
            if found {
                proof {
                    assert(find_leg(agg, prov) == j);
                    lemma_legs_quantity_update(
                        agg,
                        j as int,
                        LegModel {
                            price: e.price as int,
                            quantity: agg[j as int].quantity + f,
                            cost: agg[j as int].cost + e.price * f,
                            ..agg[j as int]
                        },
                    );
                    assert(MAX_ROUTE_PRICE * leg_qty@[j as int] + MAX_ROUTE_PRICE * f == MAX_ROUTE_PRICE * (
                    leg_qty@[j as int] + f)) by (nonlinear_arith);
                }
                let q = leg_qty[j] + f;
                let c = leg_cost[j] + cost;
                leg_qty.set(j, q);
                leg_cost.set(j, c);
                leg_price.set(j, e.price);
            } else {
                proof {
                    assert(find_leg(agg, prov) == -1);
                    assert(agg.push(
                        LegModel { provider: prov, price: e.price as int, quantity: f as int, cost: e.price * f, priority: agg.len() as int + 1 },
                    ).drop_last() =~= agg);
                }
                leg_src.push(e.source);
                leg_price.push(e.price);
                leg_qty.push(f);
                leg_cost.push(cost);
            }
            proof {
                let nd = done.push((e, f as int));
                assert(walk(book@, i as int, remaining as int) =~= seq![(e, f as int)] + walk(
                    book@,
                    i as int + 1,
                    remaining - f,
                ));
                assert(nd + walk(book@, i as int + 1, remaining - f) =~= done + walk(
                    book@,
                    i as int,
                    remaining as int,
                ));
                assert(aggregate(nd, liq) == add_fill(agg, prov, e.price as int, f as int));
                assert(aggregate(nd, liq) =~= add_fill(agg, prov, e.price as int, f as int));
                done = nd;
            }
            total_cost = total_cost + cost;
            remaining = remaining - f;
            i = i + 1;
        }
        proof {
            assert(walk(book@, i as int, remaining as int) =~= Seq::<(BookEntry, int)>::empty());
            assert(done =~= fills);
        }
        let filled: i64 = quantity - remaining;
        let ghost legs = aggregate(fills, liq);
        // Fees, leg by leg, at the rate of the leg's provider.
        let mut out: Vec<RoutingLeg> = Vec::new();
        let mut total_fees: i128 = 0;
        let m = leg_src.len();
        let mut k: usize = 0;
        proof {
            assert forall|t: int| 0 <= t < legs.len() implies 0 <= #[trigger] legs[t].quantity by {
                assert(legs[t].quantity == leg_qty@[t]);
            }
        }
        while k < m
            invariant
                liq == liquidity@,
                n == liq.len(),
                routable(liq),
                m == leg_src@.len(),
                m == leg_price@.len(),
                m == leg_qty@.len(),
                m == leg_cost@.len(),
                m < u32::MAX,
                legs == aggregate(fills, liq),
                legs.len() == m,
                forall|t: int| 0 <= t < m ==> (#[trigger] legs[t]) == (LegModel {
                    provider: liq[leg_src@[t] as int].provider_id@,
                    price: leg_price@[t] as int,
                    quantity: leg_qty@[t] as int,
                    cost: leg_cost@[t] as int,
                    priority: t + 1,
                }),
                forall|t: int| 0 <= t < m ==> #[trigger] leg_src@[t] < n,
                forall|t: int| 0 <= t < m ==> 0 <= #[trigger] legs[t].quantity,
                forall|t: int|
                    0 <= t < m ==> -(MAX_ROUTE_PRICE * leg_qty@[t]) <= #[trigger] leg_cost@[t] <= MAX_ROUTE_PRICE
                        * leg_qty@[t],
                0 <= filled <= i64::MAX,
                legs_quantity(legs) == filled,
                k <= m,
                out@.len() == k,
                forall|t: int|
                    0 <= t < k ==> leg_is(#[trigger] out@[t], legs[t], fee_ppm_for(liq, legs[t].provider, self.fee_ppm() as int))
                        && out@[t].fill_probability_ppm == PPM,
                total_fees == legs_fees(legs.take(k as int), liq, self.fee_ppm() as int),
                -(MAX_ROUTE_PRICE * legs_quantity(legs.take(k as int))) <= total_fees <= MAX_ROUTE_PRICE * legs_quantity(
                    legs.take(k as int),
                ),
            decreases m - k,
        {
            let src = leg_src[k];
            let ghost prov = liq[src as int].provider_id@;
            let mut p: usize = 0;
            let mut found = false;
            while p < n && !found
                invariant
                    liq == liquidity@,
                    n == liq.len(),
                    src < n,
                    prov == liq[src as int].provider_id@,
                    p <= n,
                    forall|t: int| 0 <= t < p ==> (#[trigger] liq[t]).provider_id@ != prov,
                    found ==> p < n && liq[p as int].provider_id@ == prov,
                decreases n - p, (if found { 0int } else { 1int }),
            {
                if str_eq(liquidity[p].provider_id.as_str(), liquidity[src].provider_id.as_str()) {
                    found = true;
                } else {
                    p = p + 1;
                }
            }
            proof {
                lemma_find_provider(liq, prov);
            }
            let ppm: u64 = if found {
                assert(find_provider(liq, prov) == p);
                liquidity[p].estimated_fee_ppm
            } else {
                assert(liq[src as int].provider_id@ == prov);
                assert(false);
                self.default_fee_ppm
            };
            assert(ppm <= MAX_FEE_PPM);
            let cost = leg_cost[k];
            proof {
                assert(MAX_ROUTE_PRICE * leg_qty@[k as int] <= MAX_ROUTE_PRICE * i64::MAX) by (nonlinear_arith)
                    requires
                        0 <= leg_qty@[k as int] <= i64::MAX,
                ;
            }
            let fee = fee_amount(cost, ppm);
            proof {
                lemma_legs_quantity_prefix(legs, k as int);
                lemma_legs_quantity_prefix(legs, k as int + 1);
                assert(legs.take(k as int + 1).drop_last() =~= legs.take(k as int));
                assert(legs_quantity(legs.take(k as int + 1)) == legs_quantity(legs.take(k as int)) + leg_qty@[k as int]);
                lemma_scaled_sum(MAX_ROUTE_PRICE as int, legs_quantity(legs.take(k as int)), leg_qty@[k as int] as int);
                assert(MAX_ROUTE_PRICE * legs_quantity(legs.take(k as int + 1)) <= MAX_ROUTE_PRICE * i64::MAX) by (nonlinear_arith)
                    requires
                        legs_quantity(legs.take(k as int + 1)) <= i64::MAX,
                ;
            }
            out.push(RoutingLeg {
                provider: liquidity[src].provider_id.clone(),
                price: leg_price[k],
                quantity: leg_qty[k],
                estimated_cost: cost,
                estimated_fee: fee,
                fill_probability_ppm: 1_000_000,
                priority: (k + 1) as u32,
            });
            total_fees = total_fees + fee;
            k = k + 1;
        }
        proof {
            assert(legs.take(m as int) =~= legs);
            assert(MAX_ROUTE_PRICE * filled <= MAX_ROUTE_PRICE * i64::MAX) by (nonlinear_arith)
                requires
                    0 <= filled <= i64::MAX,
            ;
        }
        let actual: i128 = total_cost + total_fees;
        let avg: i64 = if filled > 0 {
            proof {
                lemma_quotient_bound(total_cost as int, filled as int, MAX_ROUTE_PRICE as int);
            }
            div_toward_zero(total_cost, filled as i128) as i64
        } else {
            0
        };
        let naive: i128 = if n > 0 {
            let best = liquidity[0].best_price;
            proof {
                assert(liquidity_priced(liq[0]));
                assert(-(MAX_ROUTE_PRICE * 9_223_372_036_854_775_808) <= best * quantity <= MAX_ROUTE_PRICE
                    * 9_223_372_036_854_775_808) by (nonlinear_arith)
                    requires
                        -MAX_ROUTE_PRICE <= best <= MAX_ROUTE_PRICE,
                        -9_223_372_036_854_775_808 <= quantity <= 9_223_372_036_854_775_808,
                ;
            }
            let c: i128 = (best as i128) * (quantity as i128);
            c + fee_amount(c, liquidity[0].estimated_fee_ppm)
        } else {
            actual
        };
        let diff: i128 = naive - actual;
        let savings: i128 = if diff > 0 { diff } else { 0 };
        let savings_ppm: i128 = if naive > 0 { savings * 1_000_000 / naive } else { 0 };
        let side_name = match side {
            Side::Buy => "buy".to_string(),
            Side::Sell => "sell".to_string(),
        };
        proof {
            reveal_strlit("buy");
            reveal_strlit("sell");
        }
        RoutingPlan {
            market_native_id: market_native_id.to_string(),
            outcome_id: outcome_id.to_string(),
            side: side_name,
            total_quantity: quantity,
            legs: out,
            estimated_total_cost: actual,
            estimated_avg_price: avg,
            estimated_fees: total_fees,
            naive_cost: naive,
            savings,
            savings_ppm,
            providers_considered: n,
            computed_at: now_rfc3339(),
        }
    }
}


// ─── Single-provider routing ────────────────────────────────

/// `p` is strictly better than `q` for an order on `side`.
pub open spec fn better_price(p: int, q: int, side: Side) -> bool {
    match side {
        Side::Buy => p < q,
        Side::Sell => p > q,
    }
}

/// Index of the provider with the best price; the first one among equals.
pub open spec fn best_index(liq: Seq<ProviderLiquidity>, side: Side) -> int
    decreases liq.len(),
{
    if liq.len() <= 1 {
        0
    } else {
        let b = best_index(liq.drop_last(), side);
        if better_price(liq.last().best_price as int, liq[b].best_price as int, side) {
            liq.len() - 1
        } else {
            b
        }
    }
}

/// Share of an order a provider can fill, in parts per million: all of it
/// when it holds at least the order, else its quantity over the order's,
/// rounded toward zero (zero for an empty order).
pub open spec fn fill_ratio_ppm(available: int, quantity: int) -> int {
    if available >= quantity {
        PPM as int
    } else if quantity > 0 {
        trunc_div(available * PPM, quantity)
    } else if quantity < 0 {
        trunc_div(-available * PPM, -quantity)
    } else {
        0
    }
}

/// A plan with one leg to one provider: `fill` contracts at its best price.
pub open spec fn is_single_leg_plan(
    plan: RoutingPlan,
    provider: Seq<char>,
    best_price: int,
    available: int,
    fee_ppm: int,
    fill: int,
    providers: int,
    market: Seq<char>,
    outcome: Seq<char>,
    side: Side,
    quantity: int,
) -> bool {
    let cost = best_price * fill;
    let fee = fee_of(cost, fee_ppm);
    &&& plan.market_native_id@ == market
    &&& plan.outcome_id@ == outcome
    &&& plan.side@ == side_label(side)
    &&& plan.total_quantity == quantity
    &&& plan.legs@.len() == 1
    &&& plan.legs@[0].provider@ == provider
    &&& plan.legs@[0].price == best_price
    &&& plan.legs@[0].quantity == fill
    &&& plan.legs@[0].estimated_cost == cost
    &&& plan.legs@[0].estimated_fee == fee
    &&& plan.legs@[0].fill_probability_ppm == fill_ratio_ppm(available, quantity)
    &&& plan.legs@[0].priority == 1
    &&& plan.estimated_total_cost == cost + fee
    &&& plan.estimated_avg_price == best_price
    &&& plan.estimated_fees == fee
    &&& plan.naive_cost == cost + fee
    &&& plan.savings == 0
    &&& plan.savings_ppm == 0
    &&& plan.providers_considered == providers
}

/// The one-leg plan itself.
fn single_leg_plan(
    provider: String,
    best_price: i64,
    available: i64,
    fee_ppm: u64,
    fill: i64,
    providers: usize,
    market_native_id: &str,
    outcome_id: &str,
    side: Side,
    quantity: i64,
) -> (plan: RoutingPlan)
    requires
        -MAX_ROUTE_PRICE <= best_price <= MAX_ROUTE_PRICE,
        fee_ppm <= MAX_FEE_PPM,
    ensures
        is_single_leg_plan(plan, provider@, best_price as int, available as int, fee_ppm as int, fill as int,
            providers as int, market_native_id@, outcome_id@, side, quantity as int),
{
    proof {
        assert(-(MAX_ROUTE_PRICE * 9_223_372_036_854_775_808) <= best_price * fill <= MAX_ROUTE_PRICE
            * 9_223_372_036_854_775_808) by (nonlinear_arith)
            requires
                -MAX_ROUTE_PRICE <= best_price <= MAX_ROUTE_PRICE,
                -9_223_372_036_854_775_808 <= fill <= 9_223_372_036_854_775_808,
        ;
    }
    let cost: i128 = (best_price as i128) * (fill as i128);
    let fee = fee_amount(cost, fee_ppm);
    let ratio: i128 = if available >= quantity {
        1_000_000
    } else if quantity > 0 {
        div_toward_zero((available as i128) * 1_000_000, quantity as i128)
    } else if quantity < 0 {
        div_toward_zero(-(available as i128) * 1_000_000, -(quantity as i128))
    } else {
        0
    };
    let side_name = match side {
        Side::Buy => "buy".to_string(),
        Side::Sell => "sell".to_string(),
    };
    proof {
        reveal_strlit("buy");
        reveal_strlit("sell");
    }
    let mut legs: Vec<RoutingLeg> = Vec::new();
    legs.push(RoutingLeg {
        provider,
        price: best_price,
        quantity: fill,
        estimated_cost: cost,
        estimated_fee: fee,
        fill_probability_ppm: ratio,
        priority: 1,
    });
    RoutingPlan {
        market_native_id: market_native_id.to_string(),
        outcome_id: outcome_id.to_string(),
        side: side_name,
        total_quantity: quantity,
        legs,
        estimated_total_cost: cost + fee,
        estimated_avg_price: best_price,
        estimated_fees: fee,
        naive_cost: cost + fee,
        savings: 0,
        savings_ppm: 0,
        providers_considered: providers,
        computed_at: now_rfc3339(),
    }
}

impl SmartRouter {
    /// Send the whole order to the provider with the best price (the first
    /// such in the list), for as much as it holds.
    pub fn route_best_price(
        &self,
        liquidity: &Vec<ProviderLiquidity>,
        market_native_id: &str,
        outcome_id: &str,
        side: Side,
        quantity: i64,
    ) -> (plan: RoutingPlan)
        requires
            liquidity@.len() > 0,
            priced(liquidity@),
        ensures
            ({
                let l = liquidity@[best_index(liquidity@, side)];
                let fill = if quantity < l.available_quantity { quantity as int } else { l.available_quantity as int };
                is_single_leg_plan(plan, l.provider_id@, l.best_price as int, l.available_quantity as int,
                    l.estimated_fee_ppm as int, fill, liquidity@.len() as int, market_native_id@, outcome_id@, side,
                    quantity as int)
            }),
    {
        let n = liquidity.len();
        let mut b: usize = 0;
        let mut k: usize = 1;
        assert(liquidity@.take(1).len() == 1);
        while k < n
            invariant
                n == liquidity@.len(),
                1 <= k <= n,
                b < k,
                b == best_index(liquidity@.take(k as int), side),
            decreases n - k,
        {
            let better = match side {
                Side::Buy => liquidity[k].best_price < liquidity[b].best_price,
                Side::Sell => liquidity[k].best_price > liquidity[b].best_price,
            };
            proof {
                let t = liquidity@.take(k as int + 1);
                assert(t.drop_last() =~= liquidity@.take(k as int));
                assert(t[b as int] == liquidity@[b as int]);
            }
            if better {
                b = k;
            }
            k = k + 1;
        }
        assert(liquidity@.take(n as int) =~= liquidity@);
        let l = &liquidity[b];
        assert(liquidity_priced(liquidity@[b as int]));
        let fill: i64 = if quantity < l.available_quantity { quantity } else { l.available_quantity };
        single_leg_plan(
            l.provider_id.clone(),
            l.best_price,
            l.available_quantity,
            l.estimated_fee_ppm,
            fill,
            n,
            market_native_id,
            outcome_id,
            side,
            quantity,
        )
    }

    /// Send the whole order to one named provider at its best price,
    /// whatever it holds.
    pub fn plan_direct(
        &self,
        liquidity: &ProviderLiquidity,
        provider_id: &str,
        market_native_id: &str,
        outcome_id: &str,
        side: Side,
        quantity: i64,
    ) -> (plan: RoutingPlan)
        requires
            liquidity_priced(*liquidity),
        ensures
            is_single_leg_plan(plan, provider_id@, liquidity.best_price as int, liquidity.available_quantity as int,
                liquidity.estimated_fee_ppm as int, quantity as int, 1, market_native_id@, outcome_id@, side,
                quantity as int),
    {
        single_leg_plan(
            provider_id.to_string(),
            liquidity.best_price,
            liquidity.available_quantity,
            liquidity.estimated_fee_ppm,
            quantity,
            1,
            market_native_id,
            outcome_id,
            side,
            quantity,
        )
    }
}


// ─── Laws of routing ────────────────────────────────────────

/// Total quantity of a run of book entries.
pub open spec fn entries_quantity(s: Seq<BookEntry>) -> int
    decreases s.len(),
{
    if s.len() == 0 {
        0
    } else {
        s[0].quantity + entries_quantity(s.drop_first())
    }
}

/// Entries consumed strictly in order: none is ahead of an earlier one.
pub open spec fn consumption_ordered(g: Seq<BookEntry>, side: Side) -> bool {
    forall|i: int, j: int| 0 <= i < j < g.len() ==> !ahead(#[trigger] g[j], #[trigger] g[i], side)
}

proof fn lemma_entries_quantity_push(s: Seq<BookEntry>, x: BookEntry)
    ensures
        entries_quantity(s.push(x)) == entries_quantity(s) + x.quantity,
    decreases s.len(),
{
    if s.len() > 0 {
        assert(s.push(x).drop_first() =~= s.drop_first().push(x));
        lemma_entries_quantity_push(s.drop_first(), x);
    } else {
        assert(s.push(x).drop_first() =~= s);
    }
}

proof fn lemma_entries_quantity_nonneg(s: Seq<BookEntry>)
    requires
        forall|k: int| 0 <= k < s.len() ==> 0 <= #[trigger] s[k].quantity,
    ensures
        0 <= entries_quantity(s),
    decreases s.len(),
{
    if s.len() > 0 {
        let t = s.drop_first();
        assert forall|k: int| 0 <= k < t.len() implies 0 <= #[trigger] t[k].quantity by {
            assert(t[k] == s[k + 1]);
        }
        lemma_entries_quantity_nonneg(t);
    }
}

proof fn lemma_insert_quantity(g: Seq<BookEntry>, x: BookEntry, side: Side)
    ensures
        entries_quantity(insert_entry(g, x, side)) == entries_quantity(g) + x.quantity,
    decreases g.len(),
{
    if g.len() == 0 {
        assert(seq![x].drop_first() =~= Seq::<BookEntry>::empty());
        assert(entries_quantity(Seq::<BookEntry>::empty()) == 0);
        assert(entries_quantity(seq![x]) == x.quantity + entries_quantity(seq![x].drop_first()));
    } else if ahead(x, g[0], side) {
        let r = seq![x] + g;
        assert(r.drop_first() =~= g);
        assert(r[0] == x);
        assert(entries_quantity(r) == x.quantity + entries_quantity(r.drop_first()));
    } else {
        let t = g.drop_first();
        lemma_insert_quantity(t, x, side);
        let r = seq![g[0]] + insert_entry(t, x, side);
        assert(r.drop_first() =~= insert_entry(t, x, side));
        assert(r[0] == g[0]);
        assert(entries_quantity(r) == g[0].quantity + entries_quantity(r.drop_first()));
        assert(entries_quantity(g) == g[0].quantity + entries_quantity(t));
    }
}

proof fn lemma_sorted_quantity(s: Seq<BookEntry>, side: Side)
    ensures
        entries_quantity(sorted_book(s, side)) == entries_quantity(s),
    decreases s.len(),
{
    if s.len() > 0 {
        let d = s.drop_last();
        lemma_sorted_quantity(d, side);
        lemma_insert_quantity(sorted_book(d, side), s.last(), side);
        lemma_entries_quantity_push(d, s.last());
        assert(d.push(s.last()) =~= s);
    }
}

proof fn lemma_fills_quantity_prepend(a: (BookEntry, int), r: Seq<(BookEntry, int)>)
    ensures
        fills_quantity(seq![a] + r) == a.1 + fills_quantity(r),
    decreases r.len(),
{
    let c = seq![a] + r;
    if r.len() > 0 {
        assert(c.drop_last() =~= seq![a] + r.drop_last());
        assert(c.last() == r.last());
        lemma_fills_quantity_prepend(a, r.drop_last());
    } else {
        assert(c.drop_last() =~= Seq::<(BookEntry, int)>::empty());
        assert(c.last() == a);
        assert(fills_quantity(Seq::<(BookEntry, int)>::empty()) == 0);
    }
}

proof fn lemma_walk_quantity(book: Seq<BookEntry>, i: int, remaining: int)
    requires
        0 <= i <= book.len(),
        forall|k: int| 0 <= k < book.len() ==> 0 <= #[trigger] book[k].quantity,
    ensures
        fills_quantity(walk(book, i, remaining)) == (if remaining <= 0 {
            0
        } else if remaining < entries_quantity(book.skip(i)) {
            remaining
        } else {
            entries_quantity(book.skip(i))
        }),
    decreases book.len() - i,
{
    if i < book.len() && remaining > 0 {
        let q = book[i].quantity as int;
        let f = if remaining < q { remaining } else { q };
        lemma_walk_quantity(book, i + 1, remaining - f);
        lemma_fills_quantity_prepend((book[i], f), walk(book, i + 1, remaining - f));
        assert(book.skip(i).drop_first() =~= book.skip(i + 1));
        assert(book.skip(i)[0] == book[i]);
        let t = book.skip(i + 1);
        assert forall|k: int| 0 <= k < t.len() implies 0 <= #[trigger] t[k].quantity by {
            assert(t[k] == book[k + i + 1]);
        }
        lemma_entries_quantity_nonneg(t);
    } else if i == book.len() {
        assert(book.skip(i).len() == 0);
    }
}

proof fn lemma_entries_ok(liq: Seq<ProviderLiquidity>)
    requires
        levels_ok(liq),
    ensures
        forall|k: int| 0 <= k < entries_of(liq).len() ==> entry_ok(#[trigger] entries_of(liq)[k], liq.len() as int),
    decreases liq.len(),
{
    if liq.len() > 0 {
        let d = liq.drop_last();
        assert forall|p: int, j: int| 0 <= p < d.len() && 0 <= j < d[p].levels@.len() implies {
            &&& 0 <= #[trigger] d[p].levels@[j].quantity
            &&& -MAX_ROUTE_PRICE <= d[p].levels@[j].price <= MAX_ROUTE_PRICE
        } by {
            assert(d[p] == liq[p]);
        }
        lemma_entries_ok(d);
        let a = entries_of(d);
        let b = levels_as_entries(liq.last().levels@, (liq.len() - 1) as usize);
        assert forall|k: int| 0 <= k < entries_of(liq).len() implies entry_ok(
            #[trigger] entries_of(liq)[k],
            liq.len() as int,
        ) by {
            if k < a.len() {
                assert(entries_of(liq)[k] == a[k]);
            } else {
                let j = k - a.len();
                assert(entries_of(liq)[k] == b[j]);
                assert(0 <= liq[liq.len() - 1].levels@[j].quantity);
            }
        }
    }
}

/// The quantity a split route fills is the order's quantity, capped by all
/// the liquidity in the merged book; nothing when the order is empty.
pub proof fn law_split_fills_what_is_available(liq: Seq<ProviderLiquidity>, side: Side, quantity: int)
    requires
        levels_ok(liq),
    ensures
        fills_quantity(split_fills(liq, side, quantity)) == (if quantity <= 0 {
            0
        } else if quantity < entries_quantity(entries_of(liq)) {
            quantity
        } else {
            entries_quantity(entries_of(liq))
        }),
{
    let s = entries_of(liq);
    let g = sorted_book(s, side);
    lemma_entries_ok(liq);
    lemma_sorted_members(s, side);
    lemma_sorted_quantity(s, side);
    assert forall|k: int| 0 <= k < g.len() implies 0 <= #[trigger] g[k].quantity by {
        let w = choose|w: int| 0 <= w < s.len() && s[w] == g[k];
        assert(entry_ok(s[w], liq.len() as int));
    }
    assert(g.skip(0) =~= g);
    lemma_walk_quantity(g, 0, quantity);
}

/// The legs of a route add up to the quantity its fills take.
pub proof fn law_legs_add_up(fills: Seq<(BookEntry, int)>, liq: Seq<ProviderLiquidity>)
    ensures
        legs_quantity(aggregate(fills, liq)) == fills_quantity(fills),
    decreases fills.len(),
{
    if fills.len() > 0 {
        let f = fills.last();
        let legs = aggregate(fills.drop_last(), liq);
        let prov = liq[f.0.source as int].provider_id@;
        law_legs_add_up(fills.drop_last(), liq);
        lemma_find_leg(legs, prov);
        let k = find_leg(legs, prov);
        if k >= 0 {
            lemma_legs_quantity_update(
                legs,
                k,
                LegModel {
                    price: f.0.price as int,
                    quantity: legs[k].quantity + f.1,
                    cost: legs[k].cost + f.0.price * f.1,
                    ..legs[k]
                },
            );
        } else {
            let leg = LegModel {
                provider: prov,
                price: f.0.price as int,
                quantity: f.1,
                cost: f.0.price * f.1,
                priority: legs.len() as int + 1,
            };
            assert(legs.push(leg).drop_last() =~= legs);
        }
    }
}

proof fn lemma_insert_ordered(g: Seq<BookEntry>, x: BookEntry, side: Side)
    requires
        consumption_ordered(g, side),
    ensures
        consumption_ordered(insert_entry(g, x, side), side),
    decreases g.len(),
{
    let r = insert_entry(g, x, side);
    if g.len() == 0 {
    } else if ahead(x, g[0], side) {
        assert forall|i: int, j: int| 0 <= i < j < r.len() implies !ahead(#[trigger] r[j], #[trigger] r[i], side) by {
            if i == 0 {
                assert(r[j] == g[j - 1]);
                if j - 1 > 0 {
                    assert(!ahead(g[j - 1], g[0], side));
                }
            } else {
                assert(r[i] == g[i - 1] && r[j] == g[j - 1]);
            }
        }
    } else {
        let t = g.drop_first();
        assert forall|i: int, j: int| 0 <= i < j < t.len() implies !ahead(#[trigger] t[j], #[trigger] t[i], side) by {
            assert(t[i] == g[i + 1] && t[j] == g[j + 1]);
        }
        lemma_insert_ordered(t, x, side);
        lemma_insert_members(t, x, side);
        let rt = insert_entry(t, x, side);
        assert forall|i: int, j: int| 0 <= i < j < r.len() implies !ahead(#[trigger] r[j], #[trigger] r[i], side) by {
            if i == 0 {
                assert(r[0] == g[0]);
                assert(r[j] == rt[j - 1]);
                if rt[j - 1] != x {
                    let w = choose|w: int| 0 <= w < t.len() && t[w] == rt[j - 1];
                    assert(t[w] == g[w + 1]);
                    assert(!ahead(g[w + 1], g[0], side));
                }
            } else {
                assert(r[i] == rt[i - 1] && r[j] == rt[j - 1]);
            }
        }
    }
}

/// A split route consumes the merged book best price first: for a buy no
/// entry is cheaper than one taken before it, for a sell none is dearer.
pub proof fn law_book_consumed_best_first(s: Seq<BookEntry>, side: Side)
    ensures
        consumption_ordered(sorted_book(s, side), side),
    decreases s.len(),
{
    if s.len() > 0 {
        law_book_consumed_best_first(s.drop_last(), side);
        lemma_insert_ordered(sorted_book(s.drop_last(), side), s.last(), side);
    }
}

/// The best-price route goes to a provider no other beats, and to the first
/// of those with that price.
pub proof fn law_best_price_is_best(liq: Seq<ProviderLiquidity>, side: Side)
    requires
        liq.len() > 0,
    ensures
        0 <= best_index(liq, side) < liq.len(),
        forall|k: int|
            0 <= k < liq.len() ==> !better_price(
                #[trigger] liq[k].best_price as int,
                liq[best_index(liq, side)].best_price as int,
                side,
            ),
        forall|k: int|
            0 <= k < best_index(liq, side) ==> better_price(
                liq[best_index(liq, side)].best_price as int,
                #[trigger] liq[k].best_price as int,
                side,
            ),
    decreases liq.len(),
{
    if liq.len() > 1 {
        let d = liq.drop_last();
        law_best_price_is_best(d, side);
        let b = best_index(d, side);
        let bb = best_index(liq, side);
        assert(d[b] == liq[b]);
        assert forall|k: int|
            0 <= k < liq.len() implies !better_price(#[trigger] liq[k].best_price as int, liq[bb].best_price as int, side) by {
            if k < d.len() {
                assert(d[k] == liq[k]);
                assert(!better_price(d[k].best_price as int, d[b].best_price as int, side));
            }
        }
        assert forall|k: int|
            0 <= k < bb implies better_price(liq[bb].best_price as int, #[trigger] liq[k].best_price as int, side) by {
            assert(d[k] == liq[k]);
            assert(!better_price(d[k].best_price as int, d[b].best_price as int, side));
            if k < b {
                assert(better_price(d[b].best_price as int, d[k].best_price as int, side));
            }
        }
    }
}


// ─── Route requests ─────────────────────────────────────────

/// A provider's offer as provider id, best price, available quantity,
/// levels and fee rate.
pub open spec fn liquidity_view(l: ProviderLiquidity) -> (Seq<char>, int, int, Seq<BookLevel>, int) {
    (l.provider_id@, l.best_price as int, l.available_quantity as int, l.levels@, l.estimated_fee_ppm as int)
}

/// What a snapshot offers on `side` at fee rate `fee`.
pub open spec fn snapshot_offer(pid: Seq<char>, s: OrderBookSnapshot, side: Side, fee: int) -> (
    Seq<char>,
    int,
    int,
    Seq<BookLevel>,
    int,
) {
    let ls = parsed_levels(side_levels(s, side));
    (pid, best_level_price(ls, side), total_quantity(ls), ls, fee)
}

/// The offers of one provider's snapshots of the outcome that hold
/// something, in snapshot order.
pub open spec fn provider_offers(
    pid: Seq<char>,
    snaps: Seq<OrderBookSnapshot>,
    outcome: Seq<char>,
    side: Side,
    fee: int,
) -> Seq<(Seq<char>, int, int, Seq<BookLevel>, int)>
    decreases snaps.len(),
{
    if snaps.len() == 0 {
        Seq::empty()
    } else {
        let s = snaps.last();
        provider_offers(pid, snaps.drop_last(), outcome, side, fee) + if s.outcome_id@ == outcome && total_quantity(
            parsed_levels(side_levels(s, side)),
        ) > 0 {
            seq![snapshot_offer(pid, s, side, fee)]
        } else {
            Seq::empty()
        }
    }
}

/// The offers of every provider, provider by provider.
pub open spec fn all_offers(
    books: Seq<(String, Vec<OrderBookSnapshot>)>,
    outcome: Seq<char>,
    side: Side,
    fee: int,
) -> Seq<(Seq<char>, int, int, Seq<BookLevel>, int)>
    decreases books.len(),
{
    if books.len() == 0 {
        Seq::empty()
    } else {
        all_offers(books.drop_last(), outcome, side, fee) + provider_offers(
            books.last().0@,
            books.last().1@,
            outcome,
            side,
            fee,
        )
    }
}

/// Every snapshot of the outcome has running totals within `i64`.
pub open spec fn books_fit(books: Seq<(String, Vec<OrderBookSnapshot>)>, outcome: Seq<char>, side: Side) -> bool {
    forall|b: int, k: int|
        0 <= b < books.len() && 0 <= k < books[b].1@.len() && (#[trigger] books[b].1@[k]).outcome_id@ == outcome
            ==> running_totals_fit(parsed_levels(side_levels(books[b].1@[k], side)))
}

impl SmartRouter {
    /// The offers of every provider's snapshots of an outcome that hold
    /// something, provider by provider; `None` when a snapshot's quantities
    /// add up beyond `i64`.
    pub fn gather_liquidity(
        &self,
        books: &Vec<(String, Vec<OrderBookSnapshot>)>,
        outcome_id: &str,
        side: Side,
    ) -> (r: Option<Vec<ProviderLiquidity>>)
        ensures
            r is None <==> !books_fit(books@, outcome_id@, side),
            r matches Some(v) ==> v@.map_values(|l: ProviderLiquidity| liquidity_view(l)) == all_offers(
                books@,
                outcome_id@,
                side,
                self.fee_ppm() as int,
            ),
    {
        let ghost fee = self.fee_ppm() as int;
        let mut out: Vec<ProviderLiquidity> = Vec::new();
        let mut b: usize = 0;
        while b < books.len()
            invariant
                b <= books@.len(),
                fee == self.fee_ppm() as int,
                books_fit(books@.take(b as int), outcome_id@, side),
                out@.map_values(|l: ProviderLiquidity| liquidity_view(l)) == all_offers(books@.take(b as int), outcome_id@, side, fee),
            decreases books@.len() - b,
        {
            let pid = &books[b].0;
            let snaps = &books[b].1;
            let ghost head = out@.map_values(|l: ProviderLiquidity| liquidity_view(l));
            let mut k: usize = 0;
            while k < snaps.len()
                invariant
                    b < books@.len(),
                    k <= snaps@.len(),
                    snaps@ == books@[b as int].1@,
                    pid@ == books@[b as int].0@,
                    fee == self.fee_ppm() as int,
                    books_fit(books@.take(b as int), outcome_id@, side),
                    forall|j: int| 0 <= j < k && (#[trigger] snaps@[j]).outcome_id@ == outcome_id@
                        ==> running_totals_fit(parsed_levels(side_levels(snaps@[j], side))),
                    out@.map_values(|l: ProviderLiquidity| liquidity_view(l)) == head + provider_offers(pid@, snaps@.take(k as int), outcome_id@, side, fee),
                decreases snaps@.len() - k,
            {
                let s = &snaps[k];
                assert(snaps@.take(k as int + 1).drop_last() =~= snaps@.take(k as int));
                let ghost before = out@.map_values(|l: ProviderLiquidity| liquidity_view(l));
                if crate::text::str_eq(s.outcome_id.as_str(), outcome_id) {
                    match self.try_extract_liquidity(pid.as_str(), s, side) {
                        None => {
                            proof {
                                assert(books@[b as int].1@[k as int] == *s);
                                assert(!books_fit(books@, outcome_id@, side));
                            }
                            return None;
                        },
                        Some(l) => {
                            if l.available_quantity > 0 {
                                out.push(l);
                                assert(out@.map_values(|l: ProviderLiquidity| liquidity_view(l)) =~= before.push(snapshot_offer(pid@, *s, side, fee)));
                            }
                        },
                    }
                }
                assert(out@.map_values(|l: ProviderLiquidity| liquidity_view(l)) =~= head + provider_offers(pid@, snaps@.take(k as int + 1), outcome_id@, side, fee));
                k = k + 1;
            }
            assert(snaps@.take(snaps@.len() as int) =~= snaps@);
            proof {
                let t = books@.take(b as int + 1);
                assert(t.drop_last() =~= books@.take(b as int));
                assert(t.last() == books@[b as int]);
                assert forall|bb: int, kk: int|
                    0 <= bb < t.len() && 0 <= kk < t[bb].1@.len() && (#[trigger] t[bb].1@[kk]).outcome_id@ == outcome_id@
                        implies running_totals_fit(parsed_levels(side_levels(t[bb].1@[kk], side))) by {
                    if bb < b {
                        assert(t[bb] == books@.take(b as int)[bb]);
                    }
                }
            }
            b = b + 1;
        }
        assert(books@.take(books@.len() as int) =~= books@);
        Some(out)
    }
}


/// How many levels the offers hold together.
pub open spec fn levels_count(liq: Seq<ProviderLiquidity>) -> int
    decreases liq.len(),
{
    if liq.len() == 0 {
        0
    } else {
        levels_count(liq.drop_last()) + liq.last().levels@.len()
    }
}

proof fn lemma_entries_len(liq: Seq<ProviderLiquidity>)
    ensures
        entries_of(liq).len() == levels_count(liq),
    decreases liq.len(),
{
    if liq.len() > 0 {
        lemma_entries_len(liq.drop_last());
    }
}

/// `true` when offers are within the bounds routes are computed for.
pub fn routable_check(liq: &Vec<ProviderLiquidity>) -> (r: bool)
    ensures
        r == routable(liq@),
{
    proof {
        lemma_entries_len(liq@);
    }
    let mut count: u64 = 0;
    let mut p: usize = 0;
    while p < liq.len()
        invariant
            p <= liq@.len(),
            count == levels_count(liq@.take(p as int)),
            count < u32::MAX,
            forall|q: int, j: int|
                0 <= q < p && 0 <= j < liq@[q].levels@.len() ==> {
                    &&& 0 <= #[trigger] liq@[q].levels@[j].quantity
                    &&& -MAX_ROUTE_PRICE <= liq@[q].levels@[j].price <= MAX_ROUTE_PRICE
                },
            forall|q: int| 0 <= q < p ==> liquidity_priced(#[trigger] liq@[q]),
        decreases liq@.len() - p,
    {
        let l = &liq[p];
        assert(liq@.take(p as int + 1).drop_last() =~= liq@.take(p as int));
        if l.estimated_fee_ppm > MAX_FEE_PPM || l.best_price < -MAX_ROUTE_PRICE || l.best_price > MAX_ROUTE_PRICE {
            assert(!liquidity_priced(liq@[p as int]));
            assert(!priced(liq@));
            return false;
        }
        let mut j: usize = 0;
        while j < l.levels.len()
            invariant
                p < liq@.len(),
                *l == liq@[p as int],
                j <= l.levels@.len(),
                forall|jj: int| 0 <= jj < j ==> {
                    &&& 0 <= #[trigger] l.levels@[jj].quantity
                    &&& -MAX_ROUTE_PRICE <= l.levels@[jj].price <= MAX_ROUTE_PRICE
                },
            decreases l.levels@.len() - j,
        {
            let lv = l.levels[j];
            if lv.quantity < 0 || lv.price < -MAX_ROUTE_PRICE || lv.price > MAX_ROUTE_PRICE {
                assert(liq@[p as int].levels@[j as int] == lv);
                assert(!levels_ok(liq@));
                assert(!routable(liq@));
                return false;
            }
            j = j + 1;
        }
        assert forall|q: int, jj: int| 0 <= q < p + 1 && 0 <= jj < liq@[q].levels@.len() implies {
            &&& 0 <= #[trigger] liq@[q].levels@[jj].quantity
            &&& -MAX_ROUTE_PRICE <= liq@[q].levels@[jj].price <= MAX_ROUTE_PRICE
        } by {
            if q == p {
                assert(l.levels@[jj] == liq@[q].levels@[jj]);
            }
        }
        let more = l.levels.len() as u64;
        if more >= 0xFFFF_FFFFu64 - count {
            proof {
                assert(liq@.take(p as int + 1).last() == liq@[p as int]);
                assert(liq@.take(p as int + 1).drop_last() =~= liq@.take(p as int));
                assert(levels_count(liq@.take(p as int + 1)) == count + more);
                assert(levels_count(liq@.take(p as int + 1)) >= u32::MAX);
                lemma_levels_count_prefix(liq@, p as int + 1);
                lemma_entries_len(liq@);
                assert(!routable(liq@));
            }
            return false;
        }
        count = count + more;
        p = p + 1;
    }
    assert(liq@.take(liq@.len() as int) =~= liq@);
    assert(p == liq@.len());
    assert(levels_ok(liq@));
    assert(priced(liq@));
    true
}

proof fn lemma_levels_count_prefix(liq: Seq<ProviderLiquidity>, k: int)
    requires
        0 <= k <= liq.len(),
    ensures
        levels_count(liq.take(k)) <= levels_count(liq),
    decreases liq.len() - k,
{
    if k < liq.len() {
        lemma_levels_count_prefix(liq, k + 1);
        assert(liq.take(k + 1).drop_last() =~= liq.take(k));
    } else {
        assert(liq.take(k) =~= liq);
    }
}

/// What a best-price plan over some offers is: the whole order sent to
/// the provider with the best price, for as much as it holds.
pub open spec fn is_best_price_plan(
    plan: RoutingPlan,
    liq: Seq<ProviderLiquidity>,
    market: Seq<char>,
    outcome: Seq<char>,
    side: Side,
    quantity: int,
) -> bool {
    let l = liq[best_index(liq, side)];
    let fill = if quantity < l.available_quantity { quantity } else { l.available_quantity as int };
    is_single_leg_plan(
        plan,
        l.provider_id@,
        l.best_price as int,
        l.available_quantity as int,
        l.estimated_fee_ppm as int,
        fill,
        liq.len() as int,
        market,
        outcome,
        side,
        quantity,
    )
}

/// `plan` sends the whole order to `pid` at the best price of the first
/// snapshot of the outcome.
pub open spec fn direct_plan_made(
    plan: RoutingPlan,
    pid: Seq<char>,
    ss: Seq<OrderBookSnapshot>,
    fee: int,
    market: Seq<char>,
    outcome: Seq<char>,
    side: Side,
    quantity: int,
) -> bool {
    exists|k: int| #[trigger] is_first_book(ss, outcome, k) && is_single_leg_plan(
        plan,
        pid,
        best_level_price(parsed_levels(side_levels(ss[k], side)), side),
        total_quantity(parsed_levels(side_levels(ss[k], side))),
        fee,
        quantity,
        1,
        market,
        outcome,
        side,
        quantity,
    )
}

/// Some snapshot is of the outcome.
pub open spec fn has_outcome_book(ss: Seq<OrderBookSnapshot>, outcome: Seq<char>) -> bool {
    exists|k: int| is_first_book(ss, outcome, k)
}

/// The `k`-th snapshot is the first one of the outcome.
pub open spec fn is_first_book(ss: Seq<OrderBookSnapshot>, outcome: Seq<char>, k: int) -> bool {
    &&& 0 <= k < ss.len()
    &&& ss[k].outcome_id@ == outcome
    &&& forall|j: int| 0 <= j < k ==> (#[trigger] ss[j]).outcome_id@ != outcome
}

impl SmartRouter {
    /// The plan for an order over the gathered offers, by best price or
    /// split: an error when nothing is offered, or when the offers are out
    /// of the bounds routes are computed for. Counts one computed route.
    pub fn plan_route(
        &self,
        liquidity: &Vec<ProviderLiquidity>,
        market_native_id: &str,
        outcome_id: &str,
        side: Side,
        quantity: i64,
        strategy: RoutingStrategy,
    ) -> (r: Result<RoutingPlan, String>)
        requires
            strategy != RoutingStrategy::DirectRoute,
        ensures
            liquidity@.len() == 0 ==> (r matches Err(m) && m@ == "No liquidity available across any provider"@),
            liquidity@.len() > 0 && !routable(liquidity@) ==> (r matches Err(m) && m@
                == "Order book prices out of range"@),
            liquidity@.len() > 0 && routable(liquidity@) ==> (r matches Ok(plan) && (if strategy
                == RoutingStrategy::BestPrice {
                is_best_price_plan(plan, liquidity@, market_native_id@, outcome_id@, side, quantity as int)
            } else {
                is_split_plan(
                    plan,
                    liquidity@,
                    self.fee_ppm() as int,
                    market_native_id@,
                    outcome_id@,
                    side,
                    quantity as int,
                )
            })),
    {
        self.note_route_computed();
        if liquidity.len() == 0 {
            return Err("No liquidity available across any provider".to_string());
        }
        if !routable_check(liquidity) {
            return Err("Order book prices out of range".to_string());
        }
        match strategy {
            RoutingStrategy::BestPrice => Ok(
                self.route_best_price(liquidity, market_native_id, outcome_id, side, quantity),
            ),
            _ => Ok(self.route_split_optimal(liquidity, market_native_id, outcome_id, side, quantity)),
        }
    }

    /// The plan for an order sent to one named provider: an error when no
    /// provider is named, when it is not known (`snapshots` is `None`),
    /// when it has no book for the outcome, or when its book is out of the
    /// bounds routes are computed for.
    pub fn plan_direct_route(
        &self,
        preferred_provider: Option<&str>,
        snapshots: Option<&Vec<OrderBookSnapshot>>,
        market_native_id: &str,
        outcome_id: &str,
        side: Side,
        quantity: i64,
    ) -> (r: Result<RoutingPlan, String>)
        ensures
            preferred_provider is None ==> (r matches Err(m) && m@ == "DirectRoute requires a preferred_provider"@),
            match (preferred_provider, snapshots) {
                (Some(pid), None) => r matches Err(m) && m@ == "Provider not found: "@ + pid@,
                (Some(pid), Some(ss)) => !has_outcome_book(ss@, outcome_id@) ==> (r matches Err(m) && m@
                    == "No orderbook data for outcome"@),
                _ => true,
            },
            r is Ok ==> preferred_provider is Some && snapshots is Some,
            r is Ok ==> direct_plan_made(r->Ok_0, preferred_provider->Some_0@, snapshots->Some_0@, self.fee_ppm() as int,
                market_native_id@, outcome_id@, side, quantity as int),
            match r {
                Ok(plan) => true,
                Err(m) => match (preferred_provider, snapshots) {
                    (Some(pid), Some(ss)) => has_outcome_book(ss@, outcome_id@) ==> (m@ == "Order book quantities too large"@
                        || m@ == "Order book prices out of range"@),
                    _ => true,
                },
            },
    {
        proof {
            reveal_strlit("Provider not found: ");
        }
        let pid = match preferred_provider {
            Some(p) => p,
            None => {
                return Err("DirectRoute requires a preferred_provider".to_string());
            },
        };
        let ss = match snapshots {
            Some(ss) => ss,
            None => {
                let mut m = "Provider not found: ".to_string();
                m.append(pid);
                return Err(m);
            },
        };
        let mut k: usize = 0;
        while k < ss.len()
            invariant
                k <= ss@.len(),
                preferred_provider == Some(pid),
                snapshots == Some(ss),
                forall|j: int| 0 <= j < k ==> (#[trigger] ss@[j]).outcome_id@ != outcome_id@,
            decreases ss@.len() - k,
        {
            if crate::text::str_eq(ss[k].outcome_id.as_str(), outcome_id) {
                assert(ss@[k as int].outcome_id@ == outcome_id@);
                assert(is_first_book(ss@, outcome_id@, k as int));
                self.note_route_computed();
                let l = match self.try_extract_liquidity(pid, &ss[k], side) {
                    None => {
                        return Err("Order book quantities too large".to_string());
                    },
                    Some(l) => l,
                };
                if l.estimated_fee_ppm > MAX_FEE_PPM || l.best_price < -MAX_ROUTE_PRICE || l.best_price > MAX_ROUTE_PRICE {
                    return Err("Order book prices out of range".to_string());
                }
                let plan = self.plan_direct(&l, pid, market_native_id, outcome_id, side, quantity);
                let ghost kk = k as int;
                assert(is_first_book(ss@, outcome_id@, kk));
                assert(is_single_leg_plan(
                    plan,
                    pid@,
                    best_level_price(parsed_levels(side_levels(ss@[kk], side)), side),
                    total_quantity(parsed_levels(side_levels(ss@[kk], side))),
                    self.fee_ppm() as int,
                    quantity as int,
                    1,
                    market_native_id@,
                    outcome_id@,
                    side,
                    quantity as int,
                ));
                assert(direct_plan_made(plan, pid@, ss@, self.fee_ppm() as int, market_native_id@, outcome_id@, side, quantity as int));
                return Ok(plan);
            }
            k = k + 1;
        }
        assert(!has_outcome_book(ss@, outcome_id@)) by {
            if has_outcome_book(ss@, outcome_id@) {
                let w = choose|w: int| is_first_book(ss@, outcome_id@, w);
                assert(ss@[w].outcome_id@ != outcome_id@);
            }
        }
        Err("No orderbook data for outcome".to_string())
    }
}


// ─── Best execution ─────────────────────────────────────────

/// Amounts taken from the entries `i..` of a book, one per entry.
pub open spec fn allocation_total(a: Seq<int>, i: int) -> int
    decreases a.len() - i,
{
    if i < 0 || i >= a.len() {
        0
    } else {
        a[i] + allocation_total(a, i + 1)
    }
}

/// Price times amount over the entries `i..` of a book.
pub open spec fn allocation_cost(book: Seq<BookEntry>, a: Seq<int>, i: int) -> int
    decreases a.len() - i,
{
    if i < 0 || i >= a.len() {
        0
    } else {
        book[i].price * a[i] + allocation_cost(book, a, i + 1)
    }
}

/// A way of taking amounts from the entries of a book: one amount per
/// entry, none negative or above the entry's quantity.
pub open spec fn feasible_allocation(book: Seq<BookEntry>, a: Seq<int>) -> bool {
    a.len() == book.len() && forall|k: int| 0 <= k < a.len() ==> 0 <= #[trigger] a[k] <= book[k].quantity
}

/// What a difference in cost means to the side: a buyer gains by paying
/// less, a seller by receiving more.
pub open spec fn side_gain(side: Side, x: int) -> int {
    match side {
        Side::Buy => x,
        Side::Sell => -x,
    }
}

/// The price of entry `i`, or zero past the end.
pub open spec fn price_at(book: Seq<BookEntry>, i: int) -> int {
    if 0 <= i < book.len() { book[i].price as int } else { 0 }
}

proof fn lemma_fills_cost_prepend(a: (BookEntry, int), r: Seq<(BookEntry, int)>)
    ensures
        fills_cost(seq![a] + r) == a.0.price * a.1 + fills_cost(r),
    decreases r.len(),
{
    let c = seq![a] + r;
    if r.len() > 0 {
        assert(c.drop_last() =~= seq![a] + r.drop_last());
        assert(c.last() == r.last());
        lemma_fills_cost_prepend(a, r.drop_last());
    } else {
        assert(c.drop_last() =~= Seq::<(BookEntry, int)>::empty());
        assert(c.last() == a);
        assert(fills_cost(Seq::<(BookEntry, int)>::empty()) == 0);
    }
}

proof fn lemma_allocation_total_nonneg(book: Seq<BookEntry>, a: Seq<int>, i: int)
    requires
        feasible_allocation(book, a),
        0 <= i,
    ensures
        allocation_total(a, i) >= 0,
    decreases a.len() - i,
{
    if i < a.len() {
        lemma_allocation_total_nonneg(book, a, i + 1);
    }
}

/// Against any allocation of the entries `i..` that takes `e` more than the
/// walk from `i`, the walk does at least as well, by at least `e` times the
/// price of entry `i` (no later entry is priced better).
proof fn lemma_walk_does_best(book: Seq<BookEntry>, side: Side, a: Seq<int>, i: int, remaining: int, e: int)
    requires
        0 <= i <= book.len(),
        feasible_allocation(book, a),
        consumption_ordered(book, side),
        e >= 0,
        allocation_total(a, i) == fills_quantity(walk(book, i, remaining)) + e,
    ensures
        side_gain(side, allocation_cost(book, a, i) - fills_cost(walk(book, i, remaining))) >= e * side_gain(
            side,
            price_at(book, i),
        ),
    decreases book.len() - i,
{
    if i == book.len() {
        assert(walk(book, i, remaining) =~= Seq::<(BookEntry, int)>::empty());
        assert(fills_quantity(Seq::<(BookEntry, int)>::empty()) == 0);
        assert(fills_cost(Seq::<(BookEntry, int)>::empty()) == 0);
    } else {
        let p = book[i].price as int;
        let ai = a[i];
        let sp = side_gain(side, p);
        let sq = side_gain(side, price_at(book, i + 1));
        lemma_allocation_total_nonneg(book, a, i + 1);
        if i + 1 < book.len() {
            assert(!ahead(book[i + 1], book[i], side));
            assert(sp <= sq);
        }
        let f: int = if remaining <= 0 { 0 } else if remaining < book[i].quantity { remaining } else { book[i].quantity as int };
        let rest = walk(book, i + 1, remaining - f);
        if remaining <= 0 {
            assert(walk(book, i, remaining) =~= Seq::<(BookEntry, int)>::empty());
            assert(walk(book, i + 1, remaining) =~= Seq::<(BookEntry, int)>::empty());
            assert(fills_quantity(Seq::<(BookEntry, int)>::empty()) == 0);
            assert(fills_cost(Seq::<(BookEntry, int)>::empty()) == 0);
        } else {
            lemma_fills_quantity_prepend((book[i], f), rest);
            lemma_fills_cost_prepend((book[i], f), rest);
            if ai > f {
                assert(walk(book, i + 1, 0) =~= Seq::<(BookEntry, int)>::empty());
                assert(fills_quantity(Seq::<(BookEntry, int)>::empty()) == 0);
            }
        }
        let e2 = allocation_total(a, i + 1) - fills_quantity(rest);
        assert(e2 == f + e - ai);
        assert(e2 >= 0);
        lemma_walk_does_best(book, side, a, i + 1, remaining - f, e2);
        if i + 1 == book.len() {
            assert(allocation_total(a, i + 1) == 0);
            lemma_fills_quantity_nonneg_walk(book, i + 1, remaining - f);
            assert(e2 == 0);
        }
        let d = allocation_cost(book, a, i + 1) - fills_cost(rest);
        assert(side_gain(side, d) >= e2 * sq);
        if i + 1 < book.len() {
            assert(e2 * sq >= e2 * sp) by (nonlinear_arith)
                requires
                    e2 >= 0,
                    sp <= sq,
            ;
        } else {
            assert(e2 * sq == 0 && e2 * sp == 0) by (nonlinear_arith)
                requires
                    e2 == 0,
            ;
        }
        if remaining <= 0 {
            assert(p * f == 0) by (nonlinear_arith)
                requires
                    f == 0,
            ;
            assert(fills_cost(walk(book, i, remaining)) == p * f + fills_cost(rest));
        } else {
            assert(walk(book, i, remaining) == seq![(book[i], f)] + rest);
            assert(fills_cost(walk(book, i, remaining)) == p * f + fills_cost(rest));
        }
        assert(allocation_cost(book, a, i) == p * ai + allocation_cost(book, a, i + 1));
        assert(sp * ai - sp * f + e2 * sp == e * sp) by (nonlinear_arith)
            requires
                e2 == f + e - ai,
        ;
        match side {
            Side::Buy => {
                assert(p * ai - p * f == sp * ai - sp * f);
            },
            Side::Sell => {
                assert(-(p * ai - p * f) == sp * ai - sp * f) by (nonlinear_arith)
                    requires
                        sp == -p,
                ;
            },
        }
    }
}

proof fn lemma_fills_quantity_nonneg_walk(book: Seq<BookEntry>, i: int, remaining: int)
    requires
        0 <= i,
        i >= book.len(),
    ensures
        fills_quantity(walk(book, i, remaining)) == 0,
{
    assert(walk(book, i, remaining) =~= Seq::<(BookEntry, int)>::empty());
    assert(fills_quantity(Seq::<(BookEntry, int)>::empty()) == 0);
}

/// Best execution of a split route: however the same quantity is taken
/// from the entries of the merged book, a buy pays at least what the
/// route's fills cost, and a sell receives at most what they bring.
pub proof fn law_split_is_best_execution(liq: Seq<ProviderLiquidity>, side: Side, quantity: int, a: Seq<int>)
    requires
        feasible_allocation(sorted_book(entries_of(liq), side), a),
        allocation_total(a, 0) == fills_quantity(split_fills(liq, side, quantity)),
    ensures
        side == Side::Buy ==> fills_cost(split_fills(liq, side, quantity)) <= allocation_cost(
            sorted_book(entries_of(liq), side),
            a,
            0,
        ),
        side == Side::Sell ==> fills_cost(split_fills(liq, side, quantity)) >= allocation_cost(
            sorted_book(entries_of(liq), side),
            a,
            0,
        ),
{
    let g = sorted_book(entries_of(liq), side);
    law_book_consumed_best_first(entries_of(liq), side);
    lemma_walk_does_best(g, side, a, 0, quantity, 0);
}

} // verus!
