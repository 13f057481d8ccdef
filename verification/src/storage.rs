//! In-memory storage of orders, trades and cached market data.
use dashmap::DashMap;
use vstd::prelude::*;
use crate::hardening::clock_millis;
use crate::text::str_eq;

verus! {

/// An order as stored.
#[derive(Debug, Clone)]
pub struct StoredOrder {
    pub order_id: String,
    pub provider: String,
    pub market_id: String,
    pub outcome_id: String,
    /// `buy` or `sell`.
    pub side: String,
    pub price: String,
    pub quantity: i64,
    /// `pending`, `filled`, `cancelled` or `rejected`.
    pub status: String,
    /// RFC 3339.
    pub created_at: String,
    pub updated_at: String,
    pub provider_order_id: Option<String>,
}

/// A trade as stored.
#[derive(Debug, Clone)]
pub struct StoredTrade {
    pub trade_id: String,
    pub order_id: String,
    pub provider: String,
    pub market_id: String,
    pub side: String,
    pub price: String,
    pub quantity: i64,
    pub fee: String,
    /// RFC 3339.
    pub executed_at: String,
}

/// Which orders to list: every given field must match; at most `limit`.
#[derive(Debug, Clone)]
pub struct OrderFilter {
    pub provider: Option<String>,
    pub market_id: Option<String>,
    pub status: Option<String>,
    pub limit: usize,
}

/// Which trades to list: every given field must match; at most `limit`.
#[derive(Debug, Clone)]
pub struct TradeFilter {
    pub provider: Option<String>,
    pub market_id: Option<String>,
    pub order_id: Option<String>,
    pub limit: usize,
}

/// Market data kept in the cache, with when it was stored and for how long.
#[derive(Debug, Clone)]
pub struct CachedMarket {
    pub data: String,
    /// Milliseconds since the Unix epoch.
    pub cached_at_ms: u64,
    pub ttl_secs: u64,
}

impl StoredOrder {
    /// A field-by-field copy.
    pub fn duplicate(&self) -> (r: Self)
        ensures
            r == *self,
    {
        StoredOrder {
            order_id: self.order_id.clone(),
            provider: self.provider.clone(),
            market_id: self.market_id.clone(),
            outcome_id: self.outcome_id.clone(),
            side: self.side.clone(),
            price: self.price.clone(),
            quantity: self.quantity,
            status: self.status.clone(),
            created_at: self.created_at.clone(),
            updated_at: self.updated_at.clone(),
            provider_order_id: match &self.provider_order_id {
                Some(p) => Some(p.clone()),
                None => None,
            },
        }
    }
}

impl StoredTrade {
    /// A field-by-field copy.
    pub fn duplicate(&self) -> (r: Self)
        ensures
            r == *self,
    {
        StoredTrade {
            trade_id: self.trade_id.clone(),
            order_id: self.order_id.clone(),
            provider: self.provider.clone(),
            market_id: self.market_id.clone(),
            side: self.side.clone(),
            price: self.price.clone(),
            quantity: self.quantity,
            fee: self.fee.clone(),
            executed_at: self.executed_at.clone(),
        }
    }
}

// ─── The maps ───────────────────────────────────────────────

/// Orders by identifier.
pub type OrderMap = DashMap<String, StoredOrder>;

/// Trades by identifier.
pub type TradeMap = DashMap<String, StoredTrade>;

/// Cached market data by market identifier.
pub type CacheMap = DashMap<String, CachedMarket>;

/// What an order map holds, by the text of the identifier.
pub uninterp spec fn order_book(m: DashMap<String, StoredOrder>) -> Map<Seq<char>, StoredOrder>;

/// What a trade map holds, by the text of the identifier.
pub uninterp spec fn trade_book(m: DashMap<String, StoredTrade>) -> Map<Seq<char>, StoredTrade>;

/// What a cache map holds, by the text of the market identifier.
pub uninterp spec fn cache_book(m: DashMap<String, CachedMarket>) -> Map<Seq<char>, CachedMarket>;

/// `DashMap::new` for orders: empty.
#[verifier::external_body]
fn new_order_map() -> (m: OrderMap)
    ensures
        order_book(m).dom() == Set::<Seq<char>>::empty(),
{
    DashMap::new()
}

/// `DashMap::new` for trades: empty.
#[verifier::external_body]
fn new_trade_map() -> (m: TradeMap)
    ensures
        trade_book(m).dom() == Set::<Seq<char>>::empty(),
{
    DashMap::new()
}

/// `DashMap::new` for the cache: empty.
#[verifier::external_body]
fn new_cache_map() -> (m: CacheMap)
    ensures
        cache_book(m).dom() == Set::<Seq<char>>::empty(),
{
    DashMap::new()
}

/// `DashMap::insert` of an order: the identifier now maps to it.
#[verifier::external_body]
fn put_order(m: &mut OrderMap, key: String, order: StoredOrder)
    ensures
        order_book(*final(m)) == order_book(*old(m)).insert(key@, order),
{
    m.insert(key, order);
}

/// `DashMap::insert` of a trade: the identifier now maps to it.
#[verifier::external_body]
fn put_trade(m: &mut TradeMap, key: String, trade: StoredTrade)
    ensures
        trade_book(*final(m)) == trade_book(*old(m)).insert(key@, trade),
{
    m.insert(key, trade);
}

/// `DashMap::insert` into the cache: the market now maps to the entry.
#[verifier::external_body]
fn put_cached(m: &mut CacheMap, key: String, entry: CachedMarket)
    ensures
        cache_book(*final(m)) == cache_book(*old(m)).insert(key@, entry),
{
    m.insert(key, entry);
}

/// `DashMap::remove` from the cache: the market maps to nothing any more.
#[verifier::external_body]
fn drop_cached(m: &mut CacheMap, key: &str)
    ensures
        cache_book(*final(m)) == cache_book(*old(m)).remove(key@),
{
    m.remove(key);
}

/// `DashMap::get` of an order, copied out.
#[verifier::external_body]
fn order_under(m: &OrderMap, key: &str) -> (r: Option<StoredOrder>)
    ensures
        r == (if order_book(*m).dom().contains(key@) { Some(order_book(*m)[key@]) } else { None }),
{
    m.get(key).map(|e| e.value().clone())
}

/// `DashMap::get` of a cache entry, copied out.
#[verifier::external_body]
fn cached_under(m: &CacheMap, key: &str) -> (r: Option<CachedMarket>)
    ensures
        r == (if cache_book(*m).dom().contains(key@) { Some(cache_book(*m)[key@]) } else { None }),
{
    m.get(key).map(|e| e.value().clone())
}

/// `DashMap::len` of the orders.
#[verifier::external_body]
fn order_total(m: &OrderMap) -> (r: usize)
    ensures
        r == order_book(*m).dom().len(),
{
    m.len()
}

/// `DashMap::len` of the trades.
#[verifier::external_body]
fn trade_total(m: &TradeMap) -> (r: usize)
    ensures
        r == trade_book(*m).dom().len(),
{
    m.len()
}

/// `DashMap::iter` over the orders, copying each out in the map's own
/// order, which is left open: each stored order once.
#[verifier::external_body]
fn order_values(m: &OrderMap) -> (r: Vec<StoredOrder>)
    ensures
        lists_values(r@, order_book(*m)),
{
    m.iter().map(|e| e.value().clone()).collect()
}

/// `DashMap::iter` over the trades, copying each out in the map's own
/// order, which is left open: each stored trade once.
#[verifier::external_body]
fn trade_values(m: &TradeMap) -> (r: Vec<StoredTrade>)
    ensures
        lists_values(r@, trade_book(*m)),
{
    m.iter().map(|e| e.value().clone()).collect()
}

/// `vs` lists the values of `book` once each, in some order: there is a
/// one-to-one matching of its positions with the keys.
pub open spec fn lists_values<V>(vs: Seq<V>, book: Map<Seq<char>, V>) -> bool {
    exists|keys: Seq<Seq<char>>| {
        &&& keys.len() == vs.len()
        &&& keys.no_duplicates()
        &&& forall|i: int| 0 <= i < keys.len() ==> book.dom().contains(#[trigger] keys[i]) && book[keys[i]] == vs[i]
        &&& forall|k: Seq<char>| #[trigger] book.dom().contains(k) ==> keys.contains(k)
    }
}

// ─── Filters and order ──────────────────────────────────────

/// `a` sorts strictly before `b`, comparing characters left to right.
pub open spec fn text_less(a: Seq<char>, b: Seq<char>) -> bool
    decreases a.len(),
{
    if a.len() == 0 {
        b.len() > 0
    } else if b.len() == 0 {
        false
    } else if a[0] != b[0] {
        a[0] < b[0]
    } else {
        text_less(a.drop_first(), b.drop_first())
    }
}

/// Compare two texts.
fn less_text(a: &str, b: &str) -> (r: bool)
    ensures
        r == text_less(a@, b@),
{
    let n = a.unicode_len();
    let m = b.unicode_len();
    let mut i: usize = 0;
    assert(a@.skip(0) =~= a@ && b@.skip(0) =~= b@);
    while i < n && i < m && a.get_char(i) == b.get_char(i)
        invariant
            n == a@.len(),
            m == b@.len(),
            i <= n,
            i <= m,
            text_less(a@, b@) == text_less(a@.skip(i as int), b@.skip(i as int)),
        decreases n - i,
    {
        proof {
            assert(a@.skip(i as int).drop_first() =~= a@.skip(i as int + 1));
            assert(b@.skip(i as int).drop_first() =~= b@.skip(i as int + 1));
        }
        i = i + 1;
    }
    if i == n {
        i < m
    } else if i == m {
        false
    } else {
        a.get_char(i) < b.get_char(i)
    }
}

/// An optional filter value admits a field.
pub open spec fn admits(f: Option<String>, field: Seq<char>) -> bool {
    match f {
        Some(v) => v@ == field,
        None => true,
    }
}

fn admits_exec(f: &Option<String>, field: &String) -> (r: bool)
    ensures
        r == admits(*f, field@),
{
    match f {
        Some(v) => str_eq(v.as_str(), field.as_str()),
        None => true,
    }
}

/// The order passes the filter.
pub open spec fn order_matches(o: StoredOrder, f: OrderFilter) -> bool {
    admits(f.provider, o.provider@) && admits(f.market_id, o.market_id@) && admits(f.status, o.status@)
}

/// The trade passes the filter.
pub open spec fn trade_matches(t: StoredTrade, f: TradeFilter) -> bool {
    admits(f.provider, t.provider@) && admits(f.market_id, t.market_id@) && admits(f.order_id, t.order_id@)
}

/// The orders that pass, in order.
pub open spec fn matching_orders(s: Seq<StoredOrder>, f: OrderFilter) -> Seq<StoredOrder>
    decreases s.len(),
{
    if s.len() == 0 {
        Seq::empty()
    } else {
        let r = matching_orders(s.drop_last(), f);
        if order_matches(s.last(), f) { r.push(s.last()) } else { r }
    }
}

/// The trades that pass, in order.
pub open spec fn matching_trades(s: Seq<StoredTrade>, f: TradeFilter) -> Seq<StoredTrade>
    decreases s.len(),
{
    if s.len() == 0 {
        Seq::empty()
    } else {
        let r = matching_trades(s.drop_last(), f);
        if trade_matches(s.last(), f) { r.push(s.last()) } else { r }
    }
}

/// `o` placed into orders newest first: before the first one created
/// strictly earlier, so that equal times keep their order.
pub open spec fn insert_newest_order(g: Seq<StoredOrder>, o: StoredOrder) -> Seq<StoredOrder>
    decreases g.len(),
{
    if g.len() == 0 {
        seq![o]
    } else if text_less(g[0].created_at@, o.created_at@) {
        seq![o] + g
    } else {
        seq![g[0]] + insert_newest_order(g.drop_first(), o)
    }
}

/// Orders newest first, ties in their original order.
pub open spec fn newest_orders(s: Seq<StoredOrder>) -> Seq<StoredOrder>
    decreases s.len(),
{
    if s.len() == 0 {
        Seq::empty()
    } else {
        insert_newest_order(newest_orders(s.drop_last()), s.last())
    }
}

/// `t` placed into trades newest first, ties kept in order.
pub open spec fn insert_newest_trade(g: Seq<StoredTrade>, t: StoredTrade) -> Seq<StoredTrade>
    decreases g.len(),
{
    if g.len() == 0 {
        seq![t]
    } else if text_less(g[0].executed_at@, t.executed_at@) {
        seq![t] + g
    } else {
        seq![g[0]] + insert_newest_trade(g.drop_first(), t)
    }
}

/// Trades newest first, ties in their original order.
pub open spec fn newest_trades(s: Seq<StoredTrade>) -> Seq<StoredTrade>
    decreases s.len(),
{
    if s.len() == 0 {
        Seq::empty()
    } else {
        insert_newest_trade(newest_trades(s.drop_last()), s.last())
    }
}

/// The first `n` of a sequence, or all of it.
pub open spec fn at_most<A>(s: Seq<A>, n: int) -> Seq<A> {
    if n < s.len() { s.take(n) } else { s }
}

proof fn lemma_insert_order_at(g: Seq<StoredOrder>, o: StoredOrder, p: int)
    requires
        0 <= p <= g.len(),
        forall|k: int| 0 <= k < p ==> !text_less((#[trigger] g[k]).created_at@, o.created_at@),
        p < g.len() ==> text_less(g[p].created_at@, o.created_at@),
    ensures
        insert_newest_order(g, o) == g.insert(p, o),
    decreases p,
{
    if p == 0 {
        if g.len() == 0 {
            assert(g.insert(0, o) =~= seq![o]);
        } else {
            assert(g.insert(0, o) =~= seq![o] + g);
        }
    } else {
        let t = g.drop_first();
        assert(!text_less(g[0].created_at@, o.created_at@));
        assert forall|k: int| 0 <= k < p - 1 implies !text_less((#[trigger] t[k]).created_at@, o.created_at@) by {
            assert(t[k] == g[k + 1]);
        }
        lemma_insert_order_at(t, o, p - 1);
        assert(seq![g[0]] + t.insert(p - 1, o) =~= g.insert(p, o));
    }
}

proof fn lemma_insert_trade_at(g: Seq<StoredTrade>, o: StoredTrade, p: int)
    requires
        0 <= p <= g.len(),
        forall|k: int| 0 <= k < p ==> !text_less((#[trigger] g[k]).executed_at@, o.executed_at@),
        p < g.len() ==> text_less(g[p].executed_at@, o.executed_at@),
    ensures
        insert_newest_trade(g, o) == g.insert(p, o),
    decreases p,
{
    if p == 0 {
        if g.len() == 0 {
            assert(g.insert(0, o) =~= seq![o]);
        } else {
            assert(g.insert(0, o) =~= seq![o] + g);
        }
    } else {
        let t = g.drop_first();
        assert(!text_less(g[0].executed_at@, o.executed_at@));
        assert forall|k: int| 0 <= k < p - 1 implies !text_less((#[trigger] t[k]).executed_at@, o.executed_at@) by {
            assert(t[k] == g[k + 1]);
        }
        lemma_insert_trade_at(t, o, p - 1);
        assert(seq![g[0]] + t.insert(p - 1, o) =~= g.insert(p, o));
    }
}

/// The orders that pass the filter, newest first (by creation time as
/// text; equal times keep their order in `all`), at most `limit` of them.
pub fn select_orders(all: &Vec<StoredOrder>, filter: &OrderFilter) -> (r: Vec<StoredOrder>)
    ensures
        r@ == at_most(newest_orders(matching_orders(all@, *filter)), filter.limit as int),
{
    let mut sorted: Vec<StoredOrder> = Vec::new();
    let mut i: usize = 0;
    while i < all.len()
        invariant
            i <= all@.len(),
            sorted@ == newest_orders(matching_orders(all@.take(i as int), *filter)),
        decreases all@.len() - i,
    {
        let o = &all[i];
        let ghost t = all@.take(i as int + 1);
        assert(t.drop_last() =~= all@.take(i as int));
        assert(t.last() == *o);
        assert(t.last() == *o);
        if admits_exec(&filter.provider, &o.provider) && admits_exec(&filter.market_id, &o.market_id)
            && admits_exec(&filter.status, &o.status) {
            let ghost g = sorted@;
            let mut p: usize = 0;
            let mut found = false;
            while p < sorted.len() && !found
                invariant
                    g == sorted@,
                    p <= sorted@.len(),
                    forall|k: int| 0 <= k < p ==> !text_less((#[trigger] sorted@[k]).created_at@, o.created_at@),
                    found ==> p < sorted@.len() && text_less(sorted@[p as int].created_at@, o.created_at@),
                decreases sorted@.len() - p, (if found { 0int } else { 1int }),
            {
                if less_text(sorted[p].created_at.as_str(), o.created_at.as_str()) {
                    found = true;
                } else {
                    p = p + 1;
                }
            }
            proof {
                lemma_insert_order_at(g, *o, p as int);
                let m = matching_orders(t, *filter);
                assert(m.drop_last() =~= matching_orders(all@.take(i as int), *filter));
                assert(m.last() == *o);
            }
            sorted.insert(p, o.duplicate());
        }
        i = i + 1;
    }
    assert(all@.take(all@.len() as int) =~= all@);
    if filter.limit < sorted.len() {
        sorted.truncate(filter.limit);
    }
    sorted
}

/// The trades that pass the filter, newest first (by execution time as
/// text; equal times keep their order in `all`), at most `limit` of them.
pub fn select_trades(all: &Vec<StoredTrade>, filter: &TradeFilter) -> (r: Vec<StoredTrade>)
    ensures
        r@ == at_most(newest_trades(matching_trades(all@, *filter)), filter.limit as int),
{
    let mut sorted: Vec<StoredTrade> = Vec::new();
    let mut i: usize = 0;
    while i < all.len()
        invariant
            i <= all@.len(),
            sorted@ == newest_trades(matching_trades(all@.take(i as int), *filter)),
        decreases all@.len() - i,
    {
        let o = &all[i];
        let ghost t = all@.take(i as int + 1);
        assert(t.drop_last() =~= all@.take(i as int));
        assert(t.last() == *o);
        assert(t.last() == *o);
        if admits_exec(&filter.provider, &o.provider) && admits_exec(&filter.market_id, &o.market_id)
            && admits_exec(&filter.order_id, &o.order_id) {
            let ghost g = sorted@;
            let mut p: usize = 0;
            let mut found = false;
            while p < sorted.len() && !found
                invariant
                    g == sorted@,
                    p <= sorted@.len(),
                    forall|k: int| 0 <= k < p ==> !text_less((#[trigger] sorted@[k]).executed_at@, o.executed_at@),
                    found ==> p < sorted@.len() && text_less(sorted@[p as int].executed_at@, o.executed_at@),
                decreases sorted@.len() - p, (if found { 0int } else { 1int }),
            {
                if less_text(sorted[p].executed_at.as_str(), o.executed_at.as_str()) {
                    found = true;
                } else {
                    p = p + 1;
                }
            }
            proof {
                lemma_insert_trade_at(g, *o, p as int);
                let m = matching_trades(t, *filter);
                assert(m.drop_last() =~= matching_trades(all@.take(i as int), *filter));
                assert(m.last() == *o);
            }
            sorted.insert(p, o.duplicate());
        }
        i = i + 1;
    }
    assert(all@.take(all@.len() as int) =~= all@);
    if filter.limit < sorted.len() {
        sorted.truncate(filter.limit);
    }
    sorted
}

// ─── The store ──────────────────────────────────────────────

/// Orders, trades and cached market data, in memory.
pub struct InMemoryStorage {
    orders: OrderMap,
    trades: TradeMap,
    market_cache: CacheMap,
}

impl InMemoryStorage {
    /// Orders by identifier.
    pub closed spec fn orders(&self) -> Map<Seq<char>, StoredOrder> {
        order_book(self.orders)
    }

    /// Trades by identifier.
    pub closed spec fn trades(&self) -> Map<Seq<char>, StoredTrade> {
        trade_book(self.trades)
    }

    /// Cached entries by market identifier.
    pub closed spec fn cache(&self) -> Map<Seq<char>, CachedMarket> {
        cache_book(self.market_cache)
    }

    /// Finitely many orders, trades and cache entries.
    pub closed spec fn wf(&self) -> bool {
        &&& order_book(self.orders).dom().finite()
        &&& trade_book(self.trades).dom().finite()
        &&& cache_book(self.market_cache).dom().finite()
    }

    /// An empty store.
    pub fn new() -> (s: Self)
        ensures
            s.wf(),
            s.orders().dom() == Set::<Seq<char>>::empty(),
            s.trades().dom() == Set::<Seq<char>>::empty(),
            s.cache().dom() == Set::<Seq<char>>::empty(),
    {
        InMemoryStorage { orders: new_order_map(), trades: new_trade_map(), market_cache: new_cache_map() }
    }

    /// Store an order under its identifier, replacing any order there.
    pub fn save_order(&mut self, order: &StoredOrder)
        requires
            old(self).wf(),
        ensures
            final(self).wf(),
            final(self).orders() == old(self).orders().insert(order.order_id@, *order),
            final(self).trades() == old(self).trades(),
            final(self).cache() == old(self).cache(),
    {
        put_order(&mut self.orders, order.order_id.clone(), order.duplicate());
    }

    /// The order stored under an identifier.
    pub fn get_order(&self, order_id: &str) -> (r: Option<StoredOrder>)
        ensures
            r == (if self.orders().dom().contains(order_id@) { Some(self.orders()[order_id@]) } else { None }),
    {
        order_under(&self.orders, order_id)
    }

    /// The orders that pass the filter, newest first (by creation time as
    /// text), at most `limit` of them. Orders created at the same time come
    /// in the map's own order.
    pub fn list_orders(&self, filter: &OrderFilter) -> (r: Vec<StoredOrder>)
        ensures
            exists|all: Seq<StoredOrder>|
                lists_values(all, self.orders()) && r@ == at_most(
                    newest_orders(matching_orders(all, *filter)),
                    filter.limit as int,
                ),
    {
        let all = order_values(&self.orders);
        let r = select_orders(&all, filter);
        assert(lists_values(all@, self.orders()) && r@ == at_most(newest_orders(matching_orders(all@, *filter)), filter.limit as int));
        r
    }

    /// Set the status of a stored order and stamp its update time; an
    /// unknown identifier changes nothing.
    pub fn update_order_status(&mut self, order_id: &str, status: &str)
        requires
            old(self).wf(),
        ensures
            final(self).wf(),
            final(self).trades() == old(self).trades(),
            final(self).cache() == old(self).cache(),
            final(self).orders().dom() == old(self).orders().dom(),
            forall|k: Seq<char>| k != order_id@ && #[trigger] old(self).orders().dom().contains(k) ==> final(self).orders()[k] == old(self).orders()[k],
            old(self).orders().dom().contains(order_id@) ==> {
                let before = old(self).orders()[order_id@];
                let after = final(self).orders()[order_id@];
                &&& after.status@ == status@
                &&& after == (StoredOrder { status: after.status, updated_at: after.updated_at, ..before })
            },
    {
        match order_under(&self.orders, order_id) {
            Some(order) => {
                let mut updated = order;
                updated.status = status.to_string();
                updated.updated_at = crate::types::now_rfc3339();
                put_order(&mut self.orders, order_id.to_string(), updated);
                proof {
                    assert(self.orders().dom() =~= old(self).orders().dom());
                }
            },
            None => {},
        }
    }

    /// Store a trade under its identifier, replacing any trade there.
    pub fn save_trade(&mut self, trade: &StoredTrade)
        requires
            old(self).wf(),
        ensures
            final(self).wf(),
            final(self).trades() == old(self).trades().insert(trade.trade_id@, *trade),
            final(self).orders() == old(self).orders(),
            final(self).cache() == old(self).cache(),
    {
        put_trade(&mut self.trades, trade.trade_id.clone(), trade.duplicate());
    }

    /// The trades that pass the filter, newest first (by execution time as
    /// text), at most `limit` of them.
    pub fn list_trades(&self, filter: &TradeFilter) -> (r: Vec<StoredTrade>)
        ensures
            exists|all: Seq<StoredTrade>|
                lists_values(all, self.trades()) && r@ == at_most(
                    newest_trades(matching_trades(all, *filter)),
                    filter.limit as int,
                ),
    {
        let all = trade_values(&self.trades);
        let r = select_trades(&all, filter);
        assert(lists_values(all@, self.trades()) && r@ == at_most(newest_trades(matching_trades(all@, *filter)), filter.limit as int));
        r
    }

    /// Cache market data, stamped with a time in milliseconds, for `ttl_secs`.
    pub fn cache_market_at(&mut self, market_id: &str, data: &str, ttl_secs: u64, now_ms: u64)
        requires
            old(self).wf(),
        ensures
            final(self).wf(),
            final(self).cache() == old(self).cache().insert(
                market_id@,
                CachedMarket { data: final(self).cache()[market_id@].data, cached_at_ms: now_ms, ttl_secs },
            ),
            final(self).cache()[market_id@].data@ == data@,
            final(self).orders() == old(self).orders(),
            final(self).trades() == old(self).trades(),
    {
        put_cached(
            &mut self.market_cache,
            market_id.to_string(),
            CachedMarket { data: data.to_string(), cached_at_ms: now_ms, ttl_secs },
        );
    }

    /// Cache market data from now on, for `ttl_secs`.
    pub fn cache_market(&mut self, market_id: &str, data: &str, ttl_secs: u64)
        requires
            old(self).wf(),
        ensures
            final(self).wf(),
            final(self).cache().dom() == old(self).cache().dom().insert(market_id@),
            final(self).cache()[market_id@].data@ == data@,
            final(self).cache()[market_id@].ttl_secs == ttl_secs,
            forall|k: Seq<char>| k != market_id@ && #[trigger] old(self).cache().dom().contains(k) ==> final(self).cache()[k] == old(self).cache()[k],
            final(self).orders() == old(self).orders(),
            final(self).trades() == old(self).trades(),
    {
        let now = clock_millis();
        self.cache_market_at(market_id, data, ttl_secs, now);
    }

    /// The cached data of a market at a time in milliseconds, while it is
    /// younger than its lifetime; an entry that has aged out is dropped.
    pub fn get_cached_market_at(&mut self, market_id: &str, now_ms: u64) -> (r: Option<String>)
        requires
            old(self).wf(),
        ensures
            final(self).wf(),
            final(self).orders() == old(self).orders(),
            final(self).trades() == old(self).trades(),
            match (if old(self).cache().dom().contains(market_id@) { Some(old(self).cache()[market_id@]) } else { None }) {
                None => r is None && final(self).cache() == old(self).cache(),
                Some(e) => if fresh(e, now_ms) {
                    r matches Some(d) && d@ == e.data@ && final(self).cache() == old(self).cache()
                } else {
                    r is None && final(self).cache() == old(self).cache().remove(market_id@)
                },
            },
    {
        match cached_under(&self.market_cache, market_id) {
            Some(entry) => {
                let elapsed: u64 = if now_ms >= entry.cached_at_ms { now_ms - entry.cached_at_ms } else { 0 };
                if (elapsed as u128) < (entry.ttl_secs as u128) * 1000 {
                    Some(entry.data)
                } else {
                    drop_cached(&mut self.market_cache, market_id);
                    None
                }
            },
            None => None,
        }
    }

    /// The cached data of a market now (see `get_cached_market_at`): the
    /// entry's data while it is fresh by the clock; an entry that has aged
    /// out is dropped and nothing is returned.
    pub fn get_cached_market(&mut self, market_id: &str) -> (r: Option<String>)
        requires
            old(self).wf(),
        ensures
            final(self).wf(),
            final(self).orders() == old(self).orders(),
            final(self).trades() == old(self).trades(),
            match (if old(self).cache().dom().contains(market_id@) { Some(old(self).cache()[market_id@]) } else { None }) {
                None => r is None && final(self).cache() == old(self).cache(),
                Some(e) => (r matches Some(d) && d@ == e.data@ && final(self).cache() == old(self).cache()) || (r is None
                    && final(self).cache() == old(self).cache().remove(market_id@)),
            },
    {
        let now = clock_millis();
        self.get_cached_market_at(market_id, now)
    }

    /// How many orders are stored.
    pub fn order_count(&self) -> (n: u64)
        requires
            self.orders().dom().len() <= u64::MAX,
        ensures
            n == self.orders().dom().len(),
    {
        order_total(&self.orders) as u64
    }

    /// How many trades are stored.
    pub fn trade_count(&self) -> (n: u64)
        requires
            self.trades().dom().len() <= u64::MAX,
        ensures
            n == self.trades().dom().len(),
    {
        trade_total(&self.trades) as u64
    }
}

/// A cache entry is still fresh: less time than its lifetime has passed
/// since it was stored (none, when the clock reads earlier).
pub open spec fn fresh(e: CachedMarket, now_ms: u64) -> bool {
    let elapsed = if now_ms >= e.cached_at_ms { now_ms - e.cached_at_ms } else { 0 };
    elapsed < e.ttl_secs * 1000
}


// ─── Laws ───────────────────────────────────────────────────

/// Reading an order back after saving it gives the saved order, and saving
/// leaves every other order as it was.
pub proof fn law_read_after_save(orders: Map<Seq<char>, StoredOrder>, order: StoredOrder, other: Seq<char>)
    ensures
        orders.insert(order.order_id@, order).dom().contains(order.order_id@),
        orders.insert(order.order_id@, order)[order.order_id@] == order,
        other != order.order_id@ ==> (orders.insert(order.order_id@, order).dom().contains(other)
            == orders.dom().contains(other)),
        other != order.order_id@ && orders.dom().contains(other) ==> orders.insert(order.order_id@, order)[other]
            == orders[other],
{
}

/// A listing never holds more than the filter's limit, and only orders
/// that pass the filter.
pub proof fn law_listing_respects_filter(all: Seq<StoredOrder>, f: OrderFilter)
    ensures
        at_most(newest_orders(matching_orders(all, f)), f.limit as int).len() <= f.limit,
        forall|i: int|
            0 <= i < at_most(newest_orders(matching_orders(all, f)), f.limit as int).len() ==> order_matches(
                #[trigger] at_most(newest_orders(matching_orders(all, f)), f.limit as int)[i],
                f,
            ),
{
    let m = matching_orders(all, f);
    lemma_matching_orders_pass(all, f);
    lemma_newest_orders_members(m);
    let r = at_most(newest_orders(m), f.limit as int);
    assert forall|i: int| 0 <= i < r.len() implies order_matches(#[trigger] r[i], f) by {
        let g = newest_orders(m);
        assert(r[i] == g[i]);
        let w = choose|w: int| 0 <= w < m.len() && m[w] == g[i];
    }
}

proof fn lemma_matching_orders_pass(all: Seq<StoredOrder>, f: OrderFilter)
    ensures
        forall|i: int| 0 <= i < matching_orders(all, f).len() ==> order_matches(#[trigger] matching_orders(all, f)[i], f),
    decreases all.len(),
{
    if all.len() > 0 {
        let d = all.drop_last();
        lemma_matching_orders_pass(d, f);
        let r = matching_orders(d, f);
        assert forall|i: int| 0 <= i < matching_orders(all, f).len() implies order_matches(
            #[trigger] matching_orders(all, f)[i],
            f,
        ) by {
            if i < r.len() {
                assert(matching_orders(all, f)[i] == r[i]);
            }
        }
    }
}

proof fn lemma_insert_order_members(g: Seq<StoredOrder>, o: StoredOrder)
    ensures
        insert_newest_order(g, o).len() == g.len() + 1,
        forall|k: int|
            0 <= k < g.len() + 1 ==> #[trigger] insert_newest_order(g, o)[k] == o || g.contains(insert_newest_order(g, o)[k]),
    decreases g.len(),
{
    let r = insert_newest_order(g, o);
    if g.len() > 0 && !text_less(g[0].created_at@, o.created_at@) {
        let t = g.drop_first();
        lemma_insert_order_members(t, o);
        assert forall|k: int| 0 <= k < g.len() + 1 implies #[trigger] r[k] == o || g.contains(r[k]) by {
            if k > 0 {
                let rt = insert_newest_order(t, o);
                assert(r[k] == rt[k - 1]);
                if rt[k - 1] != o {
                    let w = choose|w: int| 0 <= w < t.len() && t[w] == rt[k - 1];
                    assert(g[w + 1] == r[k]);
                }
            } else {
                assert(r[0] == g[0]);
            }
        }
    } else if g.len() > 0 {
        assert forall|k: int| 0 <= k < g.len() + 1 implies #[trigger] r[k] == o || g.contains(r[k]) by {
            if k > 0 {
                assert(r[k] == g[k - 1]);
            }
        }
    }
}

proof fn lemma_newest_orders_members(s: Seq<StoredOrder>)
    ensures
        newest_orders(s).len() == s.len(),
        forall|k: int| 0 <= k < s.len() ==> s.contains(#[trigger] newest_orders(s)[k]),
    decreases s.len(),
{
    if s.len() > 0 {
        let d = s.drop_last();
        lemma_newest_orders_members(d);
        let g = newest_orders(d);
        lemma_insert_order_members(g, s.last());
        assert forall|k: int| 0 <= k < s.len() implies s.contains(#[trigger] newest_orders(s)[k]) by {
            let e = newest_orders(s)[k];
            if e == s.last() {
                assert(s[s.len() - 1] == e);
            } else {
                let w = choose|w: int| 0 <= w < g.len() && g[w] == e;
                let v = choose|v: int| 0 <= v < d.len() && d[v] == g[w];
                assert(s[v] == e);
            }
        }
    }
}

} // verus!
