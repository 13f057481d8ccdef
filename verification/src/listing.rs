//! Market pages: the text search that providers without a search endpoint
//! run on listed markets, picking the books of one outcome, and depth
//! limits.
use vstd::prelude::*;
use crate::adapters::{OrderBookLevel, OrderBookSnapshot};
use crate::decimal::{decimal_micros, lemma_decimal_micros_bounded, parse_price_micros};
use crate::text::{contains_str, has_infix, lowercase, str_eq, to_lowercase};
use crate::types::{Market, Outcome, PaginationResponse};

verus! {

/// A page of markets.
#[derive(Debug, Clone)]
pub struct MarketPage {
    pub markets: Vec<Market>,
    pub pagination: PaginationResponse,
}

/// The market's title or description, or with `with_category` its
/// category, holds the already lower-cased query in any letter case.
pub open spec fn matches_query(m: Market, query_lower: Seq<char>, with_category: bool) -> bool {
    has_infix(lowercase(m.event.title@), query_lower) || has_infix(lowercase(m.event.description@), query_lower)
        || (with_category && has_infix(lowercase(m.event.category@), query_lower))
}

/// The markets that match a query, in order.
pub open spec fn matching(markets: Seq<Market>, query_lower: Seq<char>, with_category: bool) -> Seq<Market>
    decreases markets.len(),
{
    if markets.len() == 0 {
        Seq::empty()
    } else {
        matching(markets.drop_last(), query_lower, with_category) + if matches_query(
            markets.last(),
            query_lower,
            with_category,
        ) {
            seq![markets.last()]
        } else {
            Seq::empty()
        }
    }
}

fn market_matches(m: &Market, query_lower: &str, with_category: bool) -> (r: bool)
    ensures
        r == matches_query(*m, query_lower@, with_category),
{
    let title = to_lowercase(m.event.title.as_str());
    if contains_str(title.as_str(), query_lower) {
        return true;
    }
    let description = to_lowercase(m.event.description.as_str());
    if contains_str(description.as_str(), query_lower) {
        return true;
    }
    if with_category {
        let category = to_lowercase(m.event.category.as_str());
        contains_str(category.as_str(), query_lower)
    } else {
        false
    }
}

/// The page a client-side search gives: the listed markets whose title or
/// description (and with `with_category` category) holds the query in any
/// letter case, in listed order, as one complete page.
pub fn search_page(markets: Vec<Market>, query: &str, with_category: bool) -> (page: MarketPage)
    ensures
        page.markets@ == matching(markets@, lowercase(query@), with_category),
        page.pagination.cursor@ == Seq::<char>::empty(),
        !page.pagination.has_more,
        page.pagination.total == page.markets@.len() as i32,
{
    let q = to_lowercase(query);
    let ghost all = markets@;
    let n = markets.len();
    let mut rest = markets;
    let mut kept: Vec<Market> = Vec::new();
    let mut i: usize = 0;
    while rest.len() > 0
        invariant
            i <= all.len(),
            all.len() == n,
            rest@ == all.skip(i as int),
            q@ == lowercase(query@),
            kept@ == matching(all.take(i as int), q@, with_category),
        decreases rest@.len(),
    {
        assert(all.take(i as int + 1).drop_last() =~= all.take(i as int));
        let ghost before = kept@;
        let m = rest.remove(0);
        assert(m == all[i as int]);
        assert(rest@ =~= all.skip(i as int + 1));
        if market_matches(&m, q.as_str(), with_category) {
            kept.push(m);
            assert(kept@ =~= before.push(all[i as int]));
        } else {
            assert(kept@ =~= before + Seq::<Market>::empty());
        }
        i = i + 1;
    }
    assert(all.take(all.len() as int) =~= all);
    let total = kept.len() as i32;
    MarketPage { markets: kept, pagination: PaginationResponse { cursor: String::new(), has_more: false, total } }
}


// ─── Order books ────────────────────────────────────────────

/// The snapshot is wanted: no outcome was named, or it is the named one.
pub open spec fn wanted(id: Seq<char>, outcome: Option<Seq<char>>) -> bool {
    match outcome {
        Some(o) => id == o,
        None => true,
    }
}

/// An optional text.
pub open spec fn opt_view(o: Option<&str>) -> Option<Seq<char>> {
    match o {
        Some(s) => Some(s@),
        None => None,
    }
}

/// The snapshots that are wanted, in order.
pub open spec fn snapshots_for(snaps: Seq<OrderBookSnapshot>, outcome: Option<Seq<char>>) -> Seq<OrderBookSnapshot>
    decreases snaps.len(),
{
    if snaps.len() == 0 {
        Seq::empty()
    } else {
        snapshots_for(snaps.drop_last(), outcome) + if wanted(snaps.last().outcome_id@, outcome) {
            seq![snaps.last()]
        } else {
            Seq::empty()
        }
    }
}

fn id_wanted(id: &str, outcome_id: Option<&str>) -> (r: bool)
    ensures
        r == wanted(id@, opt_view(outcome_id)),
{
    match outcome_id {
        Some(o) => str_eq(id, o),
        None => true,
    }
}

/// The snapshots of the named outcome, or all of them when none is named.
pub fn retain_outcome(snaps: Vec<OrderBookSnapshot>, outcome_id: Option<&str>) -> (r: Vec<OrderBookSnapshot>)
    ensures
        r@ == snapshots_for(snaps@, opt_view(outcome_id)),
{
    let ghost all = snaps@;
    let n = snaps.len();
    let mut rest = snaps;
    let mut kept: Vec<OrderBookSnapshot> = Vec::new();
    let mut i: usize = 0;
    while rest.len() > 0
        invariant
            i <= all.len(),
            all.len() == n,
            rest@ == all.skip(i as int),
            kept@ == snapshots_for(all.take(i as int), opt_view(outcome_id)),
        decreases rest@.len(),
    {
        assert(all.take(i as int + 1).drop_last() =~= all.take(i as int));
        let ghost before = kept@;
        let s = rest.remove(0);
        assert(s == all[i as int]);
        assert(rest@ =~= all.skip(i as int + 1));
        if id_wanted(s.outcome_id.as_str(), outcome_id) {
            kept.push(s);
            assert(kept@ =~= before.push(all[i as int]));
        } else {
            assert(kept@ =~= before + Seq::<OrderBookSnapshot>::empty());
        }
        i = i + 1;
    }
    assert(all.take(all.len() as int) =~= all);
    kept
}

/// Levels kept per side for a requested depth: ten when it is not
/// positive.
pub fn book_depth(depth: i32) -> (r: usize)
    ensures
        r == (if depth <= 0 { 10 } else { depth as int }),
{
    if depth <= 0 {
        10
    } else {
        depth as usize
    }
}

/// The first `depth` levels.
pub fn truncate_levels(levels: Vec<OrderBookLevel>, depth: usize) -> (r: Vec<OrderBookLevel>)
    ensures
        r@ == (if depth < levels@.len() { levels@.take(depth as int) } else { levels@ }),
{
    let mut v = levels;
    v.truncate(depth);
    v
}

/// Whole contracts in a size text, rounded toward zero; zero when the text
/// is no number.
pub open spec fn size_units(size: Seq<char>) -> int {
    match decimal_micros(size) {
        Some(v) => if v >= 0 { v / 1_000_000 } else { -((-v) / 1_000_000) },
        None => 0,
    }
}

/// A book level from a price text and a size text.
pub fn level_from_text(price: String, size: &str) -> (l: OrderBookLevel)
    ensures
        l.price@ == price@,
        l.quantity == size_units(size@),
{
    proof {
        lemma_decimal_micros_bounded(size@);
    }
    let quantity: i64 = match parse_price_micros(size) {
        Some(v) => if v >= 0 { v / 1_000_000 } else { -((-v) / 1_000_000) },
        None => 0,
    };
    OrderBookLevel { price, quantity }
}

/// The (outcome id, token id) pairs whose books are fetched: the wanted
/// outcomes that carry a token id, in order.
pub open spec fn book_targets(outcomes: Seq<Outcome>, outcome: Option<Seq<char>>) -> Seq<(Seq<char>, Seq<char>)>
    decreases outcomes.len(),
{
    if outcomes.len() == 0 {
        Seq::empty()
    } else {
        let o = outcomes.last();
        book_targets(outcomes.drop_last(), outcome) + match o.token_id {
            Some(t) => if wanted(o.id@, outcome) {
                seq![(o.id@, t@)]
            } else {
                Seq::empty()
            },
            None => Seq::empty(),
        }
    }
}

/// The outcomes of a market whose books are fetched, with their token ids.
pub fn token_targets(market: &Market, outcome_id: Option<&str>) -> (r: Vec<(String, String)>)
    ensures
        r@.map_values(|p: (String, String)| (p.0@, p.1@)) == book_targets(market.outcomes@, opt_view(outcome_id)),
{
    let mut r: Vec<(String, String)> = Vec::new();
    let mut i: usize = 0;
    while i < market.outcomes.len()
        invariant
            i <= market.outcomes@.len(),
            r@.map_values(|p: (String, String)| (p.0@, p.1@)) == book_targets(market.outcomes@.take(i as int), opt_view(outcome_id)),
        decreases market.outcomes@.len() - i,
    {
        let o = &market.outcomes[i];
        assert(market.outcomes@.take(i as int + 1).drop_last() =~= market.outcomes@.take(i as int));
        let ghost before = r@.map_values(|p: (String, String)| (p.0@, p.1@));
        match &o.token_id {
            Some(t) => {
                if id_wanted(o.id.as_str(), outcome_id) {
                    r.push((o.id.clone(), t.clone()));
                    assert(r@.map_values(|p: (String, String)| (p.0@, p.1@)) =~= before.push((o.id@, t@)));
                } else {
                    assert(r@.map_values(|p: (String, String)| (p.0@, p.1@)) =~= before + Seq::<(Seq<char>, Seq<char>)>::empty());
                }
            },
            None => {
                assert(r@.map_values(|p: (String, String)| (p.0@, p.1@)) =~= before + Seq::<(Seq<char>, Seq<char>)>::empty());
            },
        }
        i = i + 1;
    }
    assert(market.outcomes@.take(market.outcomes@.len() as int) =~= market.outcomes@);
    r
}


/// A market is among the matches exactly when it is listed and matches.
proof fn lemma_matching_contains(markets: Seq<Market>, query_lower: Seq<char>, with_category: bool, m: Market)
    ensures
        matching(markets, query_lower, with_category).contains(m) <==> markets.contains(m) && matches_query(
            m,
            query_lower,
            with_category,
        ),
    decreases markets.len(),
{
    if markets.len() > 0 {
        let t = markets.drop_last();
        lemma_matching_contains(t, query_lower, with_category, m);
        let pt = matching(t, query_lower, with_category);
        let tail = if matches_query(markets.last(), query_lower, with_category) {
            seq![markets.last()]
        } else {
            Seq::empty()
        };
        assert(markets =~= t.push(markets.last()));
        if matching(markets, query_lower, with_category).contains(m) {
            let i = choose|i: int| 0 <= i < (pt + tail).len() && (pt + tail)[i] == m;
            if i >= pt.len() {
                assert(tail[i - pt.len()] == m);
            } else {
                assert(pt[i] == m);
            }
        }
        if markets.contains(m) && matches_query(m, query_lower, with_category) {
            let i = choose|i: int| 0 <= i < markets.len() && markets[i] == m;
            if i == markets.len() - 1 {
                assert((pt + tail)[pt.len() as int] == m);
            } else {
                assert(t[i] == m);
                let j = choose|j: int| 0 <= j < pt.len() && pt[j] == m;
                assert((pt + tail)[j] == m);
            }
        }
    }
}

/// A search keeps exactly the listed markets whose title, description or
/// (when asked) category contains the query, ignoring letter case on both
/// sides.
pub proof fn law_search_looks_at_title_description_category(
    markets: Seq<Market>,
    query: Seq<char>,
    with_category: bool,
    m: Market,
)
    requires
        markets.contains(m),
    ensures
        matching(markets, lowercase(query), with_category).contains(m) <==> (has_infix(
            lowercase(m.event.title@),
            lowercase(query),
        ) || has_infix(lowercase(m.event.description@), lowercase(query)) || (with_category && has_infix(
            lowercase(m.event.category@),
            lowercase(query),
        ))),
{
    lemma_matching_contains(markets, lowercase(query), with_category, m);
}

} // verus!
