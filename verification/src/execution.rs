//! Carrying out a routing plan: the orders its legs are placed with, in
//! priority order. Placing them is the caller's asynchronous work.
use vstd::prelude::*;
use crate::adapters::CreateOrderRequest;
use crate::decimal::{fixed_text, format_micros};
use crate::smart_router::{RoutingLeg, RoutingPlan};
use crate::text::has_prefix;
use crate::types::{new_request_id, OrderType, Side, TimeInForce};

verus! {

/// A leg's order: the provider it goes to, the leg's price in micros, and
/// the request.
#[derive(Debug, Clone)]
pub struct LegOrder {
    pub provider: String,
    pub price: i64,
    pub request: CreateOrderRequest,
}

/// `leg` placed into legs ordered by priority: after every leg of the same
/// or a lower priority.
pub open spec fn insert_by_priority(g: Seq<RoutingLeg>, leg: RoutingLeg) -> Seq<RoutingLeg>
    decreases g.len(),
{
    if g.len() == 0 {
        seq![leg]
    } else if leg.priority < g[0].priority {
        seq![leg] + g
    } else {
        seq![g[0]] + insert_by_priority(g.drop_first(), leg)
    }
}

/// Legs by rising priority, equal priorities in their original order.
pub open spec fn by_priority(s: Seq<RoutingLeg>) -> Seq<RoutingLeg>
    decreases s.len(),
{
    if s.len() == 0 {
        Seq::empty()
    } else {
        insert_by_priority(by_priority(s.drop_last()), s.last())
    }
}

/// The order placed for `leg` of `plan`: the plan's market and outcome,
/// the leg's quantity at its price written with two decimals, and a client
/// order id starting with `smart-`.
pub open spec fn leg_order_is(
    o: LegOrder,
    plan: RoutingPlan,
    leg: RoutingLeg,
    side: Side,
    order_type: OrderType,
    tif: TimeInForce,
) -> bool {
    &&& o.provider@ == leg.provider@
    &&& o.price == leg.price
    &&& o.request.market_native_id@ == plan.market_native_id@
    &&& o.request.outcome_id@ == plan.outcome_id@
    &&& o.request.side == side
    &&& o.request.order_type == order_type
    &&& o.request.tif == tif
    &&& o.request.quantity == leg.quantity
    &&& o.request.price matches Some(p) && p@ == fixed_text(leg.price as int, 2)
    &&& o.request.client_order_id matches Some(c) && has_prefix(c@, "smart-"@)
}

proof fn lemma_insert_by_priority_at(g: Seq<RoutingLeg>, leg: RoutingLeg, p: int)
    requires
        0 <= p <= g.len(),
        forall|k: int| 0 <= k < p ==> !(leg.priority < (#[trigger] g[k]).priority),
        p < g.len() ==> leg.priority < g[p].priority,
    ensures
        insert_by_priority(g, leg) == g.insert(p, leg),
    decreases p,
{
    if p == 0 {
        if g.len() == 0 {
            assert(g.insert(0, leg) =~= seq![leg]);
        } else {
            assert(g.insert(0, leg) =~= seq![leg] + g);
        }
    } else {
        let t = g.drop_first();
        assert(!(leg.priority < g[0].priority));
        assert forall|k: int| 0 <= k < p - 1 implies !(leg.priority < (#[trigger] t[k]).priority) by {
            assert(t[k] == g[k + 1]);
        }
        lemma_insert_by_priority_at(t, leg, p - 1);
        assert(seq![g[0]] + t.insert(p - 1, leg) =~= g.insert(p, leg));
    }
}

/// The plan's legs by rising priority, equal priorities in plan order.
pub fn legs_by_priority(legs: &Vec<RoutingLeg>) -> (r: Vec<RoutingLeg>)
    ensures
        r@ == by_priority(legs@),
{
    let mut sorted: Vec<RoutingLeg> = Vec::new();
    let mut i: usize = 0;
    while i < legs.len()
        invariant
            i <= legs@.len(),
            sorted@ == by_priority(legs@.take(i as int)),
        decreases legs@.len() - i,
    {
        let ghost t = legs@.take(i as int + 1);
        assert(t.drop_last() =~= legs@.take(i as int));
        assert(t.last() == legs@[i as int]);
        let ghost g = sorted@;
        let mut p: usize = 0;
        let mut found = false;
        while p < sorted.len() && !found
            invariant
                i < legs@.len(),
                g == sorted@,
                p <= sorted@.len(),
                forall|k: int| 0 <= k < p ==> !(legs@[i as int].priority < (#[trigger] sorted@[k]).priority),
                found ==> p < sorted@.len() && legs@[i as int].priority < sorted@[p as int].priority,
            decreases sorted@.len() - p, (if found { 0int } else { 1int }),
        {
            if legs[i].priority < sorted[p].priority {
                found = true;
            } else {
                p = p + 1;
            }
        }
        proof {
            lemma_insert_by_priority_at(g, legs@[i as int], p as int);
        }
        sorted.insert(p, legs[i].clone_leg());
        i = i + 1;
    }
    assert(legs@.take(legs@.len() as int) =~= legs@);
    sorted
}

impl RoutingLeg {
    /// A field-by-field copy.
    pub fn clone_leg(&self) -> (r: Self)
        ensures
            r == *self,
    {
        RoutingLeg {
            provider: self.provider.clone(),
            price: self.price,
            quantity: self.quantity,
            estimated_cost: self.estimated_cost,
            estimated_fee: self.estimated_fee,
            fill_probability_ppm: self.fill_probability_ppm,
            priority: self.priority,
        }
    }
}

fn smart_client_id() -> (r: String)
    ensures
        has_prefix(r@, "smart-"@),
{
    proof {
        reveal_strlit("smart-");
    }
    let mut id = "smart-".to_string();
    let tail = new_request_id();
    id.append(tail.as_str());
    assert(id@.subrange(0, 6) =~= "smart-"@);
    id
}

/// The orders that carry out a plan, one per leg, by rising leg priority.
pub fn execution_orders(plan: &RoutingPlan, side: Side, order_type: OrderType, tif: TimeInForce) -> (r: Vec<LegOrder>)
    ensures
        r@.len() == plan.legs@.len(),
        forall|k: int|
            0 <= k < r@.len() ==> leg_order_is(
                #[trigger] r@[k],
                *plan,
                by_priority(plan.legs@)[k],
                side,
                order_type,
                tif,
            ),
{
    let legs = legs_by_priority(&plan.legs);
    proof {
        lemma_by_priority_len(plan.legs@);
    }
    let mut out: Vec<LegOrder> = Vec::new();
    let mut i: usize = 0;
    while i < legs.len()
        invariant
            i <= legs@.len(),
            legs@ == by_priority(plan.legs@),
            legs@.len() == plan.legs@.len(),
            out@.len() == i,
            forall|k: int| 0 <= k < i ==> leg_order_is(#[trigger] out@[k], *plan, legs@[k], side, order_type, tif),
        decreases legs@.len() - i,
    {
        let leg = &legs[i];
        let price_text = format_micros(leg.price as i128, 2);
        let request = CreateOrderRequest {
            market_native_id: plan.market_native_id.clone(),
            outcome_id: plan.outcome_id.clone(),
            side,
            order_type,
            tif,
            price: Some(price_text),
            quantity: leg.quantity,
            client_order_id: Some(smart_client_id()),
        };
        out.push(LegOrder { provider: leg.provider.clone(), price: leg.price, request });
        i = i + 1;
    }
    out
}

proof fn lemma_insert_by_priority_len(g: Seq<RoutingLeg>, leg: RoutingLeg)
    ensures
        insert_by_priority(g, leg).len() == g.len() + 1,
    decreases g.len(),
{
    if g.len() > 0 && !(leg.priority < g[0].priority) {
        lemma_insert_by_priority_len(g.drop_first(), leg);
    }
}

proof fn lemma_by_priority_len(s: Seq<RoutingLeg>)
    ensures
        by_priority(s).len() == s.len(),
    decreases s.len(),
{
    if s.len() > 0 {
        lemma_by_priority_len(s.drop_last());
        lemma_insert_by_priority_len(by_priority(s.drop_last()), s.last());
    }
}

} // verus!
