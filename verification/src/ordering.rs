//! Taking an order: a list of requests, each for some number of identical hashimaki,
//! becomes an order group of single orders, priced by the current price table.

use crate::model::{
    is_v4_uuid, orders_total, unit_price, Id, Order, OrderGroup, OrderTag, PriceTable,
    Timestamp,
};
use vstd::prelude::*;
use vstd::relations::injective_on;
use vstd::set_lib::{lemma_int_range, lemma_len_subset, lemma_map_size, set_int_range};

verus! {

/// A request for `count` hashimaki, all with the same options.
#[derive(Clone, Copy, Debug)]
pub struct OrderRequest {
    pub count: u8,
    pub egg: bool,
    pub cheese: bool,
    pub spicy_mayonnaise: bool,
    pub no_mayonnaise: bool,
    pub no_sauce: bool,
    pub no_bonito: bool,
    pub no_aonori: bool,
}

/// The price of one hashimaki of the request under `t`.
pub open spec fn request_unit_price(r: OrderRequest, t: PriceTable) -> nat {
    unit_price(
        t,
        r.egg,
        r.cheese,
        r.spicy_mayonnaise,
        r.no_mayonnaise,
        r.no_sauce,
        r.no_bonito,
        r.no_aonori,
    )
}

/// The price of all the hashimaki asked for: the sum over the requests of their count
/// times the price of one of them.
pub open spec fn requests_total(reqs: Seq<OrderRequest>, t: PriceTable) -> nat
    decreases reqs.len(),
{
    if reqs.len() == 0 {
        0
    } else {
        requests_total(reqs.drop_last(), t) + reqs.last().count as nat * request_unit_price(
            reqs.last(),
            t,
        )
    }
}

/// `n` copies of `r`.
pub open spec fn repeat(r: OrderRequest, n: nat) -> Seq<OrderRequest> {
    Seq::new(n, |_i: int| r)
}

/// Every request repeated as many times as it asks for, in the order given: the
/// request that each single order of the group comes from.
pub open spec fn expand(reqs: Seq<OrderRequest>) -> Seq<OrderRequest>
    decreases reqs.len(),
{
    if reqs.len() == 0 {
        Seq::empty()
    } else {
        expand(reqs.drop_last()) + repeat(reqs.last(), reqs.last().count as nat)
    }
}

/// The order has the options of the request.
pub open spec fn same_options(o: Order, r: OrderRequest) -> bool {
    &&& o.egg == r.egg
    &&& o.cheese == r.cheese
    &&& o.spicy_mayonnaise == r.spicy_mayonnaise
    &&& o.no_mayonnaise == r.no_mayonnaise
    &&& o.no_sauce == r.no_sauce
    &&& o.no_bonito == r.no_bonito
    &&& o.no_aonori == r.no_aonori
}

/// Position by position, the orders have the options of the requests.
pub open spec fn options_follow(orders: Seq<Order>, reqs: Seq<OrderRequest>) -> bool {
    &&& orders.len() == reqs.len()
    &&& forall|k: int| 0 <= k < orders.len() ==> same_options(#[trigger] orders[k], reqs[k])
}

/// The sum of the prices of one hashimaki of each request in `reqs`, counts aside.
pub open spec fn singles_total(reqs: Seq<OrderRequest>, t: PriceTable) -> nat
    decreases reqs.len(),
{
    if reqs.len() == 0 {
        0
    } else {
        singles_total(reqs.drop_last(), t) + request_unit_price(reqs.last(), t)
    }
}

proof fn lemma_orders_total_follows(orders: Seq<Order>, reqs: Seq<OrderRequest>, t: PriceTable)
    requires
        options_follow(orders, reqs),
    ensures
        orders_total(orders, t) == singles_total(reqs, t),
    decreases orders.len(),
{
    if orders.len() > 0 {
        let k = orders.len() - 1;
        assert(same_options(orders[k], reqs[k]));
        lemma_orders_total_follows(orders.drop_last(), reqs.drop_last(), t);
    }
}

proof fn lemma_singles_total_concat(a: Seq<OrderRequest>, b: Seq<OrderRequest>, t: PriceTable)
    ensures
        singles_total(a + b, t) == singles_total(a, t) + singles_total(b, t),
    decreases b.len(),
{
    if b.len() == 0 {
        assert(a + b =~= a);
    } else {
        lemma_singles_total_concat(a, b.drop_last(), t);
        assert((a + b).drop_last() =~= a + b.drop_last());
    }
}

proof fn lemma_singles_total_repeat(r: OrderRequest, n: nat, t: PriceTable)
    ensures
        singles_total(repeat(r, n), t) == n * request_unit_price(r, t),
    decreases n,
{
    if n > 0 {
        lemma_singles_total_repeat(r, (n - 1) as nat, t);
        assert(repeat(r, n).drop_last() =~= repeat(r, (n - 1) as nat));
        assert(repeat(r, n).last() == r);
        let u = request_unit_price(r, t);
        assert(n * u == (n - 1) * u + u) by (nonlinear_arith);
    } else {
        assert(repeat(r, n).len() == 0);
    }
}

proof fn lemma_singles_total_expand(reqs: Seq<OrderRequest>, t: PriceTable)
    ensures
        singles_total(expand(reqs), t) == requests_total(reqs, t),
    decreases reqs.len(),
{
    if reqs.len() > 0 {
        let r = reqs.last();
        lemma_singles_total_expand(reqs.drop_last(), t);
        lemma_singles_total_concat(expand(reqs.drop_last()), repeat(r, r.count as nat), t);
        lemma_singles_total_repeat(r, r.count as nat, t);
    }
}

/// Orders whose options follow a list of requests cost what those requests ask for.
proof fn lemma_price_of_requests(orders: Seq<Order>, reqs: Seq<OrderRequest>, t: PriceTable)
    requires
        options_follow(orders, expand(reqs)),
    ensures
        orders_total(orders, t) == requests_total(reqs, t),
{
    lemma_orders_total_follows(orders, expand(reqs), t);
    lemma_singles_total_expand(reqs, t);
}

/// Every order has a random identifier and a time read from the clock: a version-4
/// UUID and a time at or after the epoch.
pub open spec fn freshly_made(orders: Seq<Order>) -> bool {
    forall|k: int|
        0 <= k < orders.len() ==> {
            &&& is_v4_uuid(#[trigger] orders[k].id@)
            &&& orders[k].created_at.secs >= 0
            &&& orders[k].created_at.nanos < 1_000_000_000
        }
}

/// No two of the orders share an identifier.
pub open spec fn distinct_ids(orders: Seq<Order>) -> bool {
    forall|a: int, b: int|
        #![trigger orders[a], orders[b]]
        0 <= a < orders.len() && 0 <= b < orders.len() && a != b ==> orders[a].id@ != orders[b].id@
}

/// The identifiers of the orders, in their order.
pub open spec fn ids_of(orders: Seq<Order>) -> Seq<u128> {
    orders.map_values(|o: Order| o.id@)
}

/// `x` with the number `j` written into bits it is free to change: bits 0 to 61 take
/// the low 62 bits of `j`, bits 64 and 65 its top two bits. The version and variant
/// bits stay as they are.
pub open spec fn spread(x: u128, j: u64) -> u128 {
    (x & 0xFFFF_FFFF_FFFF_FFFC_C000_0000_0000_0000u128) | ((j as u128)
        & 0x3FFF_FFFF_FFFF_FFFFu128) | (((j as u128) >> 62u128) << 64u128)
}

proof fn lemma_spread_injective(x: u128, a: u64, b: u64)
    ensures
        spread(x, a) == spread(x, b) ==> a == b,
{
    assert(((x & 0xFFFF_FFFF_FFFF_FFFC_C000_0000_0000_0000u128) | ((a as u128)
        & 0x3FFF_FFFF_FFFF_FFFFu128) | (((a as u128) >> 62u128) << 64u128)) == ((x
        & 0xFFFF_FFFF_FFFF_FFFC_C000_0000_0000_0000u128) | ((b as u128)
        & 0x3FFF_FFFF_FFFF_FFFFu128) | (((b as u128) >> 62u128) << 64u128)) ==> a == b)
        by (bit_vector);
}

proof fn lemma_spread_v4(x: u128, j: u64)
    requires
        is_v4_uuid(x),
    ensures
        is_v4_uuid(spread(x, j)),
{
    let y = spread(x, j);
    assert((x >> 76u128) & 0xfu128 == 4 && (x >> 62u128) & 0x3u128 == 2 && y == ((x
        & 0xFFFF_FFFF_FFFF_FFFC_C000_0000_0000_0000u128) | ((j as u128)
        & 0x3FFF_FFFF_FFFF_FFFFu128) | (((j as u128) >> 62u128) << 64u128)) ==> (y >> 76u128)
        & 0xfu128 == 4 && (y >> 62u128) & 0x3u128 == 2) by (bit_vector);
}

/// Among `ids.len() + 1` spread values of `x`, at least one is not in `ids`.
proof fn lemma_spread_not_all_taken(ids: Seq<u128>, x: u128)
    requires
        ids.len() <= u64::MAX,
    ensures
        exists|j: u64| j <= ids.len() && !ids.contains(#[trigger] spread(x, j)),
{
    if forall|j: u64| j <= ids.len() ==> ids.contains(#[trigger] spread(x, j)) {
        let n = ids.len() as int;
        let dom = set_int_range(0, n + 1);
        let f = |j: int| spread(x, j as u64);
        lemma_int_range(0, n + 1);
        assert(injective_on(f, dom)) by {
            assert forall|a: int, b: int|
                dom.contains(a) && dom.contains(b) && #[trigger] f(a) == #[trigger] f(b) implies a
                == b by {
                lemma_spread_injective(x, a as u64, b as u64);
            }
        }
        let image = dom.map(f);
        lemma_map_size(dom, image, f);
        assert(image.subset_of(ids.to_set())) by {
            assert forall|y: u128| image.contains(y) implies ids.to_set().contains(y) by {
                let j = choose|j: int| dom.contains(j) && f(j) == y;
                assert(ids.contains(spread(x, j as u64)));
            }
        }
        vstd::seq_lib::seq_to_set_is_finite(ids);
        lemma_len_subset(image, ids.to_set());
        ids.lemma_cardinality_of_set();
    }
}

/// Whether one of the orders has the identifier `bits`.
fn id_in_use(orders: &Vec<Order>, bits: u128) -> (used: bool)
    ensures
        used <==> ids_of(orders@).contains(bits),
{
    let mut i: usize = 0;
    while i < orders.len()
        invariant
            i <= orders.len(),
            forall|k: int| 0 <= k < i ==> orders@[k].id@ != bits,
        decreases orders.len() - i,
    {
        if orders[i].id.as_u128() == bits {
            assert(ids_of(orders@)[i as int] == bits);
            return true;
        }
        i = i + 1;
    }
    proof {
        if ids_of(orders@).contains(bits) {
            let k = choose|k: int| 0 <= k < ids_of(orders@).len() && ids_of(orders@)[k] == bits;
            assert(orders@[k].id@ == bits);
        }
    }
    false
}

/// A new random identifier that none of the orders has. The random draw is taken as it
/// is unless it is already in use; only then is it changed, in the bits that the draw
/// chose at random, into one that is free.
fn fresh_order_id(orders: &Vec<Order>) -> (id: Id<OrderTag>)
    ensures
        is_v4_uuid(id@),
        !ids_of(orders@).contains(id@),
{
    let drawn: Id<OrderTag> = Id::new();
    if !id_in_use(orders, drawn.as_u128()) {
        return drawn;
    }
    let x = drawn.as_u128();
    let n = orders.len();
    let ghost ids = ids_of(orders@);
    let mut j: usize = 0;
    loop
        invariant
            j <= n,
            n == orders.len(),
            ids == ids_of(orders@),
            ids.len() == n,
            is_v4_uuid(x),
            forall|i: u64| i < j ==> ids.contains(#[trigger] spread(x, i)),
        decreases n - j,
    {
        let candidate: u128 = (x & 0xFFFF_FFFF_FFFF_FFFC_C000_0000_0000_0000u128) | ((j as u128)
            & 0x3FFF_FFFF_FFFF_FFFFu128) | (((j as u128) >> 62u128) << 64u128);
        assert(candidate == spread(x, j as u64));
        if !id_in_use(orders, candidate) {
            proof {
                lemma_spread_v4(x, j as u64);
            }
            return Id::from_u128(candidate);
        }
        if j == n {
            proof {
                lemma_spread_not_all_taken(ids, x);
                let k = choose|k: u64| k <= ids.len() && !ids.contains(#[trigger] spread(x, k));
                if k < j as u64 {
                    assert(ids.contains(spread(x, k)));
                }
                assert(false);
            }
            return Id::from_u128(candidate);
        }
        j = j + 1;
    }
}

impl Order {
    /// A single order with the options of `req`.
    pub fn from_request(req: &OrderRequest, id: Id<OrderTag>, created_at: Timestamp) -> (o: Order)
        ensures
            same_options(o, *req),
            o.id == id,
            o.created_at == created_at,
    {
        Order {
            id,
            egg: req.egg,
            cheese: req.cheese,
            spicy_mayonnaise: req.spicy_mayonnaise,
            no_mayonnaise: req.no_mayonnaise,
            no_sauce: req.no_sauce,
            no_bonito: req.no_bonito,
            no_aonori: req.no_aonori,
            created_at,
        }
    }
}

impl OrderGroup {
    /// A new group for the requests, priced by `price_table`: one order for each
    /// hashimaki asked for, in the order of the requests, each with a fresh identifier
    /// and the time at which it was made. What the group costs is what the requests ask
    /// for: for each request, its count times the price of one of its hashimaki.
    pub fn from_requests(reqs: &Vec<OrderRequest>, price_table: PriceTable) -> (g: OrderGroup)
        ensures
            g.price_table == price_table,
            options_follow(g.orders@, expand(reqs@)),
            g.spec_total_price() == requests_total(reqs@, price_table),
            is_v4_uuid(g.id@),
            freshly_made(g.orders@),
            distinct_ids(g.orders@),
            g.created_at.secs >= 0,
            g.created_at.nanos < 1_000_000_000,
    {
        let id = Id::new();
        let created_at = Timestamp::now();
        let mut orders: Vec<Order> = Vec::new();
        let mut i: usize = 0;
        while i < reqs.len()
            invariant
                i <= reqs.len(),
                options_follow(orders@, expand(reqs@.take(i as int))),
                freshly_made(orders@),
                distinct_ids(orders@),
            decreases reqs.len() - i,
        {
            let req = &reqs[i];
            let ghost before = orders@;
            let mut j: u8 = 0;
            while j < req.count
                invariant
                    j <= req.count,
                    req == &reqs@[i as int],
                    i < reqs.len(),
                    before == orders@.take(before.len() as int),
                    options_follow(before, expand(reqs@.take(i as int))),
                    options_follow(orders@, expand(reqs@.take(i as int)) + repeat(*req, j as nat)),
                    freshly_made(orders@),
                    distinct_ids(orders@),
                decreases req.count - j,
            {
                let order_id = fresh_order_id(&orders);
                let order = Order::from_request(req, order_id, Timestamp::now());
                let ghost prev = orders@;
                orders.push(order);
                proof {
                    assert forall|a: int, b: int|
                        0 <= a < orders@.len() && 0 <= b < orders@.len() && a != b implies #[trigger] orders@[a].id@
                        != #[trigger] orders@[b].id@ by {
                        if a == prev.len() as int {
                            assert(ids_of(prev)[b] == prev[b].id@);
                        } else if b == prev.len() as int {
                            assert(ids_of(prev)[a] == prev[a].id@);
                        } else {
                            assert(prev[a] == orders@[a] && prev[b] == orders@[b]);
                        }
                    }
                    let e = expand(reqs@.take(i as int));
                    assert(e + repeat(*req, (j + 1) as nat) =~= (e + repeat(*req, j as nat)).push(
                        *req,
                    ));
                    assert(orders@ == prev.push(order));
                }
                j = j + 1;
            }
            proof {
                assert(reqs@.take(i + 1).drop_last() =~= reqs@.take(i as int));
                assert(reqs@.take(i + 1).last() == reqs@[i as int]);
            }
            i = i + 1;
        }
        proof {
            assert(reqs@.take(reqs@.len() as int) =~= reqs@);
            lemma_price_of_requests(orders@, reqs@, price_table);
        }
        OrderGroup { id, orders, price_table, created_at }
    }
}

} // verus!
