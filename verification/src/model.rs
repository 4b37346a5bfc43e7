//! The domain model: identifiers, timestamps, price tables, orders and order groups.

use core::marker::PhantomData;
use vstd::prelude::*;

verus! {

/// Holds when `bits` is laid out as a random (version 4, RFC 4122 variant) UUID,
/// read as a big-endian 128-bit number.
pub open spec fn is_v4_uuid(bits: u128) -> bool {
    &&& (bits >> 76u128) & 0xfu128 == 4
    &&& (bits >> 62u128) & 0x3u128 == 2
}

/// `uuid::Uuid::new_v4`, read as a big-endian number: the operating system's random
/// source fills every bit but the version nibble, which is set to 4, and the two
/// variant bits, which are set to `0b10`. Nothing is said of the other bits.
#[verifier::external_body]
fn random_v4_bits() -> (bits: u128)
    ensures
        is_v4_uuid(bits),
{
    uuid::Uuid::new_v4().as_u128()
}

/// An identifier of a `T`: a UUID held as its big-endian 128-bit value.
#[derive(Debug)]
pub struct Id<T> {
    bits: u128,
    marker: PhantomData<T>,
}

impl<T> View for Id<T> {
    type V = u128;

    closed spec fn view(&self) -> u128 {
        self.bits
    }
}

impl<T> Id<T> {
    /// A fresh random identifier.
    pub fn new() -> (id: Self)
        ensures
            is_v4_uuid(id@),
    {
        Id { bits: random_v4_bits(), marker: PhantomData }
    }

    /// The identifier whose UUID has the big-endian value `bits`.
    pub fn from_u128(bits: u128) -> (id: Self)
        ensures
            id@ == bits,
    {
        Id { bits, marker: PhantomData }
    }

    /// The big-endian value of the UUID.
    pub fn as_u128(&self) -> (bits: u128)
        ensures
            bits == self@,
    {
        self.bits
    }
}

impl<T> Clone for Id<T> {
    fn clone(&self) -> (id: Self)
        ensures
            id == *self,
    {
        *self
    }
}

impl<T> Copy for Id<T> {
}

impl<T> Default for Id<T> {
    fn default() -> (id: Self)
        ensures
            is_v4_uuid(id@),
    {
        Self::new()
    }
}


/// A point in time: whole seconds since the Unix epoch and the nanoseconds past that
/// second (which a leap second may stretch beyond one second's worth).
#[derive(Clone, Copy, Debug, PartialEq, Eq)]
pub struct Timestamp {
    pub secs: i64,
    pub nanos: u32,
}

/// `chrono::Utc::now`, taken apart into `timestamp()` and `timestamp_subsec_nanos()`.
/// The source builds it from the system clock's duration since the epoch, whose
/// sub-second part is below one second; it panics if the clock stands before 1970, so
/// every time it does return lies at or after the epoch. What time it reads is not
/// stated. No argument can rule out the panic.
#[verifier::external_body]
fn utc_now() -> (now: Timestamp)
    ensures
        now.secs >= 0,
        now.nanos < 1_000_000_000,
{
    let now = chrono::Utc::now();
    Timestamp { secs: now.timestamp(), nanos: now.timestamp_subsec_nanos() }
}

impl Timestamp {
    /// The current time, at or after the epoch.
    pub fn now() -> (now: Timestamp)
        ensures
            now.secs >= 0,
            now.nanos < 1_000_000_000,
    {
        utc_now()
    }
}

/// Marks the identifiers of price tables. (Each entity's identifier is typed by a marker
/// of its own rather than by the entity itself, so that no entity holds a value whose
/// type names that entity.)
#[derive(Debug)]
pub struct PriceTableTag;

/// Marks the identifiers of orders.
#[derive(Debug)]
pub struct OrderTag;

/// Marks the identifiers of order groups.
#[derive(Debug)]
pub struct OrderGroupTag;

/// The prices (in yen) of a hashimaki and of each option, as they stood when an order was taken.
#[derive(Clone, Copy, Debug)]
pub struct PriceTable {
    pub id: Id<PriceTableTag>,
    /// The hashimaki itself.
    pub base: u16,
    /// Fried egg.
    pub egg: u16,
    /// Cheese.
    pub cheese: u16,
    /// Spicy mayonnaise.
    pub spicy_mayonnaise: u16,
    /// Without mayonnaise.
    pub no_mayonnaise: u16,
    /// Without sauce.
    pub no_sauce: u16,
    /// Without bonito flakes.
    pub no_bonito: u16,
    /// Without aonori.
    pub no_aonori: u16,
}

/// One hashimaki and the options chosen for it.
#[derive(Clone, Copy, Debug)]
pub struct Order {
    pub id: Id<OrderTag>,
    pub egg: bool,
    pub cheese: bool,
    pub spicy_mayonnaise: bool,
    pub no_mayonnaise: bool,
    pub no_sauce: bool,
    pub no_bonito: bool,
    pub no_aonori: bool,
    pub created_at: Timestamp,
}

/// The orders placed and paid for together, priced by one price table.
pub struct OrderGroup {
    pub id: Id<OrderGroupTag>,
    pub orders: Vec<Order>,
    pub price_table: PriceTable,
    pub created_at: Timestamp,
}

/// What an option adds to the price: its price when chosen, nothing otherwise.
pub open spec fn option_price(chosen: bool, price: u16) -> nat {
    if chosen {
        price as nat
    } else {
        0
    }
}

/// The price of one hashimaki with the given options under `t`: the base price plus
/// the price of every chosen option.
pub open spec fn unit_price(
    t: PriceTable,
    egg: bool,
    cheese: bool,
    spicy_mayonnaise: bool,
    no_mayonnaise: bool,
    no_sauce: bool,
    no_bonito: bool,
    no_aonori: bool,
) -> nat {
    t.base as nat + option_price(egg, t.egg) + option_price(cheese, t.cheese) + option_price(
        spicy_mayonnaise,
        t.spicy_mayonnaise,
    ) + option_price(no_mayonnaise, t.no_mayonnaise) + option_price(no_sauce, t.no_sauce)
        + option_price(no_bonito, t.no_bonito) + option_price(no_aonori, t.no_aonori)
}

/// The price of one order under `t`.
pub open spec fn order_price(o: Order, t: PriceTable) -> nat {
    unit_price(
        t,
        o.egg,
        o.cheese,
        o.spicy_mayonnaise,
        o.no_mayonnaise,
        o.no_sauce,
        o.no_bonito,
        o.no_aonori,
    )
}

/// The sum of the prices of `orders` under `t`.
pub open spec fn orders_total(orders: Seq<Order>, t: PriceTable) -> nat
    decreases orders.len(),
{
    if orders.len() == 0 {
        0
    } else {
        orders_total(orders.drop_last(), t) + order_price(orders.last(), t)
    }
}

/// What each option costs: an order with no option costs the table's base price, and
/// choosing one more option raises an order's price by that option's own price in the
/// table.
pub proof fn lemma_option_prices(o: Order, t: PriceTable)
    ensures
        (!o.egg && !o.cheese && !o.spicy_mayonnaise && !o.no_mayonnaise && !o.no_sauce
            && !o.no_bonito && !o.no_aonori) ==> order_price(o, t) == t.base,
        !o.egg ==> order_price((Order { egg: true, ..o }), t) == order_price(o, t) + t.egg,
        !o.cheese ==> order_price((Order { cheese: true, ..o }), t) == order_price(o, t) + t.cheese,
        !o.spicy_mayonnaise ==> order_price((Order { spicy_mayonnaise: true, ..o }), t) == order_price(o, t) + t.spicy_mayonnaise,
        !o.no_mayonnaise ==> order_price((Order { no_mayonnaise: true, ..o }), t) == order_price(o, t) + t.no_mayonnaise,
        !o.no_sauce ==> order_price((Order { no_sauce: true, ..o }), t) == order_price(o, t) + t.no_sauce,
        !o.no_bonito ==> order_price((Order { no_bonito: true, ..o }), t) == order_price(o, t) + t.no_bonito,
        !o.no_aonori ==> order_price((Order { no_aonori: true, ..o }), t) == order_price(o, t) + t.no_aonori,
{
}

/// The price of a group of one order is the price of that order.
pub proof fn lemma_single_order_total(o: Order, t: PriceTable)
    ensures
        orders_total(seq![o], t) == order_price(o, t),
{
    assert(seq![o].drop_last() =~= Seq::<Order>::empty());
    assert(orders_total(Seq::<Order>::empty(), t) == 0);
    assert(seq![o].last() == o);
}

/// The price of two lists of orders taken together is the sum of their prices.
pub proof fn lemma_orders_total_concat(a: Seq<Order>, b: Seq<Order>, t: PriceTable)
    ensures
        orders_total(a + b, t) == orders_total(a, t) + orders_total(b, t),
    decreases b.len(),
{
    if b.len() == 0 {
        assert(a + b =~= a);
    } else {
        lemma_orders_total_concat(a, b.drop_last(), t);
        assert((a + b).drop_last() =~= a + b.drop_last());
    }
}

/// The options chosen for an order.
pub open spec fn options_of(o: Order) -> (bool, bool, bool, bool, bool, bool, bool) {
    (o.egg, o.cheese, o.spicy_mayonnaise, o.no_mayonnaise, o.no_sauce, o.no_bonito, o.no_aonori)
}

/// The options chosen for each of the orders, in their order.
pub open spec fn options_list(orders: Seq<Order>) -> Seq<(bool, bool, bool, bool, bool, bool, bool)> {
    orders.map_values(|o: Order| options_of(o))
}

/// The two tables ask the same price for the hashimaki and for every option.
pub open spec fn same_prices(a: PriceTable, b: PriceTable) -> bool {
    &&& a.base == b.base
    &&& a.egg == b.egg
    &&& a.cheese == b.cheese
    &&& a.spicy_mayonnaise == b.spicy_mayonnaise
    &&& a.no_mayonnaise == b.no_mayonnaise
    &&& a.no_sauce == b.no_sauce
    &&& a.no_bonito == b.no_bonito
    &&& a.no_aonori == b.no_aonori
}

/// Taking one order out of a list takes its price off the total.
proof fn lemma_orders_total_remove(s: Seq<Order>, i: int, t: PriceTable)
    requires
        0 <= i < s.len(),
    ensures
        orders_total(s, t) == orders_total(s.remove(i), t) + order_price(s[i], t),
{
    let head = s.take(i);
    let one = seq![s[i]];
    let tail = s.skip(i + 1);
    assert(s =~= head + one + tail);
    assert(s.remove(i) =~= head + tail);
    lemma_orders_total_concat(head + one, tail, t);
    lemma_orders_total_concat(head, one, t);
    lemma_orders_total_concat(head, tail, t);
    assert(one.drop_last() =~= Seq::<Order>::empty());
    assert(orders_total(Seq::<Order>::empty(), t) == 0);
    assert(orders_total(one, t) == order_price(s[i], t));
}

/// The price of a list of orders depends only on which options are chosen how many
/// times and on the table's prices: not on the order of the orders, their identifiers
/// or times, nor on the table's identifier.
pub proof fn lemma_orders_total_permutation(
    a: Seq<Order>,
    b: Seq<Order>,
    ta: PriceTable,
    tb: PriceTable,
)
    requires
        options_list(a).to_multiset() == options_list(b).to_multiset(),
        same_prices(ta, tb),
    ensures
        orders_total(a, ta) == orders_total(b, tb),
    decreases a.len(),
{
    broadcast use vstd::seq_lib::group_to_multiset_ensures, vstd::multiset::group_multiset_axioms;

    if a.len() == 0 {
        assert(options_list(a).to_multiset().len() == 0);
        assert(b.len() == options_list(b).len());
    } else {
        let x = a.last();
        let ox = options_of(x);
        let ma = options_list(a).to_multiset();
        assert(options_list(a) =~= options_list(a.drop_last()).push(ox));
        assert(ma.count(ox) > 0);
        assert(options_list(b).contains(ox));
        let i = choose|i: int| 0 <= i < options_list(b).len() && options_list(b)[i] == ox;
        let rest = b.remove(i);
        assert(options_list(rest) =~= options_list(b).remove(i));
        assert(options_list(rest).to_multiset() == ma.remove(ox));
        assert(options_list(a.drop_last()).to_multiset() =~= ma.remove(ox));
        lemma_orders_total_permutation(a.drop_last(), rest, ta, tb);
        lemma_orders_total_remove(b, i, tb);
        assert(options_of(b[i]) == ox);
    }
}

impl OrderGroup {
    /// The price of the whole group.
    pub open spec fn spec_total_price(&self) -> nat {
        orders_total(self.orders@, self.price_table)
    }
}

/// Two groups whose orders choose the same options the same number of times, in any
/// order and with any identifiers and times, priced by tables that ask the same prices,
/// cost the same.
pub proof fn lemma_group_total_permutation(g1: OrderGroup, g2: OrderGroup)
    requires
        options_list(g1.orders@).to_multiset() == options_list(g2.orders@).to_multiset(),
        same_prices(g1.price_table, g2.price_table),
    ensures
        g1.spec_total_price() == g2.spec_total_price(),
{
    lemma_orders_total_permutation(g1.orders@, g2.orders@, g1.price_table, g2.price_table);
}

/// A prefix of the orders never costs more than a longer prefix.
proof fn lemma_prefix_total_monotone(orders: Seq<Order>, t: PriceTable, i: int, j: int)
    requires
        0 <= i <= j <= orders.len(),
    ensures
        orders_total(orders.take(i), t) <= orders_total(orders.take(j), t),
    decreases j - i,
{
    if i < j {
        lemma_prefix_total_monotone(orders, t, i, j - 1);
        assert(orders.take(j).drop_last() =~= orders.take(j - 1));
    }
}

/// What an option adds to the price.
fn option_cost(chosen: bool, price: u16) -> (c: u32)
    ensures
        c == option_price(chosen, price),
        c <= price,
{
    if chosen {
        price as u32
    } else {
        0
    }
}

/// The price of a single order, computed without overflow.
fn price_of(order: &Order, t: &PriceTable) -> (p: u32)
    ensures
        p == order_price(*order, *t),
{
    let c1 = option_cost(order.egg, t.egg);
    let c2 = option_cost(order.cheese, t.cheese);
    let c3 = option_cost(order.spicy_mayonnaise, t.spicy_mayonnaise);
    let c4 = option_cost(order.no_mayonnaise, t.no_mayonnaise);
    let c5 = option_cost(order.no_sauce, t.no_sauce);
    let c6 = option_cost(order.no_bonito, t.no_bonito);
    let c7 = option_cost(order.no_aonori, t.no_aonori);
    let b: u32 = t.base as u32;
    assert(b + c1 + c2 + c3 + c4 + c5 + c6 + c7 <= 8 * 65535);
    b + c1 + c2 + c3 + c4 + c5 + c6 + c7
}

impl OrderGroup {
    /// The price of the whole group: for each order, the base price plus the price of
    /// every option chosen for it. The sum must fit in a `u16`.
    pub fn total_price(&self) -> (total: u16)
        requires
            self.spec_total_price() <= u16::MAX,
        ensures
            total == self.spec_total_price(),
    {
        let t = &self.price_table;
        let mut total: u16 = 0;
        let mut i: usize = 0;
        while i < self.orders.len()
            invariant
                i <= self.orders.len(),
                total == orders_total(self.orders@.take(i as int), *t),
                orders_total(self.orders@, *t) <= u16::MAX,
                t == &self.price_table,
            decreases self.orders.len() - i,
        {
            proof {
                lemma_prefix_total_monotone(self.orders@, *t, i + 1, self.orders@.len() as int);
                assert(self.orders@.take(i + 1).drop_last() =~= self.orders@.take(i as int));
                assert(self.orders@.take(self.orders@.len() as int) =~= self.orders@);
            }
            let p = price_of(&self.orders[i], t);
            total = total + p as u16;
            i = i + 1;
        }
        assert(self.orders@.take(self.orders@.len() as int) =~= self.orders@);
        total
    }

    /// The price of the whole group, or `None` when it does not fit in a `u16`.
    pub fn checked_total_price(&self) -> (total: Option<u16>)
        ensures
            total matches Some(p) ==> p == self.spec_total_price(),
            total is None <==> self.spec_total_price() > u16::MAX,
    {
        let t = &self.price_table;
        let mut total: u32 = 0;
        let mut i: usize = 0;
        while i < self.orders.len()
            invariant
                i <= self.orders.len(),
                total == orders_total(self.orders@.take(i as int), *t),
                total <= u16::MAX,
                t == &self.price_table,
            decreases self.orders.len() - i,
        {
            proof {
                assert(self.orders@.take(i + 1).drop_last() =~= self.orders@.take(i as int));
            }
            let p = price_of(&self.orders[i], t);
            total = total + p;
            i = i + 1;
            if total > 65535 {
                proof {
                    lemma_prefix_total_monotone(self.orders@, *t, i as int, self.orders@.len() as int);
                    assert(self.orders@.take(self.orders@.len() as int) =~= self.orders@);
                }
                return None;
            }
        }
        assert(self.orders@.take(self.orders@.len() as int) =~= self.orders@);
        Some(total as u16)
    }
}

/// A payment made for an order group.
#[derive(Clone, Copy, Debug)]
pub struct PayedEvent {
    pub order_group_id: Id<OrderGroupTag>,
    pub payed_amount: u16,
    pub created_at: Timestamp,
}

impl PayedEvent {
    /// The payment of `payed_amount` for the group `order_group_id`, made now.
    pub fn new(order_group_id: Id<OrderGroupTag>, payed_amount: u16) -> (e: PayedEvent)
        ensures
            e.order_group_id == order_group_id,
            e.payed_amount == payed_amount,
            e.created_at.secs >= 0,
            e.created_at.nanos < 1_000_000_000,
    {
        PayedEvent { order_group_id, payed_amount, created_at: Timestamp::now() }
    }
}

/// The number a customer waits for: the order is handed over when it is called.
#[derive(Clone, Copy, Debug, PartialEq, Eq)]
pub struct WaitNumber(pub u32);

/// The number of the chef an order is assigned to.
#[derive(Clone, Copy, Debug, PartialEq, Eq)]
pub struct ChefCode(pub u8);

} // verus!
