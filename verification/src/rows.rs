//! The rows the order data is stored as, and the conversions between rows and the
//! domain model. The database keeps prices and amounts as `i32` and identifiers as
//! UUIDs (here their big-endian `u128` value).

use crate::model::{
    order_price, ChefCode, Id, Order, OrderGroup, OrderTag, PayedEvent, PriceTable, Timestamp, WaitNumber,
};
use vstd::prelude::*;

verus! {

/// A row of the price table.
#[derive(Clone, Copy, Debug, PartialEq, Eq)]
pub struct PriceRow {
    pub id: u128,
    pub base: i32,
    pub egg: i32,
    pub cheese: i32,
    pub spicy_mayonnaise: i32,
    pub no_mayonnaise: i32,
    pub no_sauce: i32,
    pub no_bonito: i32,
    pub no_aonori: i32,
}

/// A row of the order group table.
#[derive(Clone, Copy, Debug, PartialEq, Eq)]
pub struct OrderGroupRow {
    pub id: u128,
    pub price_table_id: u128,
    pub created_at: Timestamp,
}

/// A row of the orders table.
#[derive(Clone, Copy, Debug, PartialEq, Eq)]
pub struct OrderRow {
    pub id: u128,
    pub group_id: u128,
    pub egg: bool,
    pub cheese: bool,
    pub spicy_mayonnaise: bool,
    pub no_mayonnaise: bool,
    pub no_sauce: bool,
    pub no_bonito: bool,
    pub no_aonori: bool,
    pub created_at: Timestamp,
}

/// A row of the payment table.
#[derive(Clone, Copy, Debug, PartialEq, Eq)]
pub struct PayedRow {
    pub order_group_id: u128,
    pub payed_amount: i32,
    pub created_at: Timestamp,
}

/// A row of the table of orders assigned to a chef.
#[derive(Clone, Copy, Debug, PartialEq, Eq)]
pub struct AssignedRow {
    pub order_id: u128,
    pub chef_number: i32,
}

/// A queued order as the queue queries return it: the order's row, its wait number
/// and, once assigned, the chef's number.
#[derive(Clone, Copy, Debug, PartialEq, Eq)]
pub struct QueuedRow {
    pub order: OrderRow,
    pub wait_number: i32,
    pub chef_number: Option<i32>,
}

/// An order waiting in the queue, with its wait number and the chef it was given to.
#[derive(Clone, Copy, Debug)]
pub struct QueuedOrder {
    pub wait_number: WaitNumber,
    pub assigned_cheff: Option<ChefCode>,
    pub order: Order,
}

/// Why a stored operation was refused.
#[derive(Clone, Copy, Debug, PartialEq, Eq)]
pub enum RepoError {
    /// No price table has been stored.
    NoPriceTable,
    /// The group has been paid for, so it cannot be cancelled.
    AlreadyPayed,
}

/// The row a price table is stored as.
pub open spec fn price_row_of(t: PriceTable) -> PriceRow {
    PriceRow {
        id: t.id@,
        base: t.base as i32,
        egg: t.egg as i32,
        cheese: t.cheese as i32,
        spicy_mayonnaise: t.spicy_mayonnaise as i32,
        no_mayonnaise: t.no_mayonnaise as i32,
        no_sauce: t.no_sauce as i32,
        no_bonito: t.no_bonito as i32,
        no_aonori: t.no_aonori as i32,
    }
}

/// `t` is the price table read from `r`: each price is the row's value cut to 16 bits.
pub open spec fn is_table_of_row(t: PriceTable, r: PriceRow) -> bool {
    &&& t.id@ == r.id
    &&& t.base == r.base as u16
    &&& t.egg == r.egg as u16
    &&& t.cheese == r.cheese as u16
    &&& t.spicy_mayonnaise == r.spicy_mayonnaise as u16
    &&& t.no_mayonnaise == r.no_mayonnaise as u16
    &&& t.no_sauce == r.no_sauce as u16
    &&& t.no_bonito == r.no_bonito as u16
    &&& t.no_aonori == r.no_aonori as u16
}

/// The two tables have the same identifier and the same prices.
pub open spec fn same_table(a: PriceTable, b: PriceTable) -> bool {
    &&& a.id@ == b.id@
    &&& a.base == b.base
    &&& a.egg == b.egg
    &&& a.cheese == b.cheese
    &&& a.spicy_mayonnaise == b.spicy_mayonnaise
    &&& a.no_mayonnaise == b.no_mayonnaise
    &&& a.no_sauce == b.no_sauce
    &&& a.no_bonito == b.no_bonito
    &&& a.no_aonori == b.no_aonori
}

/// Every price of the row is a possible price of a table (from 0 to 65535).
pub open spec fn prices_in_range(r: PriceRow) -> bool {
    &&& 0 <= r.base <= u16::MAX
    &&& 0 <= r.egg <= u16::MAX
    &&& 0 <= r.cheese <= u16::MAX
    &&& 0 <= r.spicy_mayonnaise <= u16::MAX
    &&& 0 <= r.no_mayonnaise <= u16::MAX
    &&& 0 <= r.no_sauce <= u16::MAX
    &&& 0 <= r.no_bonito <= u16::MAX
    &&& 0 <= r.no_aonori <= u16::MAX
}

impl PriceTable {
    /// The price table stored in `row`; each price is the row's value cut to 16 bits.
    pub fn from_row(row: &PriceRow) -> (t: PriceTable)
        ensures
            is_table_of_row(t, *row),
    {
        PriceTable {
            id: Id::from_u128(row.id),
            base: row.base as u16,
            egg: row.egg as u16,
            cheese: row.cheese as u16,
            spicy_mayonnaise: row.spicy_mayonnaise as u16,
            no_mayonnaise: row.no_mayonnaise as u16,
            no_sauce: row.no_sauce as u16,
            no_bonito: row.no_bonito as u16,
            no_aonori: row.no_aonori as u16,
        }
    }

    /// The row this price table is stored as.
    pub fn to_row(&self) -> (row: PriceRow)
        ensures
            row == price_row_of(*self),
    {
        PriceRow {
            id: self.id.as_u128(),
            base: self.base as i32,
            egg: self.egg as i32,
            cheese: self.cheese as i32,
            spicy_mayonnaise: self.spicy_mayonnaise as i32,
            no_mayonnaise: self.no_mayonnaise as i32,
            no_sauce: self.no_sauce as i32,
            no_bonito: self.no_bonito as i32,
            no_aonori: self.no_aonori as i32,
        }
    }

    /// The latest price table, from the newest stored row; an error when none is stored.
    pub fn from_latest(row: Option<PriceRow>) -> (t: Result<PriceTable, RepoError>)
        ensures
            row is None <==> t == Err::<PriceTable, RepoError>(RepoError::NoPriceTable),
            row matches Some(r) ==> (t matches Ok(table) && is_table_of_row(table, r)),
    {
        match row {
            Some(r) => Ok(PriceTable::from_row(&r)),
            None => Err(RepoError::NoPriceTable),
        }
    }
}

/// A price table read back from the row it was stored as is the same table.
pub proof fn lemma_price_row_round_trip(t: PriceTable, read: PriceTable)
    requires
        is_table_of_row(read, price_row_of(t)),
    ensures
        same_table(read, t),
{
}

/// Storing a table read from a row gives back that row exactly when every price of the
/// row lies between 0 and 65535.
pub proof fn lemma_row_price_round_trip(r: PriceRow, t: PriceTable)
    requires
        is_table_of_row(t, r),
    ensures
        price_row_of(t) == r <==> prices_in_range(r),
{
    if !prices_in_range(r) {
        if price_row_of(t) == r {
            assert(0 <= t.base as i32 <= u16::MAX);
        }
    }
}

/// The row an order of the group `group_id` is stored as.
pub open spec fn order_row_of(o: Order, group_id: u128) -> OrderRow {
    OrderRow {
        id: o.id@,
        group_id,
        egg: o.egg,
        cheese: o.cheese,
        spicy_mayonnaise: o.spicy_mayonnaise,
        no_mayonnaise: o.no_mayonnaise,
        no_sauce: o.no_sauce,
        no_bonito: o.no_bonito,
        no_aonori: o.no_aonori,
        created_at: o.created_at,
    }
}

/// `o` is the order read from `r`.
pub open spec fn is_order_of_row(o: Order, r: OrderRow) -> bool {
    &&& o.id@ == r.id
    &&& o.egg == r.egg
    &&& o.cheese == r.cheese
    &&& o.spicy_mayonnaise == r.spicy_mayonnaise
    &&& o.no_mayonnaise == r.no_mayonnaise
    &&& o.no_sauce == r.no_sauce
    &&& o.no_bonito == r.no_bonito
    &&& o.no_aonori == r.no_aonori
    &&& o.created_at == r.created_at
}

/// The two orders have the same identifier, options and time.
pub open spec fn same_order(a: Order, b: Order) -> bool {
    &&& a.id@ == b.id@
    &&& a.egg == b.egg
    &&& a.cheese == b.cheese
    &&& a.spicy_mayonnaise == b.spicy_mayonnaise
    &&& a.no_mayonnaise == b.no_mayonnaise
    &&& a.no_sauce == b.no_sauce
    &&& a.no_bonito == b.no_bonito
    &&& a.no_aonori == b.no_aonori
    &&& a.created_at == b.created_at
}

/// The queued order read from a queue row: the order of its row, the wait number
/// and the chef's number cut to 32 and 8 bits.
pub open spec fn is_queued_of_row(q: QueuedOrder, r: QueuedRow) -> bool {
    &&& is_order_of_row(q.order, r.order)
    &&& q.wait_number == WaitNumber(r.wait_number as u32)
    &&& q.assigned_cheff == match r.chef_number {
        Some(c) => Some(ChefCode(c as u8)),
        None => None::<ChefCode>,
    }
}

impl Order {
    /// The order stored in `row`.
    pub fn from_row(row: &OrderRow) -> (o: Order)
        ensures
            is_order_of_row(o, *row),
    {
        Order {
            id: Id::from_u128(row.id),
            egg: row.egg,
            cheese: row.cheese,
            spicy_mayonnaise: row.spicy_mayonnaise,
            no_mayonnaise: row.no_mayonnaise,
            no_sauce: row.no_sauce,
            no_bonito: row.no_bonito,
            no_aonori: row.no_aonori,
            created_at: row.created_at,
        }
    }

    /// The row this order is stored as, in the group `group_id`.
    pub fn to_row(&self, group_id: u128) -> (row: OrderRow)
        ensures
            row == order_row_of(*self, group_id),
    {
        OrderRow {
            id: self.id.as_u128(),
            group_id,
            egg: self.egg,
            cheese: self.cheese,
            spicy_mayonnaise: self.spicy_mayonnaise,
            no_mayonnaise: self.no_mayonnaise,
            no_sauce: self.no_sauce,
            no_bonito: self.no_bonito,
            no_aonori: self.no_aonori,
            created_at: self.created_at,
        }
    }
}

impl OrderGroup {
    /// The rows the group is stored as: one for the group, naming its price table, and
    /// one for each of its orders, in order, each naming the group.
    pub fn to_rows(&self) -> (rows: (OrderGroupRow, Vec<OrderRow>))
        ensures
            rows.0 == (OrderGroupRow {
                id: self.id@,
                price_table_id: self.price_table.id@,
                created_at: self.created_at,
            }),
            rows.1@.len() == self.orders@.len(),
            forall|k: int|
                0 <= k < self.orders@.len() ==> #[trigger] rows.1@[k] == order_row_of(
                    self.orders@[k],
                    self.id@,
                ),
    {
        let group_id = self.id.as_u128();
        let group = OrderGroupRow {
            id: group_id,
            price_table_id: self.price_table.id.as_u128(),
            created_at: self.created_at,
        };
        let mut orders: Vec<OrderRow> = Vec::new();
        let mut i: usize = 0;
        while i < self.orders.len()
            invariant
                i <= self.orders.len(),
                group_id == self.id@,
                orders@.len() == i,
                forall|k: int|
                    0 <= k < i ==> #[trigger] orders@[k] == order_row_of(self.orders@[k], group_id),
            decreases self.orders.len() - i,
        {
            orders.push(self.orders[i].to_row(group_id));
            i = i + 1;
        }
        (group, orders)
    }
}

/// An order read back from the row it was stored as is the same order.
pub proof fn lemma_order_row_round_trip(o: Order, group_id: u128, read: Order)
    requires
        is_order_of_row(read, order_row_of(o, group_id)),
    ensures
        same_order(read, o),
{
}

/// What the stored row asks for an order: the `base` column plus, for each option
/// chosen, the column of that option.
pub open spec fn row_charge(r: PriceRow, o: Order) -> int {
    r.base as int + (if o.egg { r.egg as int } else { 0 }) + (if o.cheese { r.cheese as int } else { 0 }) + (if o.spicy_mayonnaise { r.spicy_mayonnaise as int } else { 0 }) + (if o.no_mayonnaise { r.no_mayonnaise as int } else { 0 }) + (if o.no_sauce { r.no_sauce as int } else { 0 }) + (if o.no_bonito { r.no_bonito as int } else { 0 }) + (if o.no_aonori { r.no_aonori as int } else { 0 })
}

/// A table read from a row charges what the row's columns ask, each option at its own
/// column, as long as every price in the row is a possible price (0 to 65535).
pub proof fn lemma_read_table_charges_row(r: PriceRow, t: PriceTable, o: Order)
    requires
        is_table_of_row(t, r),
        prices_in_range(r),
    ensures
        order_price(o, t) == row_charge(r, o),
{
}

/// The row a table is stored as asks, column by column, what the table charges.
pub proof fn lemma_stored_row_charges_table(t: PriceTable, o: Order)
    ensures
        row_charge(price_row_of(t), o) == order_price(o, t),
        prices_in_range(price_row_of(t)),
{
}

/// A queued order read from a queue row carries the order stored in the row, just as
/// reading that order row on its own gives it.
pub proof fn lemma_queued_order_is_stored_order(q: QueuedOrder, r: QueuedRow, o: Order)
    requires
        is_queued_of_row(q, r),
        is_order_of_row(o, r.order),
    ensures
        same_order(q.order, o),
        q.order.egg == r.order.egg,
        q.order.cheese == r.order.cheese,
        q.order.spicy_mayonnaise == r.order.spicy_mayonnaise,
        q.order.no_mayonnaise == r.order.no_mayonnaise,
        q.order.no_sauce == r.order.no_sauce,
        q.order.no_bonito == r.order.no_bonito,
        q.order.no_aonori == r.order.no_aonori,
{
}

impl QueuedOrder {
    /// The queued order of a queue row.
    pub fn from_row(row: &QueuedRow) -> (q: QueuedOrder)
        ensures
            is_queued_of_row(q, *row),
    {
        QueuedOrder {
            wait_number: WaitNumber(row.wait_number as u32),
            assigned_cheff: match row.chef_number {
                Some(c) => Some(ChefCode(c as u8)),
                None => None,
            },
            order: Order::from_row(&row.order),
        }
    }

    /// The queued orders of the rows, in the order of the rows.
    pub fn from_rows(rows: &Vec<QueuedRow>) -> (qs: Vec<QueuedOrder>)
        ensures
            qs@.len() == rows@.len(),
            forall|k: int| 0 <= k < rows@.len() ==> is_queued_of_row(#[trigger] qs@[k], rows@[k]),
    {
        let mut qs: Vec<QueuedOrder> = Vec::new();
        let mut i: usize = 0;
        while i < rows.len()
            invariant
                i <= rows.len(),
                qs@.len() == i,
                forall|k: int| 0 <= k < i ==> is_queued_of_row(#[trigger] qs@[k], rows@[k]),
            decreases rows.len() - i,
        {
            qs.push(QueuedOrder::from_row(&rows[i]));
            i = i + 1;
        }
        qs
    }
}

/// The wait numbers handed out when a group's orders are queued, in the order
/// returned; each is the stored number cut to 32 bits.
pub fn wait_numbers_of(numbers: &Vec<i32>) -> (w: Vec<WaitNumber>)
    ensures
        w@.len() == numbers@.len(),
        forall|k: int| 0 <= k < numbers@.len() ==> #[trigger] w@[k] == WaitNumber(numbers@[k] as u32),
{
    let mut w: Vec<WaitNumber> = Vec::new();
    let mut i: usize = 0;
    while i < numbers.len()
        invariant
            i <= numbers.len(),
            w@.len() == i,
            forall|k: int| 0 <= k < i ==> #[trigger] w@[k] == WaitNumber(numbers@[k] as u32),
        decreases numbers.len() - i,
    {
        w.push(WaitNumber(numbers[i] as u32));
        i = i + 1;
    }
    w
}

impl PayedEvent {
    /// The row this payment is stored as.
    pub fn to_row(&self) -> (row: PayedRow)
        ensures
            row == (PayedRow {
                order_group_id: self.order_group_id@,
                payed_amount: self.payed_amount as i32,
                created_at: self.created_at,
            }),
    {
        PayedRow {
            order_group_id: self.order_group_id.as_u128(),
            payed_amount: self.payed_amount as i32,
            created_at: self.created_at,
        }
    }
}

/// The row recording that the order `order_id` was given to the chef `chef_number`.
pub fn assignment_row(order_id: Id<OrderTag>, chef_number: u8) -> (row: AssignedRow)
    ensures
        row == (AssignedRow { order_id: order_id@, chef_number: chef_number as i32 }),
{
    AssignedRow { order_id: order_id.as_u128(), chef_number: chef_number as i32 }
}

/// Whether a group may be cancelled: only while it has not been paid for.
pub fn check_cancellable(already_payed: bool) -> (r: Result<(), RepoError>)
    ensures
        already_payed <==> r == Err::<(), RepoError>(RepoError::AlreadyPayed),
        !already_payed <==> r is Ok,
{
    if already_payed {
        Err(RepoError::AlreadyPayed)
    } else {
        Ok(())
    }
}

} // verus!
