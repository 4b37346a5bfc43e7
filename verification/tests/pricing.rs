use api::model::{ChefCode, Id, Order, OrderGroup, PayedEvent, PriceTable, Timestamp, WaitNumber};
use api::ordering::OrderRequest;

fn table() -> PriceTable {
    PriceTable {
        id: Id::from_u128(1),
        base: 300,
        egg: 50,
        cheese: 100,
        spicy_mayonnaise: 30,
        no_mayonnaise: 0,
        no_sauce: 0,
        no_bonito: 0,
        no_aonori: 0,
    }
}

fn request(count: u8, egg: bool, cheese: bool, spicy: bool) -> OrderRequest {
    OrderRequest {
        count,
        egg,
        cheese,
        spicy_mayonnaise: spicy,
        no_mayonnaise: false,
        no_sauce: false,
        no_bonito: false,
        no_aonori: false,
    }
}

fn plain_order() -> Order {
    Order {
        id: Id::from_u128(7),
        egg: false,
        cheese: false,
        spicy_mayonnaise: false,
        no_mayonnaise: false,
        no_sauce: false,
        no_bonito: false,
        no_aonori: false,
        created_at: Timestamp { secs: 0, nanos: 0 },
    }
}

#[test]
fn new_ids_are_random_version_4_uuids() {
    let a = Id::<Order>::new();
    let b = Id::<Order>::new();
    let ua = uuid::Uuid::from_u128(a.as_u128());
    assert_eq!(ua.get_version_num(), 4);
    assert_eq!(ua.get_variant(), uuid::Variant::RFC4122);
    assert_ne!(a.as_u128(), b.as_u128());
    let d = Id::<OrderGroup>::default();
    assert_eq!(uuid::Uuid::from_u128(d.as_u128()).get_version_num(), 4);
}

#[test]
fn id_round_trips_through_its_value() {
    let id = Id::<Order>::from_u128(0x0123_4567_89ab_cdef_0123_4567_89ab_cdef);
    assert_eq!(id.as_u128(), 0x0123_4567_89ab_cdef_0123_4567_89ab_cdef);
    let copy = id.clone();
    assert_eq!(copy.as_u128(), id.as_u128());
}

#[test]
fn now_reads_the_clock() {
    let t = Timestamp::now();
    assert!(t.nanos < 1_000_000_000);
    assert!(t.secs > 1_600_000_000);
}

#[test]
fn empty_group_costs_nothing() {
    let g = OrderGroup::from_requests(&vec![], table());
    assert!(g.orders.is_empty());
    assert_eq!(g.total_price(), 0);
    assert_eq!(g.checked_total_price(), Some(0));
}

#[test]
fn group_price_is_count_times_unit_price_summed() {
    // 2 x (300 + 50) + 1 x (300 + 50 + 100 + 30) = 700 + 480
    let reqs = vec![request(2, true, false, false), request(1, true, true, true)];
    let g = OrderGroup::from_requests(&reqs, table());
    assert_eq!(g.orders.len(), 3);
    assert!(g.orders[0].egg && !g.orders[0].cheese);
    assert!(g.orders[1].egg && !g.orders[1].cheese);
    assert!(g.orders[2].egg && g.orders[2].cheese && g.orders[2].spicy_mayonnaise);
    assert_eq!(g.total_price(), 1180);
    assert_eq!(g.checked_total_price(), Some(1180));
    assert_eq!(g.price_table.base, 300);
    assert_eq!(uuid::Uuid::from_u128(g.id.as_u128()).get_version_num(), 4);
    assert!(g.created_at.secs >= 0 && g.orders.iter().all(|o| o.created_at.secs >= 0));
    let ids: Vec<u128> = g.orders.iter().map(|o| o.id.as_u128()).collect();
    assert_ne!(ids[0], ids[1]);
}

#[test]
fn zero_count_request_adds_no_order() {
    let reqs = vec![request(0, true, true, true), request(1, false, false, false)];
    let g = OrderGroup::from_requests(&reqs, table());
    assert_eq!(g.orders.len(), 1);
    assert_eq!(g.total_price(), 300);
}

#[test]
fn negative_options_are_priced_too() {
    let mut t = table();
    t.no_mayonnaise = 10;
    t.no_sauce = 20;
    t.no_bonito = 40;
    t.no_aonori = 80;
    let mut o = plain_order();
    o.no_mayonnaise = true;
    o.no_aonori = true;
    let g = OrderGroup { id: Id::from_u128(2), orders: vec![o], price_table: t, created_at: o.created_at };
    assert_eq!(g.total_price(), 390);
}

#[test]
fn price_overflowing_u16_is_reported() {
    let mut t = table();
    t.base = 40000;
    let g = OrderGroup {
        id: Id::from_u128(3),
        orders: vec![plain_order(), plain_order()],
        price_table: t,
        created_at: Timestamp { secs: 0, nanos: 0 },
    };
    assert_eq!(g.checked_total_price(), None);
    let one = OrderGroup {
        id: Id::from_u128(3),
        orders: vec![plain_order()],
        price_table: t,
        created_at: Timestamp { secs: 0, nanos: 0 },
    };
    assert_eq!(one.checked_total_price(), Some(40000));
}

#[test]
fn price_exactly_u16_max_fits() {
    let mut t = table();
    t.base = 65535;
    let g = OrderGroup {
        id: Id::from_u128(4),
        orders: vec![plain_order()],
        price_table: t,
        created_at: Timestamp { secs: 0, nanos: 0 },
    };
    assert_eq!(g.total_price(), 65535);
    let mut o = plain_order();
    o.egg = true;
    let g2 = OrderGroup { orders: vec![o], ..g };
    assert_eq!(g2.checked_total_price(), None);
}

#[test]
fn payment_records_group_and_amount() {
    let e = PayedEvent::new(Id::from_u128(99), 1180);
    assert_eq!(e.order_group_id.as_u128(), 99);
    assert_eq!(e.payed_amount, 1180);
    assert!(e.created_at.nanos < 1_000_000_000);
    assert!(e.created_at.secs >= 0);
}

#[test]
fn order_from_request_copies_options() {
    let r = request(3, false, true, true);
    let o = Order::from_request(&r, Id::from_u128(5), Timestamp { secs: 10, nanos: 20 });
    assert!(!o.egg && o.cheese && o.spicy_mayonnaise && !o.no_sauce);
    assert_eq!(o.id.as_u128(), 5);
    assert_eq!(o.created_at, Timestamp { secs: 10, nanos: 20 });
}

#[test]
fn wait_number_and_chef_code_compare_by_value() {
    assert_eq!(WaitNumber(3), WaitNumber(3));
    assert_ne!(ChefCode(1), ChefCode(2));
}

#[test]
fn group_price_ignores_order_of_orders_and_identifiers() {
    let mut a = plain_order();
    a.egg = true;
    let mut b = plain_order();
    b.cheese = true;
    b.no_sauce = true;
    let mut b2 = b;
    b2.id = Id::from_u128(1234);
    b2.created_at = Timestamp { secs: 55, nanos: 6 };
    let mut t2 = table();
    t2.id = Id::from_u128(77);
    t2.no_sauce = 0;
    let g1 = OrderGroup { id: Id::from_u128(1), orders: vec![a, b, a], price_table: table(), created_at: Timestamp { secs: 0, nanos: 0 } };
    let g2 = OrderGroup { id: Id::from_u128(2), orders: vec![b2, a, a], price_table: t2, created_at: Timestamp { secs: 9, nanos: 9 } };
    assert_eq!(g1.total_price(), 1100);
    assert_eq!(g2.total_price(), g1.total_price());
}
