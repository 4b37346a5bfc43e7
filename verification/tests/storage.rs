use api::model::{Id, Order, OrderGroup, PayedEvent, PriceTable, Timestamp, WaitNumber, ChefCode};
use api::rows::{
    assignment_row, check_cancellable, wait_numbers_of, OrderRow, PriceRow, QueuedOrder,
    QueuedRow, RepoError,
};

fn row() -> PriceRow {
    PriceRow {
        id: 42,
        base: 300,
        egg: 50,
        cheese: 100,
        spicy_mayonnaise: 30,
        no_mayonnaise: 0,
        no_sauce: 0,
        no_bonito: 0,
        no_aonori: 0,
    }
}

fn order_row(id: u128) -> OrderRow {
    OrderRow {
        id,
        group_id: 9,
        egg: true,
        cheese: false,
        spicy_mayonnaise: true,
        no_mayonnaise: false,
        no_sauce: true,
        no_bonito: false,
        no_aonori: false,
        created_at: Timestamp { secs: 1_700_000_000, nanos: 5 },
    }
}

#[test]
fn price_row_round_trip() {
    let t = PriceTable::from_row(&row());
    assert_eq!(t.id.as_u128(), 42);
    assert_eq!(t.base, 300);
    assert_eq!(t.spicy_mayonnaise, 30);
    assert_eq!(t.to_row(), row());
    let back = PriceTable::from_row(&t.to_row());
    assert_eq!(back.to_row(), t.to_row());
}

#[test]
fn out_of_range_prices_are_cut_to_16_bits() {
    let mut r = row();
    r.base = 70000;
    r.cheese = -1;
    let t = PriceTable::from_row(&r);
    assert_eq!(t.base, 4464);
    assert_eq!(t.cheese, 65535);
    assert_ne!(t.to_row(), r);
}

#[test]
fn latest_price_table_missing_is_an_error() {
    assert!(matches!(PriceTable::from_latest(None), Err(RepoError::NoPriceTable)));
    let t = PriceTable::from_latest(Some(row())).unwrap();
    assert_eq!(t.egg, 50);
}

#[test]
fn order_row_round_trip() {
    let o = Order::from_row(&order_row(3));
    assert_eq!(o.id.as_u128(), 3);
    assert!(o.egg && o.spicy_mayonnaise && o.no_sauce && !o.cheese);
    assert_eq!(o.to_row(9), order_row(3));
    assert_eq!(o.to_row(10).group_id, 10);
}

#[test]
fn group_rows_name_the_group() {
    let g = OrderGroup {
        id: Id::from_u128(9),
        orders: vec![Order::from_row(&order_row(1)), Order::from_row(&order_row(2))],
        price_table: PriceTable::from_row(&row()),
        created_at: Timestamp { secs: 1, nanos: 2 },
    };
    let (group, orders) = g.to_rows();
    assert_eq!(group.id, 9);
    assert_eq!(group.price_table_id, 42);
    assert_eq!(group.created_at, Timestamp { secs: 1, nanos: 2 });
    assert_eq!(orders, vec![order_row(1), order_row(2)]);
}

#[test]
fn queued_rows_become_queued_orders() {
    let rows = vec![
        QueuedRow { order: order_row(1), wait_number: 12, chef_number: Some(3) },
        QueuedRow { order: order_row(2), wait_number: -1, chef_number: Some(300) },
        QueuedRow { order: order_row(3), wait_number: 14, chef_number: None },
    ];
    let qs = QueuedOrder::from_rows(&rows);
    assert_eq!(qs.len(), 3);
    assert_eq!(qs[0].wait_number, WaitNumber(12));
    assert_eq!(qs[0].assigned_cheff, Some(ChefCode(3)));
    assert_eq!(qs[0].order.id.as_u128(), 1);
    assert_eq!(qs[1].wait_number, WaitNumber(u32::MAX));
    assert_eq!(qs[1].assigned_cheff, Some(ChefCode(44)));
    assert_eq!(qs[2].assigned_cheff, None);
    assert_eq!(QueuedOrder::from_row(&rows[2]).wait_number, WaitNumber(14));
}

#[test]
fn queued_wait_numbers_keep_their_order() {
    assert_eq!(wait_numbers_of(&vec![5, 3, 9]), vec![WaitNumber(5), WaitNumber(3), WaitNumber(9)]);
    assert!(wait_numbers_of(&vec![]).is_empty());
}

#[test]
fn payment_and_assignment_rows() {
    let e = PayedEvent { order_group_id: Id::from_u128(8), payed_amount: 65535, created_at: Timestamp { secs: 3, nanos: 4 } };
    let r = e.to_row();
    assert_eq!(r.order_group_id, 8);
    assert_eq!(r.payed_amount, 65535);
    assert_eq!(r.created_at, Timestamp { secs: 3, nanos: 4 });
    let a = assignment_row(Id::from_u128(6), 255);
    assert_eq!(a.order_id, 6);
    assert_eq!(a.chef_number, 255);
}

#[test]
fn paid_group_cannot_be_cancelled() {
    assert_eq!(check_cancellable(true), Err(RepoError::AlreadyPayed));
    assert_eq!(check_cancellable(false), Ok(()));
}
