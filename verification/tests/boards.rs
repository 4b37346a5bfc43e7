use api::live::{
    listens_to, next_ws_action, ping_magic, reads_queued, reads_ready, sort_wait_numbers,
    sorted_wait_numbers, sync_payload, SyncKind, SyncPayload, Trigger, WsAction, WsEvent,
};
use api::model::{Id, Order, Timestamp, WaitNumber};
use api::rows::QueuedOrder;

fn queued(n: u32) -> QueuedOrder {
    QueuedOrder {
        wait_number: WaitNumber(n),
        assigned_cheff: None,
        order: Order {
            id: Id::from_u128(n as u128),
            egg: false,
            cheese: false,
            spicy_mayonnaise: false,
            no_mayonnaise: false,
            no_sauce: false,
            no_bonito: false,
            no_aonori: false,
            created_at: Timestamp { secs: 0, nanos: 0 },
        },
    }
}

#[test]
fn boards_listen_to_their_events() {
    assert!(listens_to(SyncKind::QueuedOrders, Trigger::Order) && listens_to(SyncKind::QueuedOrders, Trigger::Assign) && listens_to(SyncKind::QueuedOrders, Trigger::Cooked));
    assert!(!listens_to(SyncKind::QueuedOrders, Trigger::Delivered));
    assert!(listens_to(SyncKind::PendingAndReady, Trigger::Order) && listens_to(SyncKind::PendingAndReady, Trigger::Cooked) && listens_to(SyncKind::PendingAndReady, Trigger::Delivered));
    assert!(!listens_to(SyncKind::PendingAndReady, Trigger::Assign));
    assert!(listens_to(SyncKind::ReadyOrders, Trigger::Cooked) && listens_to(SyncKind::ReadyOrders, Trigger::Delivered));
    assert!(!listens_to(SyncKind::ReadyOrders, Trigger::Order) && !listens_to(SyncKind::ReadyOrders, Trigger::Assign));
}

#[test]
fn boards_read_their_lists() {
    assert!(reads_queued(SyncKind::QueuedOrders) && !reads_ready(SyncKind::QueuedOrders));
    assert!(reads_queued(SyncKind::PendingAndReady) && reads_ready(SyncKind::PendingAndReady));
    assert!(!reads_queued(SyncKind::ReadyOrders) && reads_ready(SyncKind::ReadyOrders));
}

#[test]
fn sorting_wait_numbers() {
    let v = vec![WaitNumber(5), WaitNumber(1), WaitNumber(5), WaitNumber(3), WaitNumber(0)];
    assert_eq!(
        sort_wait_numbers(v),
        vec![WaitNumber(0), WaitNumber(1), WaitNumber(3), WaitNumber(5), WaitNumber(5)]
    );
    assert!(sort_wait_numbers(vec![]).is_empty());
    assert_eq!(sorted_wait_numbers(&vec![queued(9), queued(2)]), vec![WaitNumber(2), WaitNumber(9)]);
}

#[test]
fn board_payload_sorts_both_lists() {
    let p = sync_payload(SyncKind::PendingAndReady, vec![queued(7), queued(3)], vec![queued(4), queued(1), queued(2)]);
    match p {
        SyncPayload::Board { pending, calling } => {
            assert_eq!(pending, vec![WaitNumber(3), WaitNumber(7)]);
            assert_eq!(calling, vec![WaitNumber(1), WaitNumber(2), WaitNumber(4)]);
        }
        _ => panic!("the wait-number board gets numbers"),
    }
}

#[test]
fn kitchen_and_counter_get_the_lists_as_read() {
    match sync_payload(SyncKind::QueuedOrders, vec![queued(7), queued(3)], vec![]) {
        SyncPayload::Queue(q) => {
            assert_eq!(q.len(), 2);
            assert_eq!(q[0].wait_number, WaitNumber(7));
        }
        _ => panic!("the kitchen gets the queue"),
    }
    match sync_payload(SyncKind::ReadyOrders, vec![], vec![queued(5)]) {
        SyncPayload::Calling(r) => assert_eq!(r[0].wait_number, WaitNumber(5)),
        _ => panic!("the counter gets the ready orders"),
    }
}

#[test]
fn connection_reacts_to_events() {
    assert_eq!(next_ws_action(&WsEvent::Tick), WsAction::Sync);
    assert_eq!(next_ws_action(&WsEvent::Triggered), WsAction::Sync);
    assert_eq!(next_ws_action(&WsEvent::Ended), WsAction::Finish);
    assert_eq!(next_ws_action(&WsEvent::Close), WsAction::Finish);
    assert_eq!(next_ws_action(&WsEvent::BadMessage), WsAction::Fail);
    assert_eq!(next_ws_action(&WsEvent::Ping), WsAction::Continue);
    assert_eq!(next_ws_action(&WsEvent::Other), WsAction::Continue);
    assert_eq!(next_ws_action(&WsEvent::Pong(vec![7, 8])), WsAction::Continue);
    assert_eq!(next_ws_action(&WsEvent::Pong(vec![7])), WsAction::WarnUnknownPong);
    assert_eq!(next_ws_action(&WsEvent::Pong(vec![8, 7])), WsAction::WarnUnknownPong);
    assert_eq!(next_ws_action(&WsEvent::Pong(vec![7, 8, 9])), WsAction::WarnUnknownPong);
    assert_eq!(ping_magic(), vec![0x07, 0x08]);
}
