//! The live boards: which events make each board refresh, what a refresh sends, and
//! how a board's connection reacts to what happens on it.

use crate::model::WaitNumber;
use crate::rows::QueuedOrder;
use vstd::prelude::*;

verus! {

broadcast use vstd::seq_lib::group_to_multiset_ensures, vstd::seq_lib::to_multiset_insert;

/// What just happened to the orders.
#[derive(Clone, Copy, Debug, PartialEq, Eq)]
pub enum Trigger {
    /// A group was paid for and its orders queued.
    Order,
    /// An order was given to a chef.
    Assign,
    /// An order was cooked.
    Cooked,
    /// An order was handed over.
    Delivered,
}

/// The live boards.
#[derive(Clone, Copy, Debug, PartialEq, Eq)]
pub enum SyncKind {
    /// The kitchen's queue of orders still to cook.
    QueuedOrders,
    /// The customers' board of wait numbers: those cooking and those being called.
    PendingAndReady,
    /// The counter's list of orders ready to hand over.
    ReadyOrders,
}

/// The board refreshes when this happens.
pub open spec fn spec_listens_to(kind: SyncKind, trigger: Trigger) -> bool {
    match kind {
        SyncKind::QueuedOrders => trigger == Trigger::Order || trigger == Trigger::Assign
            || trigger == Trigger::Cooked,
        SyncKind::PendingAndReady => trigger == Trigger::Order || trigger == Trigger::Cooked
            || trigger == Trigger::Delivered,
        SyncKind::ReadyOrders => trigger == Trigger::Cooked || trigger == Trigger::Delivered,
    }
}

/// Whether the board refreshes on `trigger`: the kitchen queue on new, assigned and
/// cooked orders; the wait-number board on new, cooked and delivered orders; the
/// counter on cooked and delivered orders.
pub fn listens_to(kind: SyncKind, trigger: Trigger) -> (b: bool)
    ensures
        b == spec_listens_to(kind, trigger),
{
    match kind {
        SyncKind::QueuedOrders => match trigger {
            Trigger::Order | Trigger::Assign | Trigger::Cooked => true,
            Trigger::Delivered => false,
        },
        SyncKind::PendingAndReady => match trigger {
            Trigger::Order | Trigger::Cooked | Trigger::Delivered => true,
            Trigger::Assign => false,
        },
        SyncKind::ReadyOrders => match trigger {
            Trigger::Cooked | Trigger::Delivered => true,
            Trigger::Order | Trigger::Assign => false,
        },
    }
}

/// Whether a refresh of the board reads the queued orders.
pub fn reads_queued(kind: SyncKind) -> (b: bool)
    ensures
        b <==> (kind == SyncKind::QueuedOrders || kind == SyncKind::PendingAndReady),
{
    match kind {
        SyncKind::QueuedOrders | SyncKind::PendingAndReady => true,
        SyncKind::ReadyOrders => false,
    }
}

/// Whether a refresh of the board reads the orders ready to hand over.
pub fn reads_ready(kind: SyncKind) -> (b: bool)
    ensures
        b <==> (kind == SyncKind::PendingAndReady || kind == SyncKind::ReadyOrders),
{
    match kind {
        SyncKind::QueuedOrders => false,
        SyncKind::PendingAndReady | SyncKind::ReadyOrders => true,
    }
}

/// The numbers are in ascending order.
pub open spec fn ascending(s: Seq<WaitNumber>) -> bool {
    forall|i: int, j: int| 0 <= i < j < s.len() ==> s[i].0 <= s[j].0
}

/// The wait numbers of the orders, in their order.
pub open spec fn wait_numbers(qs: Seq<QueuedOrder>) -> Seq<WaitNumber> {
    qs.map_values(|q: QueuedOrder| q.wait_number)
}

/// The numbers, rearranged into ascending order.
pub fn sort_wait_numbers(numbers: Vec<WaitNumber>) -> (sorted: Vec<WaitNumber>)
    ensures
        ascending(sorted@),
        sorted@.to_multiset() == numbers@.to_multiset(),
{
    let mut sorted: Vec<WaitNumber> = Vec::new();
    let mut i: usize = 0;
    while i < numbers.len()
        invariant
            i <= numbers.len(),
            ascending(sorted@),
            sorted@.to_multiset() == numbers@.take(i as int).to_multiset(),
        decreases numbers.len() - i,
    {
        let x = numbers[i];
        let mut p: usize = 0;
        while p < sorted.len() && sorted[p].0 <= x.0
            invariant
                p <= sorted.len(),
                forall|k: int| 0 <= k < p ==> sorted@[k].0 <= x.0,
            decreases sorted.len() - p,
        {
            p = p + 1;
        }
        let ghost before = sorted@;
        sorted.insert(p, x);
        proof {
            assert(sorted@ == before.insert(p as int, x));
            assert(numbers@.take(i + 1) =~= numbers@.take(i as int).push(x));
            assert forall|a: int, b: int| 0 <= a < b < sorted@.len() implies sorted@[a].0
                <= sorted@[b].0 by {
                if b < p {
                } else if b == p {
                } else if a < p {
                    assert(before[a].0 <= x.0);
                    if p < before.len() {
                        assert(before[p as int].0 <= before[b - 1].0);
                    }
                } else if a == p {
                    assert(before[p as int].0 > x.0);
                    assert(before[p as int].0 <= before[b - 1].0 || b - 1 == p);
                } else {
                    assert(before[a - 1].0 <= before[b - 1].0);
                }
            }
        }
        i = i + 1;
    }
    assert(numbers@.take(numbers@.len() as int) =~= numbers@);
    sorted
}

/// The wait numbers of the orders, in ascending order.
pub fn sorted_wait_numbers(orders: &Vec<QueuedOrder>) -> (sorted: Vec<WaitNumber>)
    ensures
        ascending(sorted@),
        sorted@.to_multiset() == wait_numbers(orders@).to_multiset(),
{
    let mut numbers: Vec<WaitNumber> = Vec::new();
    let mut i: usize = 0;
    while i < orders.len()
        invariant
            i <= orders.len(),
            numbers@ == wait_numbers(orders@.take(i as int)),
        decreases orders.len() - i,
    {
        numbers.push(orders[i].wait_number);
        proof {
            assert(wait_numbers(orders@.take(i + 1)) =~= wait_numbers(orders@.take(i as int)).push(
                orders@[i as int].wait_number,
            ));
        }
        i = i + 1;
    }
    assert(orders@.take(orders@.len() as int) =~= orders@);
    sort_wait_numbers(numbers)
}

/// What a refresh sends to a board.
#[derive(Debug)]
pub enum SyncPayload {
    /// The kitchen's queue: the queued orders.
    Queue(Vec<QueuedOrder>),
    /// The wait-number board: the numbers still cooking and those being called.
    Board { pending: Vec<WaitNumber>, calling: Vec<WaitNumber> },
    /// The counter's list: the orders ready to hand over.
    Calling(Vec<QueuedOrder>),
}

/// What a refresh of the board sends, from the queued orders and the orders ready to
/// hand over (a board ignores the list it does not read): the kitchen gets the queue
/// as it is; the wait-number board gets the wait numbers of both lists, each in
/// ascending order; the counter gets the ready orders as they are.
pub fn sync_payload(kind: SyncKind, queued: Vec<QueuedOrder>, ready: Vec<QueuedOrder>) -> (p:
    SyncPayload)
    ensures
        kind == SyncKind::QueuedOrders ==> (p matches SyncPayload::Queue(q) && q@ == queued@),
        kind == SyncKind::ReadyOrders ==> (p matches SyncPayload::Calling(r) && r@ == ready@),
        kind == SyncKind::PendingAndReady ==> (p matches SyncPayload::Board { pending, calling } && {
            &&& ascending(pending@)
            &&& pending@.to_multiset() == wait_numbers(queued@).to_multiset()
            &&& ascending(calling@)
            &&& calling@.to_multiset() == wait_numbers(ready@).to_multiset()
        }),
{
    match kind {
        SyncKind::QueuedOrders => SyncPayload::Queue(queued),
        SyncKind::PendingAndReady => {
            let pending = sorted_wait_numbers(&queued);
            let calling = sorted_wait_numbers(&ready);
            SyncPayload::Board { pending, calling }
        },
        SyncKind::ReadyOrders => SyncPayload::Calling(ready),
    }
}

/// The payload of the pings a board's connection sends before each refresh.
pub open spec fn spec_ping_magic() -> Seq<u8> {
    seq![0x07u8, 0x08u8]
}

/// The payload of the pings a board's connection sends before each refresh.
pub fn ping_magic() -> (magic: Vec<u8>)
    ensures
        magic@ == spec_ping_magic(),
{
    let mut magic: Vec<u8> = Vec::new();
    magic.push(0x07);
    magic.push(0x08);
    assert(magic@ =~= spec_ping_magic());
    magic
}

/// What happens on a board's connection.
#[derive(Debug)]
pub enum WsEvent {
    /// The periodic refresh is due.
    Tick,
    /// One of the events the board listens to happened.
    Triggered,
    /// The client's stream ended.
    Ended,
    /// A message from the client could not be decoded.
    BadMessage,
    /// The client answered a ping with this payload.
    Pong(Vec<u8>),
    /// The client pinged.
    Ping,
    /// The client closed the connection.
    Close,
    /// Any other message from the client.
    Other,
}

/// What the connection does next.
#[derive(Clone, Copy, Debug, PartialEq, Eq)]
pub enum WsAction {
    /// Ping the client, then send it a refresh.
    Sync,
    /// Wait for the next event.
    Continue,
    /// Log that a pong carried an unknown payload, then wait for the next event.
    WarnUnknownPong,
    /// Stop serving the connection, without error.
    Finish,
    /// Stop serving the connection with an error.
    Fail,
}

/// What the connection does on `event`.
pub open spec fn spec_ws_action(event: WsEvent) -> WsAction {
    match event {
        WsEvent::Tick => WsAction::Sync,
        WsEvent::Triggered => WsAction::Sync,
        WsEvent::Ended => WsAction::Finish,
        WsEvent::BadMessage => WsAction::Fail,
        WsEvent::Pong(payload) => if payload@ == spec_ping_magic() {
            WsAction::Continue
        } else {
            WsAction::WarnUnknownPong
        },
        WsEvent::Ping => WsAction::Continue,
        WsEvent::Close => WsAction::Finish,
        WsEvent::Other => WsAction::Continue,
    }
}

/// What the connection does on `event`: refresh when the period is due or the board's
/// events happen; stop when the client leaves or closes; fail on an undecodable message;
/// let pings be answered by the server; check that pongs carry the ping's payload.
pub fn next_ws_action(event: &WsEvent) -> (action: WsAction)
    ensures
        action == spec_ws_action(*event),
{
    match event {
        WsEvent::Tick => WsAction::Sync,
        WsEvent::Triggered => WsAction::Sync,
        WsEvent::Ended => WsAction::Finish,
        WsEvent::BadMessage => WsAction::Fail,
        WsEvent::Pong(payload) => {
            if payload.len() == 2 && payload[0] == 0x07 && payload[1] == 0x08 {
                assert(payload@ =~= spec_ping_magic());
                WsAction::Continue
            } else {
                WsAction::WarnUnknownPong
            }
        },
        WsEvent::Ping => WsAction::Continue,
        WsEvent::Close => WsAction::Finish,
        WsEvent::Other => WsAction::Continue,
    }
}

} // verus!
