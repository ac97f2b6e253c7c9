use vstd::prelude::*;

use crate::net_address::NetAddress;
use crate::payloads::{Payloads, PayloadsView};

verus! {

/// How many handshake rounds a hole punch gets before it is given up.
pub const MAX_PUNCH_RETRIES: u8 = 5;

/// How many milliseconds pass between two heartbeats sent by hand.
pub const HEARTBEAT_INTERVAL_MANUAL_MS: u128 = 500;

/// Whether a heartbeat is due after `elapsed_ms` milliseconds.
pub fn is_heartbeat_due(elapsed_ms: u128) -> (due: bool)
    ensures
        due == (elapsed_ms >= HEARTBEAT_INTERVAL_MANUAL_MS),
{
    elapsed_ms >= HEARTBEAT_INTERVAL_MANUAL_MS
}

/// What the network side reports to the application besides payloads.
#[derive(Debug)]
pub enum Event {
    ConnectionEstablished,
    UnablePunchthrough,
    SessionIdFetchFailed,
    ConnectionLost(String),
}

/// An event with its text as a character sequence.
pub enum EventView {
    ConnectionEstablished,
    UnablePunchthrough,
    SessionIdFetchFailed,
    ConnectionLost(Seq<char>),
}

impl View for Event {
    type V = EventView;

    open spec fn view(&self) -> EventView {
        match self {
            Event::ConnectionEstablished => EventView::ConnectionEstablished,
            Event::UnablePunchthrough => EventView::UnablePunchthrough,
            Event::SessionIdFetchFailed => EventView::SessionIdFetchFailed,
            Event::ConnectionLost(reason) => EventView::ConnectionLost(reason@),
        }
    }
}

/// What the network side hands to the application.
#[derive(Debug)]
pub enum ReceiveMessage {
    Payload(Payloads),
    Event(Event),
}

pub enum ReceiveMessageView {
    Payload(PayloadsView),
    Event(EventView),
}

impl View for ReceiveMessage {
    type V = ReceiveMessageView;

    open spec fn view(&self) -> ReceiveMessageView {
        match self {
            ReceiveMessage::Payload(p) => ReceiveMessageView::Payload(p@),
            ReceiveMessage::Event(e) => ReceiveMessageView::Event(e@),
        }
    }
}

/// What a transfer session decides to do: send a payload to each listed
/// address, hand a message to the application, or stop.
#[derive(Debug)]
pub enum TransferAction {
    Send { payload: Payloads, to: Vec<NetAddress> },
    Deliver(ReceiveMessage),
    Stop,
}

pub enum TransferActionView {
    Send { payload: PayloadsView, to: Seq<NetAddress> },
    Deliver(ReceiveMessageView),
    Stop,
}

impl View for TransferAction {
    type V = TransferActionView;

    open spec fn view(&self) -> TransferActionView {
        match self {
            TransferAction::Send { payload, to } => TransferActionView::Send {
                payload: payload@,
                to: to@,
            },
            TransferAction::Deliver(m) => TransferActionView::Deliver(m@),
            TransferAction::Stop => TransferActionView::Stop,
        }
    }
}

/// The actions in `s`, as views.
pub open spec fn actions(s: Seq<TransferAction>) -> Seq<TransferActionView> {
    s.map_values(|a: TransferAction| a@)
}

/// Sending `payload` to the one address `addr`.
pub open spec fn send_to(payload: PayloadsView, addr: NetAddress) -> TransferActionView {
    TransferActionView::Send { payload, to: seq![addr] }
}

/// Handing `payload` to the application.
pub open spec fn deliver(payload: PayloadsView) -> TransferActionView {
    TransferActionView::Deliver(ReceiveMessageView::Payload(payload))
}

/// Reporting `event` to the application.
pub open spec fn report(event: EventView) -> TransferActionView {
    TransferActionView::Deliver(ReceiveMessageView::Event(event))
}

/// Sends `payload` to `addr` alone.
pub fn push_send_to(out: &mut Vec<TransferAction>, payload: Payloads, addr: NetAddress)
    ensures
        actions(final(out)@) == actions(old(out)@).push(send_to(payload@, addr)),
{
    let mut to: Vec<NetAddress> = Vec::new();
    to.push(addr);
    out.push(TransferAction::Send { payload, to });
    assert(actions(final(out)@) =~= actions(old(out)@).push(send_to(payload@, addr)));
}

/// Hands `payload` to the application.
pub fn push_deliver(out: &mut Vec<TransferAction>, payload: Payloads)
    ensures
        actions(final(out)@) == actions(old(out)@).push(deliver(payload@)),
{
    out.push(TransferAction::Deliver(ReceiveMessage::Payload(payload)));
    assert(actions(final(out)@) =~= actions(old(out)@).push(deliver(payload@)));
}

/// Reports `event` to the application.
pub fn push_report(out: &mut Vec<TransferAction>, event: Event)
    ensures
        actions(final(out)@) == actions(old(out)@).push(report(event@)),
{
    out.push(TransferAction::Deliver(ReceiveMessage::Event(event)));
    assert(actions(final(out)@) =~= actions(old(out)@).push(report(event@)));
}

} // verus!
