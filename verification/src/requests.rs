use vstd::prelude::*;

use crate::payloads::{Payloads, PayloadsView};
use crate::transfer::{ReceiveMessage, ReceiveMessageView};

verus! {

/// What the application asks of its network side.
#[derive(Debug)]
pub enum AppRequest {
    /// Send the encoded synchronisation data `data`, stamped with the send
    /// time whose IEEE-754 bit pattern is `time_bits`.
    Update { data: Vec<u8>, time_bits: u64, is_unreliable: bool },
    /// Hand control to the pilot named `target`.
    TransferControl { target: String },
    /// Take control back from the pilot named `from`.
    TakeControl { from: String },
    /// Become an observer.
    SetSelfObserver,
    /// Mark the pilot named `target` as observing or not.
    SetObserver { target: String, is_observer: bool },
    /// Ready to receive data.
    Ready,
    /// Send the aircraft definition `bytes` to the pilot named `target`.
    SendDefinitions { bytes: Vec<u8>, target: String },
}

pub enum AppRequestView {
    Update { data: Seq<u8>, time_bits: u64, is_unreliable: bool },
    TransferControl { target: Seq<char> },
    TakeControl { from: Seq<char> },
    SetSelfObserver,
    SetObserver { target: Seq<char>, is_observer: bool },
    Ready,
    SendDefinitions { bytes: Seq<u8>, target: Seq<char> },
}

impl View for AppRequest {
    type V = AppRequestView;

    open spec fn view(&self) -> AppRequestView {
        match self {
            AppRequest::Update { data, time_bits, is_unreliable } => AppRequestView::Update {
                data: data@,
                time_bits: *time_bits,
                is_unreliable: *is_unreliable,
            },
            AppRequest::TransferControl { target } => AppRequestView::TransferControl { target: target@ },
            AppRequest::TakeControl { from } => AppRequestView::TakeControl { from: from@ },
            AppRequest::SetSelfObserver => AppRequestView::SetSelfObserver,
            AppRequest::SetObserver { target, is_observer } => AppRequestView::SetObserver {
                target: target@,
                is_observer: *is_observer,
            },
            AppRequest::Ready => AppRequestView::Ready,
            AppRequest::SendDefinitions { bytes, target } => AppRequestView::SendDefinitions {
                bytes: bytes@,
                target: target@,
            },
        }
    }
}

/// Where a message made for a request goes: to the peers (to the one named
/// `target` alone, if given), or back to the application itself.
#[derive(Debug)]
pub enum Routed {
    ToPeers { payload: Payloads, target: Option<String> },
    ToApp(ReceiveMessage),
}

pub enum RoutedView {
    ToPeers { payload: PayloadsView, target: Option<Seq<char>> },
    ToApp(ReceiveMessageView),
}

impl View for Routed {
    type V = RoutedView;

    open spec fn view(&self) -> RoutedView {
        match self {
            Routed::ToPeers { payload, target } => RoutedView::ToPeers {
                payload: payload@,
                target: match target {
                    Some(t) => Some(t@),
                    None => None,
                },
            },
            Routed::ToApp(m) => RoutedView::ToApp(m@),
        }
    }
}

/// The messages, as views.
pub open spec fn routes(s: Seq<Routed>) -> Seq<RoutedView> {
    s.map_values(|r: Routed| r@)
}

/// A payload for every peer.
pub open spec fn to_all(payload: PayloadsView) -> RoutedView {
    RoutedView::ToPeers { payload, target: None }
}

/// What the pilot named `name` sends for `request`: every request makes one
/// payload for the peers; a transfer of control, either way, is also handed
/// back to the application, which then sees it as it sees one from a peer.
pub open spec fn request_routes(name: Seq<char>, request: AppRequestView) -> Seq<RoutedView> {
    match request {
        AppRequestView::Update { data, time_bits, is_unreliable } => seq![
            to_all(PayloadsView::Update { data, from: name, is_unreliable, time_bits }),
        ],
        AppRequestView::TransferControl { target } => {
            let message = PayloadsView::TransferControl { from: name, to: target };
            seq![to_all(message), RoutedView::ToApp(ReceiveMessageView::Payload(message))]
        },
        AppRequestView::TakeControl { from } => {
            let message = PayloadsView::TransferControl { from, to: name };
            seq![to_all(message), RoutedView::ToApp(ReceiveMessageView::Payload(message))]
        },
        AppRequestView::SetSelfObserver => seq![to_all(PayloadsView::SetSelfObserver { name })],
        AppRequestView::SetObserver { target, is_observer } => seq![
            to_all(PayloadsView::SetObserver { from: name, to: target, is_observer }),
        ],
        AppRequestView::Ready => seq![to_all(PayloadsView::Ready)],
        AppRequestView::SendDefinitions { bytes, target } => seq![
            RoutedView::ToPeers { payload: PayloadsView::AircraftDefinition { bytes }, target: Some(target) },
        ],
    }
}

/// The messages the pilot named `name` sends for `request`: see
/// `request_routes`.
pub fn route_request(name: &String, request: AppRequest) -> (res: Vec<Routed>)
    ensures
        routes(res@) == request_routes(name@, request@),
{
    let mut res: Vec<Routed> = Vec::new();
    match request {
        AppRequest::Update { data, time_bits, is_unreliable } => {
            res.push(Routed::ToPeers {
                payload: Payloads::Update { data, from: name.clone(), is_unreliable, time_bits },
                target: None,
            });
        },
        AppRequest::TransferControl { target } => {
            let message = Payloads::TransferControl { from: name.clone(), to: target };
            let echo = message.duplicate();
            res.push(Routed::ToPeers { payload: message, target: None });
            res.push(Routed::ToApp(ReceiveMessage::Payload(echo)));
        },
        AppRequest::TakeControl { from } => {
            let message = Payloads::TransferControl { from, to: name.clone() };
            let echo = message.duplicate();
            res.push(Routed::ToPeers { payload: message, target: None });
            res.push(Routed::ToApp(ReceiveMessage::Payload(echo)));
        },
        AppRequest::SetSelfObserver => {
            res.push(Routed::ToPeers { payload: Payloads::SetSelfObserver { name: name.clone() }, target: None });
        },
        AppRequest::SetObserver { target, is_observer } => {
            res.push(Routed::ToPeers {
                payload: Payloads::SetObserver { from: name.clone(), to: target, is_observer },
                target: None,
            });
        },
        AppRequest::Ready => {
            res.push(Routed::ToPeers { payload: Payloads::Ready, target: None });
        },
        AppRequest::SendDefinitions { bytes, target } => {
            res.push(Routed::ToPeers { payload: Payloads::AircraftDefinition { bytes }, target: Some(target) });
        },
    }
    assert(routes(res@) =~= request_routes(name@, request@));
    res
}

} // verus!
