use vstd::prelude::*;

use crate::delivery::Delivery;
use crate::net_address::NetAddress;

verus! {

/// The messages exchanged between the application's server, its clients, the
/// hosting server and the rendezvous server.
#[derive(Debug)]
pub enum Payloads {
    InvalidName,
    InvalidVersion { server_version: String },
    AircraftDefinition { bytes: Vec<u8> },
    SetHost,
    RequestHosting { self_hosted: bool, local_endpoint: Option<NetAddress> },
    ConnectionDenied { reason: String },
    PlayerJoined { name: String, in_control: bool, is_server: bool, is_observer: bool },
    PlayerLeft { name: String },
    /// `data` is the encoded synchronisation data; `time_bits` the IEEE-754 bit
    /// pattern of the send time. Both are carried through unchanged.
    Update { data: Vec<u8>, from: String, is_unreliable: bool, time_bits: u64 },
    InitHandshake { name: String, version: String },
    TransferControl { from: String, to: String },
    SetObserver { from: String, to: String, is_observer: bool },
    SetSelfObserver { name: String },
    /// Ready to receive data.
    Ready,
    // Hole punching payloads
    RendezvousHandshake { session_id: String, local_endpoint: Option<NetAddress> },
    /// With the hoster.
    Handshake { session_id: String },
    HostingReceived { session_id: String },
    AttemptConnection { peers: Vec<NetAddress> },
    AttemptHosterConnection { peer: NetAddress },
    PeerEstablished { peer: NetAddress },
    Heartbeat,
}

/// A payload with its text as character sequences and its lists as sequences.
pub enum PayloadsView {
    InvalidName,
    InvalidVersion { server_version: Seq<char> },
    AircraftDefinition { bytes: Seq<u8> },
    SetHost,
    RequestHosting { self_hosted: bool, local_endpoint: Option<NetAddress> },
    ConnectionDenied { reason: Seq<char> },
    PlayerJoined { name: Seq<char>, in_control: bool, is_server: bool, is_observer: bool },
    PlayerLeft { name: Seq<char> },
    Update { data: Seq<u8>, from: Seq<char>, is_unreliable: bool, time_bits: u64 },
    InitHandshake { name: Seq<char>, version: Seq<char> },
    TransferControl { from: Seq<char>, to: Seq<char> },
    SetObserver { from: Seq<char>, to: Seq<char>, is_observer: bool },
    SetSelfObserver { name: Seq<char> },
    Ready,
    RendezvousHandshake { session_id: Seq<char>, local_endpoint: Option<NetAddress> },
    Handshake { session_id: Seq<char> },
    HostingReceived { session_id: Seq<char> },
    AttemptConnection { peers: Seq<NetAddress> },
    AttemptHosterConnection { peer: NetAddress },
    PeerEstablished { peer: NetAddress },
    Heartbeat,
}

impl View for Payloads {
    type V = PayloadsView;

    open spec fn view(&self) -> PayloadsView {
        match self {
            Payloads::InvalidName => PayloadsView::InvalidName,
            Payloads::InvalidVersion { server_version } => PayloadsView::InvalidVersion {
                server_version: server_version@,
            },
            Payloads::AircraftDefinition { bytes } => PayloadsView::AircraftDefinition { bytes: bytes@ },
            Payloads::SetHost => PayloadsView::SetHost,
            Payloads::RequestHosting { self_hosted, local_endpoint } => PayloadsView::RequestHosting {
                self_hosted: *self_hosted,
                local_endpoint: *local_endpoint,
            },
            Payloads::ConnectionDenied { reason } => PayloadsView::ConnectionDenied { reason: reason@ },
            Payloads::PlayerJoined { name, in_control, is_server, is_observer } =>
                PayloadsView::PlayerJoined {
                    name: name@,
                    in_control: *in_control,
                    is_server: *is_server,
                    is_observer: *is_observer,
                },
            Payloads::PlayerLeft { name } => PayloadsView::PlayerLeft { name: name@ },
            Payloads::Update { data, from, is_unreliable, time_bits } => PayloadsView::Update {
                data: data@,
                from: from@,
                is_unreliable: *is_unreliable,
                time_bits: *time_bits,
            },
            Payloads::InitHandshake { name, version } => PayloadsView::InitHandshake {
                name: name@,
                version: version@,
            },
            Payloads::TransferControl { from, to } => PayloadsView::TransferControl {
                from: from@,
                to: to@,
            },
            Payloads::SetObserver { from, to, is_observer } => PayloadsView::SetObserver {
                from: from@,
                to: to@,
                is_observer: *is_observer,
            },
            Payloads::SetSelfObserver { name } => PayloadsView::SetSelfObserver { name: name@ },
            Payloads::Ready => PayloadsView::Ready,
            Payloads::RendezvousHandshake { session_id, local_endpoint } =>
                PayloadsView::RendezvousHandshake {
                    session_id: session_id@,
                    local_endpoint: *local_endpoint,
                },
            Payloads::Handshake { session_id } => PayloadsView::Handshake { session_id: session_id@ },
            Payloads::HostingReceived { session_id } => PayloadsView::HostingReceived {
                session_id: session_id@,
            },
            Payloads::AttemptConnection { peers } => PayloadsView::AttemptConnection { peers: peers@ },
            Payloads::AttemptHosterConnection { peer } => PayloadsView::AttemptHosterConnection {
                peer: *peer,
            },
            Payloads::PeerEstablished { peer } => PayloadsView::PeerEstablished { peer: *peer },
            Payloads::Heartbeat => PayloadsView::Heartbeat,
        }
    }
}

pub(crate) fn copy_bytes(v: &Vec<u8>) -> (res: Vec<u8>)
    ensures
        res@ == v@,
{
    let res = v.clone();
    assert(res@ =~= v@);
    res
}

pub(crate) fn copy_addresses(v: &Vec<NetAddress>) -> (res: Vec<NetAddress>)
    ensures
        res@ == v@,
{
    let mut res: Vec<NetAddress> = Vec::new();
    let mut i: usize = 0;
    while i < v.len()
        invariant
            i <= v.len(),
            res@ == v@.take(i as int),
        decreases v.len() - i,
    {
        res.push(v[i]);
        i = i + 1;
        assert(res@ =~= v@.take(i as int));
    }
    assert(v@.take(i as int) =~= v@);
    res
}

impl Payloads {
    /// A payload equal to this one.
    pub fn duplicate(&self) -> (res: Payloads)
        ensures
            res@ == self@,
    {
        match self {
            Payloads::InvalidName => Payloads::InvalidName,
            Payloads::InvalidVersion { server_version } => Payloads::InvalidVersion {
                server_version: server_version.clone(),
            },
            Payloads::AircraftDefinition { bytes } => Payloads::AircraftDefinition {
                bytes: copy_bytes(bytes),
            },
            Payloads::SetHost => Payloads::SetHost,
            Payloads::RequestHosting { self_hosted, local_endpoint } => Payloads::RequestHosting {
                self_hosted: *self_hosted,
                local_endpoint: *local_endpoint,
            },
            Payloads::ConnectionDenied { reason } => Payloads::ConnectionDenied { reason: reason.clone() },
            Payloads::PlayerJoined { name, in_control, is_server, is_observer } =>
                Payloads::PlayerJoined {
                    name: name.clone(),
                    in_control: *in_control,
                    is_server: *is_server,
                    is_observer: *is_observer,
                },
            Payloads::PlayerLeft { name } => Payloads::PlayerLeft { name: name.clone() },
            Payloads::Update { data, from, is_unreliable, time_bits } => Payloads::Update {
                data: copy_bytes(data),
                from: from.clone(),
                is_unreliable: *is_unreliable,
                time_bits: *time_bits,
            },
            Payloads::InitHandshake { name, version } => Payloads::InitHandshake {
                name: name.clone(),
                version: version.clone(),
            },
            Payloads::TransferControl { from, to } => Payloads::TransferControl {
                from: from.clone(),
                to: to.clone(),
            },
            Payloads::SetObserver { from, to, is_observer } => Payloads::SetObserver {
                from: from.clone(),
                to: to.clone(),
                is_observer: *is_observer,
            },
            Payloads::SetSelfObserver { name } => Payloads::SetSelfObserver { name: name.clone() },
            Payloads::Ready => Payloads::Ready,
            Payloads::RendezvousHandshake { session_id, local_endpoint } =>
                Payloads::RendezvousHandshake {
                    session_id: session_id.clone(),
                    local_endpoint: *local_endpoint,
                },
            Payloads::Handshake { session_id } => Payloads::Handshake { session_id: session_id.clone() },
            Payloads::HostingReceived { session_id } => Payloads::HostingReceived {
                session_id: session_id.clone(),
            },
            Payloads::AttemptConnection { peers } => Payloads::AttemptConnection {
                peers: copy_addresses(peers),
            },
            Payloads::AttemptHosterConnection { peer } => Payloads::AttemptHosterConnection {
                peer: *peer,
            },
            Payloads::PeerEstablished { peer } => Payloads::PeerEstablished { peer: *peer },
            Payloads::Heartbeat => Payloads::Heartbeat,
        }
    }
}

/// How each payload travels: handshakes with peers may be lost, control and
/// session traffic is reliable and ordered on its own stream, updates go on
/// stream 0 and may be lost only when flagged unreliable, and the rest is
/// reliable but unordered.
pub open spec fn packet_delivery(message: PayloadsView) -> Delivery {
    match message {
        PayloadsView::AttemptConnection { .. }
        | PayloadsView::AttemptHosterConnection { .. }
        | PayloadsView::HostingReceived { .. }
        | PayloadsView::SetHost
        | PayloadsView::ConnectionDenied { .. }
        | PayloadsView::InvalidVersion { .. }
        | PayloadsView::Heartbeat
        | PayloadsView::SetSelfObserver { .. }
        | PayloadsView::InvalidName => Delivery::ReliableUnordered,
        PayloadsView::PeerEstablished { .. }
        | PayloadsView::RendezvousHandshake { .. }
        | PayloadsView::Handshake { .. } => Delivery::Unreliable,
        PayloadsView::InitHandshake { .. }
        | PayloadsView::PlayerJoined { .. }
        | PayloadsView::PlayerLeft { .. }
        | PayloadsView::SetObserver { .. }
        | PayloadsView::Ready
        | PayloadsView::TransferControl { .. }
        | PayloadsView::AircraftDefinition { .. }
        | PayloadsView::RequestHosting { .. } => Delivery::ReliableOrdered { stream: Some(1) },
        PayloadsView::Update { is_unreliable, .. } => if is_unreliable {
            Delivery::UnreliableSequenced { stream: Some(0) }
        } else {
            Delivery::ReliableOrdered { stream: Some(0) }
        },
    }
}

/// How the transport is to send `message`.
pub fn get_packet_for_message(message: &Payloads) -> (res: Delivery)
    ensures
        res == packet_delivery(message@),
{
    match message {
        Payloads::AttemptConnection { .. }
        | Payloads::AttemptHosterConnection { .. }
        | Payloads::HostingReceived { .. }
        | Payloads::SetHost
        | Payloads::ConnectionDenied { .. }
        | Payloads::InvalidVersion { .. }
        | Payloads::Heartbeat
        | Payloads::SetSelfObserver { .. }
        | Payloads::InvalidName => Delivery::ReliableUnordered,
        Payloads::PeerEstablished { .. }
        | Payloads::RendezvousHandshake { .. }
        | Payloads::Handshake { .. } => Delivery::Unreliable,
        Payloads::InitHandshake { .. }
        | Payloads::PlayerJoined { .. }
        | Payloads::PlayerLeft { .. }
        | Payloads::SetObserver { .. }
        | Payloads::Ready
        | Payloads::TransferControl { .. }
        | Payloads::AircraftDefinition { .. }
        | Payloads::RequestHosting { .. } => Delivery::ReliableOrdered { stream: Some(1) },
        Payloads::Update { is_unreliable, .. } => {
            if *is_unreliable {
                Delivery::UnreliableSequenced { stream: Some(0) }
            } else {
                Delivery::ReliableOrdered { stream: Some(0) }
            }
        },
    }
}

/// The zstd level a payload is compressed with: the highest for aircraft
/// definitions, which are large and sent once, and the default otherwise.
pub fn get_compression_level_for_message(msg: &Payloads) -> (level: i32)
    ensures
        level == if msg is AircraftDefinition {
            22i32
        } else {
            0i32
        },
{
    match msg {
        Payloads::AircraftDefinition { .. } => 22,
        _ => 0,
    }
}

/// A compressed payload with the size it has once decompressed.
#[derive(Debug)]
pub struct PayloadWrapper {
    pub data: Vec<u8>,
    /// Used for the decompression buffer size.
    pub size: usize,
}

} // verus!
