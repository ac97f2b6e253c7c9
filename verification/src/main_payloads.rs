use vstd::prelude::*;

use crate::control::{ClientId, ControlDelegationsMap, ControlSurfaces};
use crate::delivery::Delivery;

verus! {

/// Identifies a synchronised datum.
pub type DatumKey = u32;

/// A datum whose value changed; the value is the IEEE-754 bit pattern of the
/// sampled number, carried through unchanged.
#[derive(Clone, Copy, Debug, PartialEq, Eq, Structural)]
pub struct ChangedDatum {
    pub key: DatumKey,
    pub value_bits: u64,
}

/// The messages exchanged between clients, the session server and the rendezvous server.
#[derive(Debug)]
pub enum MainPayloads {
    // Handshake payloads
    Hello { session_id: String, version: String },
    RequestSession { self_hosted: bool },
    SessionDetails { session_id: String },
    /// Both addresses are base64 encoded text.
    AttemptConnection { public_ip: String, local_ip: String },
    InvalidSession,
    InvalidVersion { server_version: String },
    // Main game payloads; `time_bits` is the IEEE-754 bit pattern of the send time.
    Update { client_id: ClientId, is_reliable: bool, time_bits: u64, changed: Vec<ChangedDatum> },
    Name { name: String },
    /// Assigns a client id.
    Welcome { client_id: ClientId, name: String },
    MakeHost { client_id: ClientId },
    TransferControl { delegation: ControlSurfaces, to: ClientId },
    ControlDelegations { delegations: ControlDelegationsMap },
    ClientAdded { client_id: ClientId, is_observer: bool, is_host: bool, name: String },
    ClientRemoved { client_id: ClientId },
}

/// A payload with its text as character sequences and its collections as sequences and maps.
pub enum MainPayloadsView {
    Hello { session_id: Seq<char>, version: Seq<char> },
    RequestSession { self_hosted: bool },
    SessionDetails { session_id: Seq<char> },
    AttemptConnection { public_ip: Seq<char>, local_ip: Seq<char> },
    InvalidSession,
    InvalidVersion { server_version: Seq<char> },
    Update { client_id: ClientId, is_reliable: bool, time_bits: u64, changed: Seq<ChangedDatum> },
    Name { name: Seq<char> },
    Welcome { client_id: ClientId, name: Seq<char> },
    MakeHost { client_id: ClientId },
    TransferControl { delegation: ControlSurfaces, to: ClientId },
    ControlDelegations { delegations: Map<ControlSurfaces, ClientId> },
    ClientAdded { client_id: ClientId, is_observer: bool, is_host: bool, name: Seq<char> },
    ClientRemoved { client_id: ClientId },
}

impl View for MainPayloads {
    type V = MainPayloadsView;

    open spec fn view(&self) -> MainPayloadsView {
        match self {
            MainPayloads::Hello { session_id, version } => MainPayloadsView::Hello {
                session_id: session_id@,
                version: version@,
            },
            MainPayloads::RequestSession { self_hosted } => MainPayloadsView::RequestSession {
                self_hosted: *self_hosted,
            },
            MainPayloads::SessionDetails { session_id } => MainPayloadsView::SessionDetails {
                session_id: session_id@,
            },
            MainPayloads::AttemptConnection { public_ip, local_ip } =>
                MainPayloadsView::AttemptConnection { public_ip: public_ip@, local_ip: local_ip@ },
            MainPayloads::InvalidSession => MainPayloadsView::InvalidSession,
            MainPayloads::InvalidVersion { server_version } => MainPayloadsView::InvalidVersion {
                server_version: server_version@,
            },
            MainPayloads::Update { client_id, is_reliable, time_bits, changed } =>
                MainPayloadsView::Update {
                    client_id: *client_id,
                    is_reliable: *is_reliable,
                    time_bits: *time_bits,
                    changed: changed@,
                },
            MainPayloads::Name { name } => MainPayloadsView::Name { name: name@ },
            MainPayloads::Welcome { client_id, name } => MainPayloadsView::Welcome {
                client_id: *client_id,
                name: name@,
            },
            MainPayloads::MakeHost { client_id } => MainPayloadsView::MakeHost { client_id: *client_id },
            MainPayloads::TransferControl { delegation, to } => MainPayloadsView::TransferControl {
                delegation: *delegation,
                to: *to,
            },
            MainPayloads::ControlDelegations { delegations } =>
                MainPayloadsView::ControlDelegations { delegations: delegations@ },
            MainPayloads::ClientAdded { client_id, is_observer, is_host, name } =>
                MainPayloadsView::ClientAdded {
                    client_id: *client_id,
                    is_observer: *is_observer,
                    is_host: *is_host,
                    name: name@,
                },
            MainPayloads::ClientRemoved { client_id } => MainPayloadsView::ClientRemoved {
                client_id: *client_id,
            },
        }
    }
}

impl MainPayloads {
    /// How the payload is sent: only updates flagged unreliable may be lost.
    pub fn get_packet(&self) -> (res: Delivery)
        ensures
            res == match self {
                MainPayloads::Update { is_reliable, .. } => if *is_reliable {
                    Delivery::ReliableOrdered { stream: None }
                } else {
                    Delivery::UnreliableSequenced { stream: None }
                },
                _ => Delivery::ReliableOrdered { stream: None },
            },
    {
        match self {
            MainPayloads::Update { is_reliable, .. } => {
                if *is_reliable {
                    Delivery::ReliableOrdered { stream: None }
                } else {
                    Delivery::UnreliableSequenced { stream: None }
                }
            },
            _ => Delivery::ReliableOrdered { stream: None },
        }
    }
}

} // verus!
