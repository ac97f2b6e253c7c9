use yourcontrols::base_socket::{Connections, SocketEvent};
use yourcontrols::hoster_rendezvous::RendezvousServer;
use yourcontrols::{
    ControlSurfaces, Dispatch, MainPayloads, Message, NetAddress, ServerError, ServerMetadata,
    SingleServer,
};

const VERSION: &str = "1.0.0";

fn addr(last: u8, port: u16) -> NetAddress {
    NetAddress { ip: u128::from_be_bytes([0, 0, 0, 0, 0, 0, 0, 0, 0, 0, 0, 0, 127, 0, 0, last]), port, is_v6: false }
}

const SOCKET_1: u8 = 2;
const SOCKET_2: u8 = 3;

fn rendezvous_address() -> NetAddress {
    addr(1, 5555)
}

fn server_address() -> NetAddress {
    addr(1, 25071)
}

/// The payloads `out` sends to `to`, in order.
fn payloads_for(out: &[Dispatch], to: NetAddress) -> Vec<&MainPayloads> {
    out.iter().filter(|d| d.to.contains(&to)).map(|d| &d.payload).collect()
}

struct SingleServerTester {
    server: SingleServer,
    rendezvous: RendezvousServer,
}

impl SingleServerTester {
    fn new() -> Self {
        let mut server = SingleServer::new();
        server.set_metadata(
            ServerMetadata::new()
                .with_version(VERSION.to_string())
                .with_rendezvous_server(rendezvous_address()),
        );
        Self { server, rendezvous: RendezvousServer::new() }
    }

    fn test_name(&mut self, with_rendezvous: bool) {
        let socket_1 = addr(SOCKET_1, 40001);
        let mut out = Vec::new();
        self.server.process_payload(MainPayloads::Name { name: "TEST".to_string() }, socket_1, &mut out);

        // Expect MakeHost payload for first client connecting
        let messages = payloads_for(&out, socket_1);
        let mut in_sequence_messages = messages.into_iter();

        // Get assigned client id
        let id = match in_sequence_messages.next().unwrap() {
            MainPayloads::Welcome { client_id, name } => {
                assert_eq!(name, "TEST");
                *client_id
            }
            other => panic!("Expected welcome payload, got {:?}", other),
        };

        // Get assigned host
        match in_sequence_messages.next().unwrap() {
            MainPayloads::MakeHost { client_id } => {
                if id != *client_id {
                    panic!("Wrong client made host")
                }
            }
            other => panic!("Expected host payload, got {:?}", other),
        }

        // Check session id is sent back and is the same
        if with_rendezvous {
            match in_sequence_messages.next().unwrap() {
                MainPayloads::SessionDetails { session_id } => {
                    if self.server.session_id().unwrap() != session_id {
                        panic!("Wrong session id!")
                    }
                }
                other => panic!("Expected SessionDetails payload, got {:?}", other),
            }
        }

        // All control surfaces should be delegated to this client
        match in_sequence_messages.next().unwrap() {
            MainPayloads::ControlDelegations { delegations } => {
                assert!(
                    delegations.len() == ControlSurfaces::all().len(),
                    "All control surfaces should've been set!"
                );
                for surface in ControlSurfaces::all() {
                    if delegations.get(&surface) != Some(&id) {
                        panic!("All control delegations should be given to us")
                    }
                }
            }
            other => panic!("Expected ControlDelegations payload, got {:?}", other),
        };

        // No other clients connected so no other payloads should be sent
        assert!(in_sequence_messages.next().is_none());
    }

    fn test_hello(&mut self, with_rendezvous: bool) {
        let session_id = if with_rendezvous {
            self.server.session_id().unwrap().clone()
        } else {
            String::new()
        };
        let socket_1 = addr(SOCKET_1, 40001);
        let payload = MainPayloads::Hello { session_id, version: VERSION.to_string() };
        let mut out = Vec::new();
        self.server.process_payload(payload, socket_1, &mut out);

        // Verify valid version
        let next_msg = payloads_for(&out, socket_1).into_iter().next().unwrap();
        match next_msg {
            MainPayloads::InvalidVersion { .. } => panic!("Version should've been valid"),
            MainPayloads::InvalidSession => panic!("Session should've been valid"),
            MainPayloads::Hello { .. } => {}
            other => panic!("Expected Hello payload, got {:?}", other),
        };
    }

    fn test_request_session(&mut self) {
        let mut out = Vec::new();
        self.server.request_session(&mut out).unwrap();

        // The request goes to the rendezvous server
        let mut answers = Vec::new();
        for dispatch in out {
            assert_eq!(dispatch.to, vec![rendezvous_address()]);
            self.rendezvous.process_payload(server_address(), "127.0.0.1:25071", dispatch.payload, &mut answers);
        }
        // The session id comes back
        let mut more = Vec::new();
        for dispatch in answers {
            assert_eq!(dispatch.to, vec![server_address()]);
            self.server.process_payload(dispatch.payload, rendezvous_address(), &mut more);
        }
        assert!(more.is_empty());

        assert!(self.server.session_id().is_some());
    }
}

#[test]
fn test_sequence() {
    let mut net = SingleServerTester::new();

    net.test_hello(false);
    net.test_name(false);
}

#[test]
fn test_sequence_with_rendezvous() {
    let mut net = SingleServerTester::new();

    net.test_request_session();
    net.test_hello(true);
    net.test_name(true);
}

#[test]
fn wrong_version_is_refused() {
    let mut net = SingleServerTester::new();
    let socket_1 = addr(SOCKET_1, 40001);
    let mut out = Vec::new();
    net.server.process_payload(
        MainPayloads::Hello { session_id: String::new(), version: "0.9.0".to_string() },
        socket_1,
        &mut out,
    );
    let payloads = payloads_for(&out, socket_1);
    assert_eq!(payloads.len(), 1);
    assert!(matches!(payloads[0], MainPayloads::InvalidVersion { server_version } if server_version == VERSION));
    // The client was not registered: its name is ignored
    let mut out = Vec::new();
    net.server.process_payload(MainPayloads::Name { name: "TEST".to_string() }, socket_1, &mut out);
    assert!(out.is_empty());
}

#[test]
fn wrong_session_is_refused() {
    let mut net = SingleServerTester::new();
    net.test_request_session();
    let socket_1 = addr(SOCKET_1, 40001);
    let mut out = Vec::new();
    net.server.process_payload(
        MainPayloads::Hello { session_id: "NOPE".to_string(), version: VERSION.to_string() },
        socket_1,
        &mut out,
    );
    let payloads = payloads_for(&out, socket_1);
    assert_eq!(payloads.len(), 1);
    assert!(matches!(payloads[0], MainPayloads::InvalidSession));
}

#[test]
fn every_new_client_is_given_the_first_id() {
    let mut net = SingleServerTester::new();
    net.test_hello(false);
    net.test_name(false);

    // The id counter never moves, so a second client is registered under the
    // same id as the first one and takes its place
    let socket_2 = addr(SOCKET_2, 40002);
    let mut out = Vec::new();
    net.server.process_payload(
        MainPayloads::Hello { session_id: String::new(), version: VERSION.to_string() },
        socket_2,
        &mut out,
    );
    out.clear();
    net.server.process_payload(MainPayloads::Name { name: "OTHER".to_string() }, socket_2, &mut out);
    let to_second = payloads_for(&out, socket_2);
    assert!(matches!(to_second[0], MainPayloads::Welcome { client_id: 1, name } if name == "OTHER"));
    assert!(payloads_for(&out, addr(SOCKET_1, 40001)).is_empty());
}

#[test]
fn losing_the_only_client_sends_nothing() {
    let mut net = SingleServerTester::new();
    let socket_1 = addr(SOCKET_1, 40001);
    let mut out = Vec::new();
    let messages = vec![
        Message::Payload(MainPayloads::Hello { session_id: String::new(), version: VERSION.to_string() }, socket_1),
        Message::Payload(MainPayloads::Name { name: "A".to_string() }, socket_1),
    ];
    net.server.process_messages(messages, &mut out);
    out.clear();
    net.server.process_messages(vec![Message::LostConnection(socket_1)], &mut out);
    assert!(out.iter().all(|d| d.to.is_empty()));
}

#[test]
fn request_without_rendezvous_is_an_error() {
    let mut server = SingleServer::new();
    let mut out = Vec::new();
    assert_eq!(server.request_session(&mut out), Err(ServerError::NoRendezvousServer));
    assert!(out.is_empty());
}

#[test]
fn rendezvous_answers_hello_for_known_session() {
    let mut rendezvous = RendezvousServer::new();
    let host = addr(9, 1000);
    let mut out = Vec::new();
    rendezvous.process_payload(host, "127.0.0.9:1000", MainPayloads::RequestSession { self_hosted: true }, &mut out);
    let session_id = match &out[0].payload {
        MainPayloads::SessionDetails { session_id } => session_id.clone(),
        other => panic!("Expected SessionDetails, got {:?}", other),
    };
    assert_eq!(session_id.len(), 5);
    assert!(session_id.chars().all(|c| c.is_ascii_uppercase()));

    let joiner = addr(10, 2000);
    let mut answers = Vec::new();
    rendezvous.process_payload(
        joiner,
        "127.0.0.10:2000",
        MainPayloads::Hello { session_id, version: VERSION.to_string() },
        &mut answers,
    );
    assert_eq!(answers.len(), 1);
    assert_eq!(answers[0].to, vec![joiner]);
    match &answers[0].payload {
        MainPayloads::AttemptConnection { public_ip, local_ip } => {
            assert_eq!(public_ip, "MTI3LjAuMC45OjEwMDA=");
            assert_eq!(local_ip, "MTI3LjAuMC45OjEwMDA=");
        }
        other => panic!("Expected AttemptConnection, got {:?}", other),
    }

    let mut none = Vec::new();
    rendezvous.process_payload(
        joiner,
        "127.0.0.10:2000",
        MainPayloads::Hello { session_id: "ZZZZZZ".to_string(), version: VERSION.to_string() },
        &mut none,
    );
    assert!(none.is_empty());
}

#[test]
fn connections_follow_connects_and_timeouts() {
    let a = NetAddress { ip: 0x7f00_0001, port: 1, is_v6: false };
    let b = NetAddress { ip: 0x7f00_0001, port: 2, is_v6: false };
    let c = NetAddress { ip: 0x7f00_0001, port: 3, is_v6: false };
    let mut conns = Connections::new();
    assert!(matches!(conns.on_event::<u8>(SocketEvent::Connect(a)), Some(Message::NewConnection(x)) if x == a));
    conns.on_event::<u8>(SocketEvent::Connect(b));
    conns.on_event::<u8>(SocketEvent::Connect(a));
    conns.on_event::<u8>(SocketEvent::Connect(c));
    assert!(conns.contains(a) && conns.contains(b) && conns.contains(c));
    assert_eq!(conns.all_except(b), vec![a, c]);
    assert!(matches!(conns.on_event::<u8>(SocketEvent::Timeout(a)), Some(Message::LostConnection(x)) if x == a));
    assert!(!conns.contains(a));
    assert_eq!(conns.all_except(a), vec![b, c]);
    assert!(matches!(conns.on_event(SocketEvent::Packet(Some(7u8), c)), Some(Message::Payload(7, x)) if x == c));
    assert!(conns.on_event::<u8>(SocketEvent::Packet(None, c)).is_none());
    assert!(conns.on_event::<u8>(SocketEvent::Other).is_none());
    assert_eq!(conns.all_except(a), vec![b, c]);
}

#[test]
fn only_the_holder_hands_over_a_surface() {
    let mut server = SingleServer::new();
    server.set_metadata(ServerMetadata::new().with_version(VERSION.to_string()));
    let holder = addr(SOCKET_1, 40001);
    let stranger = addr(SOCKET_2, 40002);
    let mut out = Vec::new();
    server.process_payload(
        MainPayloads::Hello { session_id: String::new(), version: VERSION.to_string() },
        holder,
        &mut out,
    );
    let mut out = Vec::new();
    server.process_payload(MainPayloads::Name { name: "TEST".to_string() }, holder, &mut out);
    let id = match payloads_for(&out, holder)[0] {
        MainPayloads::Welcome { client_id, .. } => *client_id,
        other => panic!("Expected welcome payload, got {:?}", other),
    };

    // An address with no client holds nothing: nothing moves, nothing is sent
    let mut out = Vec::new();
    server.process_payload(
        MainPayloads::TransferControl { delegation: ControlSurfaces::Yoke, to: id + 6 },
        stranger,
        &mut out,
    );
    assert!(out.is_empty());

    // The holder hands the yoke over: everyone learns the new delegations
    let mut out = Vec::new();
    server.process_payload(
        MainPayloads::TransferControl { delegation: ControlSurfaces::Yoke, to: id + 6 },
        holder,
        &mut out,
    );
    assert_eq!(out.len(), 1);
    assert_eq!(out[0].to, vec![holder]);
    match &out[0].payload {
        MainPayloads::ControlDelegations { delegations } => {
            assert_eq!(delegations.get(&ControlSurfaces::Yoke), Some(&(id + 6)));
            assert_eq!(delegations.get(&ControlSurfaces::Throttle), Some(&id));
        }
        other => panic!("Expected ControlDelegations payload, got {:?}", other),
    }

    // It no longer holds the yoke, so it cannot hand it over again
    let mut out = Vec::new();
    server.process_payload(
        MainPayloads::TransferControl { delegation: ControlSurfaces::Yoke, to: id },
        holder,
        &mut out,
    );
    assert!(out.is_empty());
}
