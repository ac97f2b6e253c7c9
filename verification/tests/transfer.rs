use yourcontrols::requests::{route_request, AppRequest, Routed};
use yourcontrols::first_address_of_family;
use yourcontrols::client_transfer::{opening, TransferStruct as ClientTransfer};
use yourcontrols::server_transfer::TransferStruct as ServerTransfer;
use yourcontrols::{Event, NetAddress, Payloads, ReceiveMessage, TransferAction, MAX_PUNCH_RETRIES};

fn addr(last: u8, port: u16) -> NetAddress {
    NetAddress { ip: 0x7f00_0000 + last as u128, port, is_v6: false }
}

fn sent_to(action: &TransferAction) -> Option<(&Payloads, &Vec<NetAddress>)> {
    match action {
        TransferAction::Send { payload, to } => Some((payload, to)),
        _ => None,
    }
}

fn reported(action: &TransferAction) -> Option<&Event> {
    match action {
        TransferAction::Deliver(ReceiveMessage::Event(e)) => Some(e),
        _ => None,
    }
}

fn join(server: &mut ServerTransfer, name: &str, at: NetAddress, out: &mut Vec<TransferAction>) {
    server.handle_message(at, Payloads::InitHandshake { name: name.to_string(), version: "2.8.5".to_string() }, out);
}

#[test]
fn server_welcomes_a_client_and_announces_it() {
    let mut server = ServerTransfer::new("HOST".to_string(), "2.8.5".to_string(), None);
    let a = addr(2, 1);
    let mut out = Vec::new();
    join(&mut server, "A", a, &mut out);
    // Who the server is, then the announcement to the others, then the application
    let (p, to) = sent_to(&out[0]).unwrap();
    assert!(matches!(p, Payloads::PlayerJoined { name, in_control: true, is_server: true, .. } if name == "HOST"));
    assert_eq!(to, &vec![a]);
    let (p, to) = sent_to(&out[1]).unwrap();
    assert!(matches!(p, Payloads::PlayerJoined { name, .. } if name == "A"));
    assert!(to.is_empty());
    assert!(matches!(&out[2], TransferAction::Deliver(ReceiveMessage::Payload(Payloads::PlayerJoined { .. }))));
    assert_eq!(out.len(), 3);

    // A repeated request is ignored
    out.clear();
    join(&mut server, "A", a, &mut out);
    assert!(out.is_empty());
}

#[test]
fn server_refuses_wrong_version_and_taken_names() {
    let mut server = ServerTransfer::new("HOST".to_string(), "2.8.5".to_string(), None);
    let mut out = Vec::new();
    server.handle_message(addr(2, 1), Payloads::InitHandshake { name: "A".to_string(), version: "1.0.0".to_string() }, &mut out);
    assert!(matches!(sent_to(&out[0]).unwrap().0, Payloads::InvalidVersion { server_version } if server_version == "2.8.5"));
    out.clear();
    join(&mut server, "HOST", addr(3, 1), &mut out);
    assert!(matches!(sent_to(&out[0]).unwrap().0, Payloads::InvalidName));
}

#[test]
fn server_never_relays_an_update_back_to_its_sender() {
    let mut server = ServerTransfer::new("HOST".to_string(), "2.8.5".to_string(), None);
    let (a, b) = (addr(2, 1), addr(3, 1));
    let mut out = Vec::new();
    join(&mut server, "A", a, &mut out);
    join(&mut server, "B", b, &mut out);
    out.clear();
    server.handle_message(a, Payloads::Update { data: vec![1], from: "A".to_string(), is_unreliable: false, time_bits: 0 }, &mut out);
    let (_, to) = sent_to(&out[0]).unwrap();
    assert_eq!(to, &vec![b]);
    assert!(matches!(&out[1], TransferAction::Deliver(ReceiveMessage::Payload(Payloads::Update { .. }))));
}

#[test]
fn server_drops_payloads_no_client_may_send() {
    let mut server = ServerTransfer::new("HOST".to_string(), "2.8.5".to_string(), None);
    let mut out = Vec::new();
    server.handle_message(addr(2, 1), Payloads::SetHost, &mut out);
    server.handle_message(addr(2, 1), Payloads::Heartbeat, &mut out);
    assert!(out.is_empty());
}

#[test]
fn server_removes_a_lost_client() {
    let mut server = ServerTransfer::new("HOST".to_string(), "2.8.5".to_string(), None);
    let (a, b) = (addr(2, 1), addr(3, 1));
    let mut out = Vec::new();
    join(&mut server, "A", a, &mut out);
    join(&mut server, "B", b, &mut out);
    out.clear();
    server.on_connection_closed(a, &mut out);
    let (p, to) = sent_to(&out[0]).unwrap();
    assert!(matches!(p, Payloads::PlayerLeft { name } if name == "A"));
    assert_eq!(to, &vec![b]);
    out.clear();
    server.on_connection_closed(a, &mut out);
    assert!(out.is_empty());
}

#[test]
fn server_without_session_id_stops_when_rendezvous_is_lost() {
    let r = addr(100, 5555);
    let mut server = ServerTransfer::new("HOST".to_string(), "2.8.5".to_string(), Some(r));
    let mut out = Vec::new();
    server.opening(Some(addr(1, 25071)), &mut out);
    assert!(matches!(sent_to(&out[0]).unwrap().0, Payloads::RequestHosting { self_hosted: true, .. }));
    out.clear();
    server.on_connection_closed(r, &mut out);
    assert!(matches!(reported(&out[0]), Some(Event::SessionIdFetchFailed)));
    assert!(matches!(out[1], TransferAction::Stop));
}

#[test]
fn server_punches_holes_until_the_limit() {
    let mut server = ServerTransfer::new("HOST".to_string(), "2.8.5".to_string(), Some(addr(100, 5555)));
    let mut out = Vec::new();
    server.handle_message(addr(100, 5555), Payloads::HostingReceived { session_id: "ABCDEFGH".to_string() }, &mut out);
    assert_eq!(server.get_session_id(), "ABCDEFGH");
    server.handle_message(addr(100, 5555), Payloads::AttemptConnection { peers: vec![addr(5, 1), addr(6, 1)] }, &mut out);
    for _ in 0..MAX_PUNCH_RETRIES {
        out.clear();
        server.punch_round(&vec![true], &mut out);
        assert_eq!(out.len(), 2);
    }
    out.clear();
    server.handle_handshake(&mut out);
    assert!(out.is_empty());
}

#[test]
fn server_answers_a_handshake_with_its_session() {
    let r = addr(100, 5555);
    let mut server = ServerTransfer::new("HOST".to_string(), "2.8.5".to_string(), Some(r));
    let mut out = Vec::new();
    server.handle_message(r, Payloads::HostingReceived { session_id: "S".to_string() }, &mut out);
    out.clear();
    let peer = addr(7, 7);
    server.handle_message(peer, Payloads::Handshake { session_id: "S".to_string() }, &mut out);
    assert_eq!(sent_to(&out[0]).unwrap().1, &vec![peer]);
    assert!(matches!(sent_to(&out[1]).unwrap().0, Payloads::PeerEstablished { peer: p } if *p == peer));
    out.clear();
    server.handle_message(peer, Payloads::Handshake { session_id: "X".to_string() }, &mut out);
    assert!(matches!(sent_to(&out[0]).unwrap().0, Payloads::ConnectionDenied { reason } if reason == "Invalid session id!"));
}

#[test]
fn client_connects_on_the_right_handshake() {
    let host = addr(2, 1);
    let mut client = ClientTransfer::new("ME".to_string(), "2.8.5".to_string(), Some("S".to_string()), None, Some(host));
    let mut out = Vec::new();
    client.handle_message(host, Payloads::Handshake { session_id: "S".to_string() }, &mut out);
    assert_eq!(client.connected_address(), Some(host));
    assert!(matches!(sent_to(&out[0]).unwrap().0, Payloads::InitHandshake { name, version } if name == "ME" && version == "2.8.5"));
    assert!(matches!(reported(&out[1]), Some(Event::ConnectionEstablished)));
    assert!(!client.should_stop());

    // Once connected, payloads from the application go to the host
    out.clear();
    client.handle_app_message(Payloads::Ready, &mut out);
    assert_eq!(sent_to(&out[0]).unwrap().1, &vec![host]);
}

#[test]
fn client_stops_on_refusals() {
    let host = addr(2, 1);
    let mut client = ClientTransfer::new("ME".to_string(), "2.8.5".to_string(), Some("S".to_string()), None, Some(host));
    let mut out = Vec::new();
    client.handle_message(host, Payloads::Handshake { session_id: "T".to_string() }, &mut out);
    assert!(client.should_stop());
    assert!(matches!(reported(&out[0]), Some(Event::ConnectionLost(r)) if r == "Handshake verification failed! Expected S, got T"));

    let mut client = ClientTransfer::new("ME".to_string(), "2.8.5".to_string(), None, None, Some(host));
    out.clear();
    client.handle_message(host, Payloads::InvalidName, &mut out);
    assert!(matches!(reported(&out[0]), Some(Event::ConnectionLost(r)) if r == "ME already in use!"));
    out.clear();
    client.handle_message(host, Payloads::InvalidVersion { server_version: "3.0.0".to_string() }, &mut out);
    assert!(matches!(reported(&out[0]), Some(Event::ConnectionLost(r)) if r == "Server has mismatching version 3.0.0"));
}

#[test]
fn client_gives_up_punching_after_the_limit() {
    let host = addr(2, 1);
    let mut client = ClientTransfer::new("ME".to_string(), "2.8.5".to_string(), Some("S".to_string()), None, Some(host));
    let mut out = Vec::new();
    for round in 1..=MAX_PUNCH_RETRIES {
        out.clear();
        client.punch_round(true, &mut out);
        if round < MAX_PUNCH_RETRIES {
            assert_eq!(out.len(), 1);
            assert!(!client.should_stop());
        }
    }
    assert!(client.should_stop());
    assert!(matches!(reported(&out[1]), Some(Event::UnablePunchthrough)));
}

#[test]
fn client_opening_requests() {
    let r = addr(100, 5555);
    let mut out = Vec::new();
    opening(&Some("S".to_string()), Some(r), None, None, &mut out);
    assert!(matches!(sent_to(&out[0]).unwrap().0, Payloads::RendezvousHandshake { session_id, local_endpoint: None } if session_id == "S"));
    out.clear();
    opening(&None, Some(r), None, None, &mut out);
    assert!(matches!(sent_to(&out[0]).unwrap().0, Payloads::RequestHosting { self_hosted: false, .. }));
    out.clear();
    opening(&None, None, Some(addr(2, 1)), None, &mut out);
    assert!(matches!(sent_to(&out[0]).unwrap().0, Payloads::Handshake { session_id } if session_id.is_empty()));
    out.clear();
    opening(&None, None, None, None, &mut out);
    assert!(out.is_empty());
    let client = ClientTransfer::new("ME".to_string(), "v".to_string(), None, Some(r), None);
    assert!(client.is_host());
}

#[test]
fn client_times_out_without_a_session() {
    let r = addr(100, 5555);
    let mut client = ClientTransfer::new("ME".to_string(), "v".to_string(), Some("S".to_string()), Some(r), None);
    let mut out = Vec::new();
    client.rendezvous_wait(4, &mut out);
    assert!(out.is_empty());
    client.rendezvous_wait(5, &mut out);
    assert!(matches!(reported(&out[0]), Some(Event::ConnectionLost(reason)) if reason == "Could not connect to session."));
}

#[test]
fn name_lookup_picks_the_first_address_of_the_family() {
    let ips = vec![(0x2001_0db8u128 << 96, true), (0x0a00_0001u128, false), (0x0a00_0002u128, false)];
    assert_eq!(
        first_address_of_family(&ips, false, 5555),
        Some(NetAddress { ip: 0x0a00_0001, port: 5555, is_v6: false })
    );
    assert_eq!(
        first_address_of_family(&ips, true, 80),
        Some(NetAddress { ip: 0x2001_0db8u128 << 96, port: 80, is_v6: true })
    );
    assert_eq!(first_address_of_family(&ips[1..].to_vec(), true, 80), None);
}

fn peers_payload(r: &Routed) -> (&Payloads, &Option<String>) {
    match r {
        Routed::ToPeers { payload, target } => (payload, target),
        other => panic!("unexpected route {:?}", other),
    }
}

#[test]
fn a_transfer_of_control_is_sent_and_echoed() {
    let name = "ALICE".to_string();
    let routed = route_request(&name, AppRequest::TransferControl { target: "BOB".to_string() });
    assert_eq!(routed.len(), 2);
    match peers_payload(&routed[0]) {
        (Payloads::TransferControl { from, to }, None) => {
            assert_eq!(from, "ALICE");
            assert_eq!(to, "BOB");
        }
        other => panic!("unexpected {:?}", other),
    }
    match &routed[1] {
        Routed::ToApp(ReceiveMessage::Payload(Payloads::TransferControl { from, to })) => {
            assert_eq!(from, "ALICE");
            assert_eq!(to, "BOB");
        }
        other => panic!("unexpected {:?}", other),
    }

    let routed = route_request(&name, AppRequest::TakeControl { from: "BOB".to_string() });
    match peers_payload(&routed[0]) {
        (Payloads::TransferControl { from, to }, None) => {
            assert_eq!(from, "BOB");
            assert_eq!(to, "ALICE");
        }
        other => panic!("unexpected {:?}", other),
    }
    assert_eq!(routed.len(), 2);
}

#[test]
fn requests_make_one_payload_each() {
    let name = "ALICE".to_string();
    let routed = route_request(&name, AppRequest::SendDefinitions { bytes: vec![1, 2], target: "BOB".to_string() });
    assert_eq!(routed.len(), 1);
    match peers_payload(&routed[0]) {
        (Payloads::AircraftDefinition { bytes }, Some(t)) => {
            assert_eq!(bytes, &vec![1u8, 2]);
            assert_eq!(t, "BOB");
        }
        other => panic!("unexpected {:?}", other),
    }
    let routed = route_request(&name, AppRequest::Update { data: vec![9], time_bits: 7, is_unreliable: true });
    match peers_payload(&routed[0]) {
        (Payloads::Update { data, from, is_unreliable, time_bits }, None) => {
            assert_eq!(data, &vec![9u8]);
            assert_eq!(from, "ALICE");
            assert!(*is_unreliable);
            assert_eq!(*time_bits, 7);
        }
        other => panic!("unexpected {:?}", other),
    }
    let routed = route_request(&name, AppRequest::SetObserver { target: "BOB".to_string(), is_observer: true });
    match peers_payload(&routed[0]) {
        (Payloads::SetObserver { from, to, is_observer }, None) => {
            assert_eq!((from.as_str(), to.as_str(), *is_observer), ("ALICE", "BOB", true));
        }
        other => panic!("unexpected {:?}", other),
    }
    assert!(matches!(peers_payload(&route_request(&name, AppRequest::Ready)[0]), (Payloads::Ready, None)));
    match peers_payload(&route_request(&name, AppRequest::SetSelfObserver)[0]) {
        (Payloads::SetSelfObserver { name }, None) => assert_eq!(name, "ALICE"),
        other => panic!("unexpected {:?}", other),
    }
}
