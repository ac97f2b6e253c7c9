use yourcontrols::rendezvous::{get_system_hour, hour_from_nanos};
use yourcontrols::hosted::{Client, MinimumVersion, ServerInfo, ServerState, Servers};
use yourcontrols::rendezvous::{process_message, RendezvousConfig, Sessions};
use yourcontrols::{NetAddress, Payloads, TransferAction};

fn addr(last: u8, port: u16) -> NetAddress {
    NetAddress { ip: 0x7f00_0000 + last as u128, port, is_v6: false }
}

fn sends(out: &[TransferAction]) -> Vec<(&Payloads, &Vec<NetAddress>)> {
    out.iter()
        .map(|a| match a {
            TransferAction::Send { payload, to } => (payload, to),
            other => panic!("unexpected action {:?}", other),
        })
        .collect()
}

fn join(state: &mut ServerState, name: &str, at: NetAddress, out: &mut Vec<TransferAction>) {
    state.process_payload_checked(
        at,
        Payloads::InitHandshake { name: name.to_string(), version: "1.0.0".to_string() },
        false,
        &"1.0.0".to_string(),
        out,
    );
}

#[test]
fn first_client_takes_control_and_hosts() {
    let mut state = ServerState::new();
    let a = addr(2, 1000);
    let mut out = Vec::new();
    join(&mut state, "A", a, &mut out);
    let s = sends(&out);
    assert_eq!(s.len(), 3);
    assert!(matches!(s[0].0, Payloads::SetHost));
    assert_eq!(s[0].1, &vec![a]);
    assert!(matches!(s[1].0, Payloads::TransferControl { from, to } if from == "SERVER" && to == "A"));
    assert_eq!(s[1].1, &vec![a]);
    assert!(matches!(s[2].0, Payloads::PlayerJoined { name, .. } if name == "A"));
    assert!(s[2].1.is_empty());
    assert!(state.has_clients());
}

#[test]
fn second_client_learns_who_is_there_and_gets_the_definition() {
    let mut state = ServerState::new();
    let a = addr(2, 1000);
    let b = addr(3, 1000);
    let mut out = Vec::new();
    join(&mut state, "A", a, &mut out);
    state.process_payload_checked(a, Payloads::AircraftDefinition { bytes: vec![1, 2, 3] }, false, &String::new(), &mut out);
    out.clear();
    join(&mut state, "B", b, &mut out);
    let s = sends(&out);
    assert_eq!(s.len(), 3);
    assert!(matches!(s[0].0, Payloads::PlayerJoined { name, in_control: true, is_server: true, is_observer: false } if name == "A"));
    assert_eq!(s[0].1, &vec![b]);
    assert!(matches!(s[1].0, Payloads::PlayerJoined { name, in_control: false, .. } if name == "B"));
    assert_eq!(s[1].1, &vec![a]);
    assert!(matches!(s[2].0, Payloads::AircraftDefinition { bytes } if bytes == &vec![1, 2, 3]));
    assert_eq!(s[2].1, &vec![b]);
}

#[test]
fn taken_name_and_old_version_are_refused() {
    let mut state = ServerState::new();
    let a = addr(2, 1000);
    let mut out = Vec::new();
    join(&mut state, "A", a, &mut out);
    out.clear();
    join(&mut state, "A", addr(4, 1), &mut out);
    assert!(matches!(sends(&out)[0].0, Payloads::InvalidName));
    out.clear();
    state.process_payload_checked(
        addr(5, 1),
        Payloads::InitHandshake { name: "C".to_string(), version: "0.1.0".to_string() },
        true,
        &"2.8.5".to_string(),
        &mut out,
    );
    assert!(matches!(sends(&out)[0].0, Payloads::ConnectionDenied { reason } if reason == "Minimum version required is 2.8.5"));
}

#[test]
fn semver_decides_the_minimum_version() {
    let minimum = MinimumVersion::parse("2.8.5").unwrap();
    let mut state = ServerState::new();
    let mut out = Vec::new();
    state.process_payload(
        addr(2, 1),
        Payloads::InitHandshake { name: "A".to_string(), version: "2.8.4".to_string() },
        &minimum,
        &mut out,
    );
    assert!(matches!(sends(&out)[0].0, Payloads::ConnectionDenied { reason } if reason == "Minimum version required is 2.8.5"));
    out.clear();
    state.process_payload(
        addr(2, 1),
        Payloads::InitHandshake { name: "A".to_string(), version: "not a version".to_string() },
        &minimum,
        &mut out,
    );
    assert!(matches!(sends(&out)[0].0, Payloads::SetHost));
}

#[test]
fn updates_are_relayed_to_the_others_only() {
    let mut state = ServerState::new();
    let (a, b, c) = (addr(2, 1), addr(3, 1), addr(4, 1));
    let mut out = Vec::new();
    join(&mut state, "A", a, &mut out);
    join(&mut state, "B", b, &mut out);
    join(&mut state, "C", c, &mut out);
    out.clear();
    let update = Payloads::Update { data: vec![9], from: "B".to_string(), is_unreliable: true, time_bits: 0 };
    state.process_payload_checked(b, update, false, &String::new(), &mut out);
    let s = sends(&out);
    assert_eq!(s.len(), 1);
    assert_eq!(s[0].1, &vec![a, c]);
}

#[test]
fn ready_goes_to_the_one_in_control_and_handshakes_are_echoed() {
    let mut state = ServerState::new();
    let (a, b) = (addr(2, 1), addr(3, 1));
    let mut out = Vec::new();
    join(&mut state, "A", a, &mut out);
    join(&mut state, "B", b, &mut out);
    out.clear();
    state.process_payload_checked(b, Payloads::Ready, false, &String::new(), &mut out);
    let s = sends(&out);
    assert_eq!(s.len(), 1);
    assert_eq!(s[0].1, &vec![a]);
    out.clear();
    state.process_payload_checked(b, Payloads::Handshake { session_id: "X".to_string() }, false, &String::new(), &mut out);
    assert_eq!(sends(&out)[0].1, &vec![b]);
    out.clear();
    state.process_payload_checked(b, Payloads::Heartbeat, false, &String::new(), &mut out);
    assert!(out.is_empty());
}

#[test]
fn self_observer_is_announced_to_everyone() {
    let mut state = ServerState::new();
    let (a, b) = (addr(2, 1), addr(3, 1));
    let mut out = Vec::new();
    join(&mut state, "A", a, &mut out);
    join(&mut state, "B", b, &mut out);
    out.clear();
    state.process_payload_checked(b, Payloads::SetSelfObserver { name: "B".to_string() }, false, &String::new(), &mut out);
    let s = sends(&out);
    assert_eq!(s.len(), 1);
    assert!(matches!(s[0].0, Payloads::SetObserver { from, to, is_observer: true } if from == "SERVER" && to == "B"));
    assert_eq!(s[0].1, &vec![a, b]);
}

#[test]
fn controller_leaving_hands_control_to_the_first_left() {
    let mut state = ServerState::new();
    let (a, b) = (addr(2, 1), addr(3, 1));
    let mut out = Vec::new();
    join(&mut state, "A", a, &mut out);
    join(&mut state, "B", b, &mut out);
    out.clear();
    let close = state.on_client_left(a, &mut out);
    assert!(!close);
    let s = sends(&out);
    assert_eq!(s.len(), 3);
    assert!(matches!(s[0].0, Payloads::SetHost));
    assert_eq!(s[0].1, &vec![b]);
    assert!(matches!(s[1].0, Payloads::TransferControl { from, to } if from == "A" && to == "B"));
    assert!(matches!(s[2].0, Payloads::PlayerLeft { name } if name == "A"));
    out.clear();
    assert!(state.on_client_left(b, &mut out));
    assert!(!state.has_clients());
}

#[test]
fn hosted_session_lifecycle() {
    let mut servers = Servers::new();
    let requester = addr(2, 1);
    let id = servers.reserve_server("hoster.example".to_string(), requester);
    assert_eq!(id.len(), 8);
    assert!(servers.is_active(&id));
    assert_eq!(servers.connected_count(), 1);
    let minimum = MinimumVersion::parse("1.0.0").unwrap();

    // The requester joins its session
    let mut out = Vec::new();
    servers.on_payload(
        requester,
        Payloads::InitHandshake { name: "HOST".to_string(), version: "1.0.0".to_string() },
        &minimum,
        &mut out,
    );
    assert!(matches!(sends(&out)[0].0, Payloads::SetHost));

    // A stranger with a wrong session id is kept out
    let stranger = addr(3, 7);
    servers.wait_for(stranger.ip_key(), id.clone());
    out.clear();
    servers.on_payload(stranger, Payloads::Handshake { session_id: "WRONG".to_string() }, &minimum, &mut out);
    assert!(out.is_empty());
    assert_eq!(servers.connected_count(), 1);
    // With the right one it is let in, and its handshake echoed
    servers.on_payload(stranger, Payloads::Handshake { session_id: id.clone() }, &minimum, &mut out);
    assert_eq!(servers.connected_count(), 2);
    assert_eq!(sends(&out)[0].1, &vec![stranger]);

    // The host leaves; the session is empty and forgotten
    out.clear();
    servers.on_connection_closed(requester, &mut out);
    assert!(!servers.is_active(&id));
    assert_eq!(servers.active_count(), 0);
}

#[test]
fn cleanup_forgets_expired_empty_sessions() {
    let mut servers = Servers::new();
    let a = servers.reserve_server("h".to_string(), addr(2, 1));
    let b = servers.reserve_server("h".to_string(), addr(3, 1));
    servers.cleanup_with(&vec![true, false]);
    assert!(!servers.is_active(&a) || a == b);
    assert!(servers.is_active(&b));
    assert_eq!(servers.connected_count(), 1);
}

#[test]
fn server_info_keeps_its_hostname() {
    let info = ServerInfo::new("hoster".to_string());
    assert_eq!(info.hostname, "hoster");
    let c = Client::new(addr(1, 1));
    assert!(!c.is_host && !c.is_observer);
}

fn config() -> RendezvousConfig {
    RendezvousConfig { max_client_connections: 1, hoster_addr: addr(200, 5556), hoster_hostname: "hoster".to_string() }
}

#[test]
fn rendezvous_hosting_and_joining() {
    let mut sessions = Sessions::new();
    let mut servers = Servers::new();
    let host = addr(2, 1);
    let local = addr(3, 2);
    let mut out = Vec::new();
    process_message(host, Payloads::RequestHosting { self_hosted: true, local_endpoint: Some(local) }, &mut sessions, &mut servers, &config(), &mut out);
    let session_id = match sends(&out)[0].0 {
        Payloads::HostingReceived { session_id } => session_id.clone(),
        other => panic!("{:?}", other),
    };
    assert_eq!(session_id.len(), 8);
    assert_eq!(sessions.get_session_count(), 1);
    assert!(sessions.socket_is_hosting(&host));

    let joiner = addr(9, 3);
    out.clear();
    process_message(joiner, Payloads::RendezvousHandshake { session_id: session_id.clone(), local_endpoint: None }, &mut sessions, &mut servers, &config(), &mut out);
    let s = sends(&out);
    assert!(matches!(s[0].0, Payloads::AttemptConnection { peers } if peers == &vec![local, host]));
    assert_eq!(s[0].1, &vec![joiner]);
    assert!(matches!(s[1].0, Payloads::AttemptConnection { peers } if peers == &vec![joiner]));
    assert_eq!(s[1].1, &vec![host]);
    assert_eq!(sessions.get_user_count(), 1);

    out.clear();
    process_message(joiner, Payloads::RendezvousHandshake { session_id: "NOSUCHID9".to_string(), local_endpoint: None }, &mut sessions, &mut servers, &config(), &mut out);
    assert!(matches!(sends(&out)[0].0, Payloads::ConnectionDenied { reason } if reason == "Session not found."));

    assert_eq!(sessions.close_session_by_addr(&host), Some(session_id));
    assert_eq!(sessions.get_session_count(), 0);
    assert_eq!(sessions.get_user_count(), 0);
}

#[test]
fn rendezvous_cloud_hosting_until_full() {
    let mut sessions = Sessions::new();
    let mut servers = Servers::new();
    let client = addr(2, 1);
    let mut out = Vec::new();
    process_message(client, Payloads::RequestHosting { self_hosted: false, local_endpoint: None }, &mut sessions, &mut servers, &config(), &mut out);
    let s = sends(&out);
    assert!(matches!(s[0].0, Payloads::AttemptConnection { peers } if peers == &vec![addr(200, 5556)]));
    let id = match s[1].0 {
        Payloads::HostingReceived { session_id } => session_id.clone(),
        other => panic!("{:?}", other),
    };
    assert!(servers.is_active(&id));

    // A second request finds the hosting server full
    out.clear();
    process_message(addr(3, 1), Payloads::RequestHosting { self_hosted: false, local_endpoint: None }, &mut sessions, &mut servers, &config(), &mut out);
    assert!(matches!(sends(&out)[0].0, Payloads::ConnectionDenied { reason } if reason == "Server at capacity."));

    // A client asking for the hosted session is sent to the hosting server
    out.clear();
    let joiner = addr(4, 9);
    process_message(joiner, Payloads::RendezvousHandshake { session_id: id, local_endpoint: None }, &mut sessions, &mut servers, &config(), &mut out);
    assert!(matches!(sends(&out)[0].0, Payloads::AttemptHosterConnection { peer } if *peer == addr(200, 5556)));
}

#[test]
fn minimum_versions_are_read_by_semver() {
    assert!(MinimumVersion::parse("not a version").is_none());
    assert_eq!(MinimumVersion::parse("2.10.0").unwrap().display_text(), "2.10.0");
    // semver orders by number, not by text: 2.9.0 is below 2.10.0
    let minimum = MinimumVersion::parse("2.10.0").unwrap();
    let mut state = ServerState::new();
    let mut out = Vec::new();
    state.process_payload(
        addr(2, 1),
        Payloads::InitHandshake { name: "A".to_string(), version: "2.9.0".to_string() },
        &minimum,
        &mut out,
    );
    assert!(matches!(sends(&out)[0].0, Payloads::ConnectionDenied { reason } if reason == "Minimum version required is 2.10.0"));
    out.clear();
    state.process_payload(
        addr(2, 1),
        Payloads::InitHandshake { name: "A".to_string(), version: "2.10.0".to_string() },
        &minimum,
        &mut out,
    );
    assert!(!matches!(sends(&out)[0].0, Payloads::ConnectionDenied { .. }));
}

#[test]
fn hours_count_fractions_of_a_second() {
    // 0.000277778 hours a second: hour 1 starts just before 3599.998 s
    assert_eq!(hour_from_nanos(3_599_997_000_000), 0);
    assert_eq!(hour_from_nanos(3_599_998_000_000), 1);
    assert_eq!(hour_from_nanos(1_700_000_000_500_000_000), 472_222);
    assert_eq!(hour_from_nanos(u128::MAX), u32::MAX);
    assert!(get_system_hour() >= 472_222);
}
