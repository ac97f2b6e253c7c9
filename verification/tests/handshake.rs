use yourcontrols::hoster_rendezvous::encode_ip;
use yourcontrols::hoster_state::{frame_message, unframe_message, MESSAGE_DELIMITER};
use yourcontrols::handshake::{
    decode_address_text, read_attempt_connection, Handshake, HandshakeConfig, HandshakeFail, HandshakeInput, HandshakeKind,
    HandshakeSend, HandshakeStatus,
};
use yourcontrols::NetAddress;

const SERVER_SESSION_ID: &str = "HOSTED";
const SELF_SESSION_ID: &str = "SELF";

fn local(port: u16) -> NetAddress {
    NetAddress { ip: 0x7f00_0001, port, is_v6: false }
}

fn address_text(a: NetAddress) -> String {
    let ip = a.ip as u32;
    format!("{}.{}.{}.{}:{}", ip >> 24, (ip >> 16) & 0xff, (ip >> 8) & 0xff, ip & 0xff, a.port)
}

fn parse_address_text(text: &str) -> Option<NetAddress> {
    let (ip, port) = text.split_once(':')?;
    let mut value: u128 = 0;
    let parts: Vec<&str> = ip.split('.').collect();
    if parts.len() != 4 {
        return None;
    }
    for p in parts {
        value = value * 256 + p.parse::<u8>().ok()? as u128;
    }
    Some(NetAddress { ip: value, port: port.parse().ok()?, is_v6: false })
}

fn poll_in_progress(handshake: &mut Handshake, received: Vec<HandshakeInput>) -> Vec<HandshakeSend> {
    let mut out = Vec::new();
    match handshake.handshake(&received, &mut out) {
        HandshakeStatus::InProgress => out,
        other => panic!("in progress, got {:?}", other),
    }
}

/// A peer that answers every hello with a hello, or with a refused version.
fn direct_tester(sent: &[HandshakeSend], to: NetAddress, invalid_version: bool) -> Vec<HandshakeInput> {
    sent.iter()
        .filter_map(|s| match s {
            HandshakeSend::Hello { to: t, .. } if *t == to => Some(if invalid_version {
                HandshakeInput::InvalidVersion
            } else {
                HandshakeInput::Hello
            }),
            _ => None,
        })
        .collect()
}

/// A rendezvous server that answers a hello with the encoded address of
/// `target`, and a session request with a session id.
fn rendezvous_tester(sent: &[HandshakeSend], at: NetAddress, target: NetAddress) -> Vec<HandshakeInput> {
    let encoded = base64::encode(address_text(target));
    sent.iter()
        .filter_map(|s| match s {
            HandshakeSend::Hello { to, .. } if *to == at => {
                let pair = read_attempt_connection(&encoded, &encoded)
                    .and_then(|(p, l)| Some((parse_address_text(&p)?, parse_address_text(&l)?)));
                Some(HandshakeInput::AttemptConnection(pair))
            }
            HandshakeSend::RequestSession { to, self_hosted } if *to == at => Some(HandshakeInput::SessionDetails(
                if *self_hosted { SELF_SESSION_ID.to_string() } else { SERVER_SESSION_ID.to_string() },
            )),
            _ => None,
        })
        .collect()
}

#[test]
fn test_direct_handshake() {
    let server = local(4000);
    let mut handshake = Handshake::direct(HandshakeConfig::default(), server, None);

    // Start handshaking to server
    let sent = poll_in_progress(&mut handshake, vec![]);

    // Receive client message and send hello back
    let answers = direct_tester(&sent, server, false);

    let mut out = Vec::new();
    assert_eq!(handshake.handshake(&answers, &mut out), HandshakeStatus::Completed, "should've connected");
}

#[test]
fn test_test_direct_handshake() {
    let server = local(4001);
    let mut handshake = Handshake::direct(HandshakeConfig::default(), server, None);

    // Start handshaking to server
    let sent = poll_in_progress(&mut handshake, vec![]);
    assert_eq!(sent.len(), 1);

    // Receive client message and send the hello back
    let answers = direct_tester(&sent, server, false);

    let mut out = Vec::new();
    assert_eq!(handshake.handshake(&answers, &mut out), HandshakeStatus::Completed, "should've connected");
}

#[test]
fn test_request_hosting() {
    let rendezvous = local(5000);
    let config = HandshakeConfig { rendezvous_address: rendezvous, self_hosted: false, ..HandshakeConfig::default() };
    let mut handshake = Handshake::session_host(config);

    // Start handshaking to server
    let sent = poll_in_progress(&mut handshake, vec![]);
    let answers = rendezvous_tester(&sent, rendezvous, rendezvous);

    // Receive session ID
    let mut out = Vec::new();
    assert_eq!(handshake.handshake(&answers, &mut out), HandshakeStatus::Completed);
    assert_eq!(handshake.get_session_id(), SERVER_SESSION_ID);
}

#[test]
fn test_self_hosting() {
    let rendezvous = local(5001);
    let config = HandshakeConfig { rendezvous_address: rendezvous, self_hosted: true, ..HandshakeConfig::default() };
    let mut handshake = Handshake::session_host(config);

    let sent = poll_in_progress(&mut handshake, vec![]);
    let answers = rendezvous_tester(&sent, rendezvous, rendezvous);

    let mut out = Vec::new();
    assert_eq!(handshake.handshake(&answers, &mut out), HandshakeStatus::Completed);
    assert_eq!(handshake.get_session_id(), SELF_SESSION_ID);
}

#[test]
fn test_punchthrough_local() {
    let rendezvous = local(5002);
    let other_client = local(6000);
    let config = HandshakeConfig { rendezvous_address: rendezvous, self_hosted: true, ..HandshakeConfig::default() };
    let mut handshake = Handshake::punchthrough(config);

    let sent = poll_in_progress(&mut handshake, vec![]);
    // Receive session code, send IPs to attempt to connect to
    let answers = rendezvous_tester(&sent, rendezvous, other_client);

    // Receive connection details
    poll_in_progress(&mut handshake, answers);
    assert_eq!(handshake.get_kind(), HandshakeKind::Direct { target_1: other_client, target_2: Some(other_client) });
    // Send message to connect to other client
    let sent = poll_in_progress(&mut handshake, vec![]);
    assert_eq!(sent.len(), 2);

    // Other client responds
    let answers = direct_tester(&sent, other_client, false);

    // Should receive message and complete handshake
    let mut out = Vec::new();
    assert_eq!(handshake.handshake(&answers, &mut out), HandshakeStatus::Completed);
}

#[test]
fn refused_version_fails_the_handshake() {
    let server = local(4002);
    let mut handshake = Handshake::direct(HandshakeConfig::default(), server, Some(local(4003)));
    let sent = poll_in_progress(&mut handshake, vec![]);
    assert_eq!(sent.len(), 2);
    let answers = direct_tester(&sent, server, true);
    let mut out = Vec::new();
    assert_eq!(handshake.handshake(&answers, &mut out), HandshakeStatus::Failed(HandshakeFail::InvalidVersion));
}

#[test]
fn unreadable_addresses_fail_the_punch_through() {
    let mut handshake = Handshake::punchthrough(HandshakeConfig::default());
    let mut out = Vec::new();
    let status = handshake.handshake(&vec![HandshakeInput::AttemptConnection(None)], &mut out);
    assert_eq!(status, HandshakeStatus::Failed(HandshakeFail::InvalidData));
    assert_eq!(decode_address_text("not base64!"), None);
    assert_eq!(decode_address_text(&base64::encode("127.0.0.1:80")), Some("127.0.0.1:80".to_string()));
}

#[test]
fn no_answer_within_the_attempts_fails() {
    let config = HandshakeConfig { retry_count: 0, ..HandshakeConfig::default() };
    let mut handshake = Handshake::direct(config, local(1), None);
    let mut out = Vec::new();
    // The first attempt is always made
    assert_eq!(handshake.handshake(&vec![], &mut out), HandshakeStatus::InProgress);
    assert_eq!(out.len(), 1);
    out.clear();
    assert_eq!(handshake.handshake(&vec![], &mut out), HandshakeStatus::Failed(HandshakeFail::NoMessage));
    assert!(out.is_empty());
}

#[test]
fn encoded_addresses_decode_back() {
    let encoded = encode_ip("192.168.1.20:7777");
    assert_eq!(encoded, "MTkyLjE2OC4xLjIwOjc3Nzc=");
    assert_eq!(decode_address_text(&encoded), Some("192.168.1.20:7777".to_string()));
    assert_eq!(decode_address_text(&encode_ip("")), Some(String::new()));
}

#[test]
fn framed_messages_unframe_to_themselves() {
    let mut bytes = vec![1u8, 2, 3];
    frame_message(&mut bytes);
    assert_eq!(bytes, vec![1u8, 2, 3, MESSAGE_DELIMITER]);
    unframe_message(&mut bytes);
    assert_eq!(bytes, vec![1u8, 2, 3]);
    let mut empty: Vec<u8> = Vec::new();
    unframe_message(&mut empty);
    assert!(empty.is_empty());
}

#[test]
fn attempt_connection_addresses_decode_together() {
    let public = encode_ip("1.2.3.4:5000");
    let local = encode_ip("192.168.0.2:5000");
    assert_eq!(
        read_attempt_connection(&public, &local),
        Some(("1.2.3.4:5000".to_string(), "192.168.0.2:5000".to_string()))
    );
    assert_eq!(read_attempt_connection(&public, "not base64!"), None);
    assert_eq!(read_attempt_connection("not base64!", &local), None);
    // base64 of bytes that are not UTF-8
    assert_eq!(read_attempt_connection(&base64::encode([0xffu8, 0xfe]), &local), None);
}
