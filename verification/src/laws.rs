use vstd::prelude::*;

use crate::clients::ClientInfo;
use crate::hoster_state::hoster_effect;
use crate::main_payloads::{MainPayloads, MainPayloadsView};
use crate::payloads::PayloadsView;
use crate::rendezvous::{rendezvous_effect, Sessions};
use crate::server_transfer::message_effect;
use crate::single_server::{payload_step, SingleServer};
use crate::transfer::ReceiveMessageView;

use crate::assoc::{insert_pair, key_position, lemma_key_position, lookup, remove_key};
use crate::hosted::{
    hosted_effect, Servers, clients_not_at, join_effect, last_name_at, left_effect, roster_addrs, server_name, Client,
    ServerState,
};
use crate::hoster_state::{conn_addrs, framed, unframed, Conns, ServerState as HosterState};
use crate::net_address::NetAddress;
use crate::rendezvous::{bimap_inserted, AddrKey};
use crate::server_transfer::{init_effect, peer_addrs_except, peers_not_at, PeerView, TransferStruct};
use crate::transfer::TransferActionView;

verus! {

/// Nothing relayed from an address goes back to it: the application's
/// server, the cloud hosting server and the hosting server all leave the
/// sender out of the addresses they relay to.
pub proof fn lemma_relay_skips_sender(
    peers: Seq<PeerView>,
    roster: Seq<(Seq<char>, Client)>,
    conns: Conns,
    addr: NetAddress,
)
    ensures
        !peer_addrs_except(peers, Some(addr)).contains(addr),
        !roster_addrs(roster, Some(addr)).contains(addr),
        !conn_addrs(conns, Some(addr)).contains(addr),
{
    let a = peers.map_values(|p: PeerView| p.addr);
    if peer_addrs_except(peers, Some(addr)).contains(addr) {
        a.lemma_filter_contains_rev(|x: NetAddress| x != addr, addr);
    }
    let b = roster.map_values(|e: (Seq<char>, Client)| e.1.addr);
    if roster_addrs(roster, Some(addr)).contains(addr) {
        b.lemma_filter_contains_rev(|x: NetAddress| x != addr, addr);
    }
    let c = conns.map_values(|e: (Seq<char>, crate::hoster_state::ClientConnection)| e.1.addr);
    if conn_addrs(conns, Some(addr)).contains(addr) {
        c.lemma_filter_contains_rev(|x: NetAddress| x != addr, addr);
    }
}

/// Putting a new key in and taking it out again gives back what was there.
pub proof fn lemma_insert_then_remove<K, V>(s: Seq<(K, V)>, k: K, v: V)
    requires
        lookup(s, k) is None,
    ensures
        remove_key(insert_pair(s, k, v), k) == s,
{
    lemma_key_position(s, k);
    let t = s.push((k, v));
    assert(insert_pair(s, k, v) == t);
    lemma_key_position(t, k);
    assert(t[s.len() as int].0 == k);
    let p = key_position(t, k);
    if 0 <= p < s.len() {
        assert(t[p] == s[p]);
    }
    assert(p == s.len());
    assert(t.remove(s.len() as int) =~= s);
}

/// A session of the cloud hosting server that the server controls and that
/// one client joins and then leaves is again empty and controlled by the
/// server.
pub proof fn lemma_join_then_leave(
    pre: ServerState,
    mid: ServerState,
    post: ServerState,
    b0: Seq<TransferActionView>,
    b1: Seq<TransferActionView>,
    b2: Seq<TransferActionView>,
    addr: NetAddress,
    name: Seq<char>,
    minimum: Seq<char>,
)
    requires
        pre.roster().len() == 0,
        pre.in_control() == server_name(),
        join_effect(pre, mid, b0, b1, addr, name, false, minimum),
        left_effect(mid, post, b1, b2, addr),
    ensures
        post.roster().len() == 0,
        post.in_control() == server_name(),
{
    lemma_key_position(pre.roster(), name);
    let r1 = pre.roster().push((name, Client { addr, is_observer: false, is_host: false }));
    let r2 = mid.roster();
    assert(r2.len() == 1);
    assert(r2[0].1.addr == addr);
    reveal_with_fuel(Seq::filter, 2);
    assert(r2.drop_last() =~= Seq::<(Seq<char>, Client)>::empty());
    assert(clients_not_at(r2.drop_last(), addr) =~= Seq::<(Seq<char>, Client)>::empty());
    assert(clients_not_at(r2, addr).len() == 0);
    assert(last_name_at(r2, addr) == Some(r2[0].0));
}

/// A peer that joins the application's server from a new address and then
/// disconnects leaves the peers as they were.
pub proof fn lemma_join_then_disconnect(
    pre: TransferStruct,
    mid: TransferStruct,
    before: Seq<TransferActionView>,
    after: Seq<TransferActionView>,
    addr: NetAddress,
    name: Seq<char>,
)
    requires
        pre.wf(),
        forall|i: int| 0 <= i < pre.peers().len() ==> #[trigger] pre.peers()[i].addr != addr,
        name != pre.username(),
        forall|i: int| 0 <= i < pre.peers().len() ==> #[trigger] pre.peers()[i].name != name,
        init_effect(pre, mid, before, after, addr, name, pre.version()),
    ensures
        mid.peers() == pre.peers().push(PeerView { name, addr, is_observer: false }),
        peers_not_at(mid.peers(), addr) == pre.peers(),
{
    crate::server_transfer::lemma_name_position(pre.peers(), name);
    let s = pre.peers();
    let t = s.push(PeerView { name, addr, is_observer: false });
    reveal_with_fuel(Seq::filter, 1);
    assert(t.drop_last() =~= s);
    lemma_filter_keeps_all(s, addr);
}

proof fn lemma_filter_keeps_all(s: Seq<PeerView>, addr: NetAddress)
    requires
        forall|i: int| 0 <= i < s.len() ==> #[trigger] s[i].addr != addr,
    ensures
        peers_not_at(s, addr) == s,
    decreases s.len(),
{
    reveal_with_fuel(Seq::filter, 1);
    if s.len() > 0 {
        let r = s.drop_last();
        assert forall|i: int| 0 <= i < r.len() implies #[trigger] r[i].addr != addr by {
            assert(r[i] == s[i]);
        }
        lemma_filter_keeps_all(r, addr);
        assert(s.last().addr != addr);
        assert(r.push(s.last()) =~= s);
    } else {
        assert(s.filter(|p: PeerView| p.addr != addr) =~= s);
    }
}

/// Once a host opens a session, it is the host of that session, whatever it
/// hosted before.
pub proof fn lemma_opened_session_is_hosted(m: Map<AddrKey, Seq<char>>, host: AddrKey, id: Seq<char>)
    ensures
        bimap_inserted(m, host, id).dom().contains(host),
        bimap_inserted(m, host, id)[host] == id,
        forall|k: AddrKey| #[trigger] bimap_inserted(m, host, id).dom().contains(k) && k != host ==> bimap_inserted(m, host, id)[k] != id,
{
}

/// A message framed for the rendezvous server and unframed on arrival is the
/// message that was sent.
pub proof fn lemma_unframe_framed(bytes: Seq<u8>)
    ensures
        unframed(framed(bytes)) == bytes,
{
    assert(framed(bytes).drop_last() =~= bytes);
}

/// The addresses a cloud session relays to from `addr`: exactly those of
/// its other clients.
proof fn lemma_roster_targets(r: Seq<(Seq<char>, Client)>, addr: NetAddress, x: NetAddress)
    ensures
        roster_addrs(r, Some(addr)).contains(x) <==> (x != addr && exists|i: int|
            0 <= i < r.len() && (#[trigger] r[i]).1.addr == x),
{
    broadcast use vstd::seq_lib::group_filter_ensures;

    let m = r.map_values(|e: (Seq<char>, Client)| e.1.addr);
    if roster_addrs(r, Some(addr)).contains(x) {
        m.lemma_filter_contains_rev(|y: NetAddress| y != addr, x);
        let k = choose|k: int| 0 <= k < roster_addrs(r, Some(addr)).len() && roster_addrs(r, Some(addr))[k] == x;
        let j = choose|j: int| 0 <= j < m.len() && m[j] == x;
        assert(r[j].1.addr == x);
    }
    if x != addr && exists|i: int| 0 <= i < r.len() && (#[trigger] r[i]).1.addr == x {
        let i = choose|i: int| 0 <= i < r.len() && (#[trigger] r[i]).1.addr == x;
        assert(m[i] == x);
        m.lemma_filter_contains(|y: NetAddress| y != addr, i);
    }
}

/// The addresses a hosting-server session relays to from `addr`: exactly
/// those of its other clients.
proof fn lemma_conn_targets(r: Conns, addr: NetAddress, x: NetAddress)
    ensures
        conn_addrs(r, Some(addr)).contains(x) <==> (x != addr && exists|i: int|
            0 <= i < r.len() && (#[trigger] r[i]).1.addr == x),
{
    broadcast use vstd::seq_lib::group_filter_ensures;

    let m = r.map_values(|e: (Seq<char>, crate::hoster_state::ClientConnection)| e.1.addr);
    if conn_addrs(r, Some(addr)).contains(x) {
        m.lemma_filter_contains_rev(|y: NetAddress| y != addr, x);
        let k = choose|k: int| 0 <= k < conn_addrs(r, Some(addr)).len() && conn_addrs(r, Some(addr))[k] == x;
        let j = choose|j: int| 0 <= j < m.len() && m[j] == x;
        assert(r[j].1.addr == x);
    }
    if x != addr && exists|i: int| 0 <= i < r.len() && (#[trigger] r[i]).1.addr == x {
        let i = choose|i: int| 0 <= i < r.len() && (#[trigger] r[i]).1.addr == x;
        assert(m[i] == x);
        m.lemma_filter_contains(|y: NetAddress| y != addr, i);
    }
}

/// The addresses the single server relays to from `addr`: exactly those of
/// its other clients.
proof fn lemma_client_targets(r: Seq<ClientInfo>, addr: NetAddress, x: NetAddress)
    ensures
        crate::clients::addresses_except(r, addr).contains(x) <==> (x != addr && exists|i: int|
            0 <= i < r.len() && (#[trigger] r[i]).addr == x),
{
    broadcast use vstd::seq_lib::group_filter_ensures, Seq::lemma_filter_contains_rev;

    let m = crate::clients::addresses(r);
    if crate::clients::addresses_except(r, addr).contains(x) {
        assert(m.contains(x));
        let k = choose|k: int| 0 <= k < crate::clients::addresses_except(r, addr).len()
            && crate::clients::addresses_except(r, addr)[k] == x;
        let j = choose|j: int| 0 <= j < m.len() && m[j] == x;
        assert(r[j].addr == x);
    }
    if x != addr && exists|i: int| 0 <= i < r.len() && (#[trigger] r[i]).addr == x {
        let i = choose|i: int| 0 <= i < r.len() && (#[trigger] r[i]).addr == x;
        assert(m[i] == x);
    }
}

/// The addresses the application's server relays to from `addr`: exactly
/// those of its other peers.
proof fn lemma_peer_targets(s: Seq<PeerView>, addr: NetAddress, x: NetAddress)
    ensures
        peer_addrs_except(s, Some(addr)).contains(x) <==> (x != addr && exists|i: int|
            0 <= i < s.len() && (#[trigger] s[i]).addr == x),
{
    broadcast use vstd::seq_lib::group_filter_ensures;

    let m = s.map_values(|p: PeerView| p.addr);
    if peer_addrs_except(s, Some(addr)).contains(x) {
        m.lemma_filter_contains_rev(|y: NetAddress| y != addr, x);
        let k = choose|k: int| 0 <= k < peer_addrs_except(s, Some(addr)).len() && peer_addrs_except(s, Some(addr))[k] == x;
        let j = choose|j: int| 0 <= j < m.len() && m[j] == x;
        assert(s[j].addr == x);
    }
    if x != addr && exists|i: int| 0 <= i < s.len() && (#[trigger] s[i]).addr == x {
        let i = choose|i: int| 0 <= i < s.len() && (#[trigger] s[i]).addr == x;
        assert(m[i] == x);
        m.lemma_filter_contains(|y: NetAddress| y != addr, i);
    }
}

/// A transfer of control in a cloud-hosted session is recorded: the session's
/// controller becomes its target, the clients stay, and the transfer goes,
/// as one send, to every other client of the session and to no one else.
pub proof fn lemma_hosted_transfer_recorded(
    pre: ServerState,
    post: ServerState,
    before: Seq<TransferActionView>,
    after: Seq<TransferActionView>,
    addr: NetAddress,
    from: Seq<char>,
    to: Seq<char>,
    too_old: bool,
    minimum: Seq<char>,
)
    requires
        hosted_effect(pre, post, before, after, addr, PayloadsView::TransferControl { from, to }, too_old, minimum),
    ensures
        post.in_control() == to,
        post.roster() == pre.roster(),
        after.len() == before.len() + 1,
        after.drop_last() == before,
        after.last() matches TransferActionView::Send { payload, to: dest } && payload == (PayloadsView::TransferControl { from, to })
            && forall|x: NetAddress| dest.contains(x) <==> (x != addr && exists|i: int|
                0 <= i < pre.roster().len() && (#[trigger] pre.roster()[i]).1.addr == x),
{
    assert forall|x: NetAddress| roster_addrs(pre.roster(), Some(addr)).contains(x) <==> (x != addr && exists|i: int|
        0 <= i < pre.roster().len() && (#[trigger] pre.roster()[i]).1.addr == x) by {
        lemma_roster_targets(pre.roster(), addr, x);
    }
    assert(after.drop_last() =~= before);
}

/// Once control is handed to a client of a cloud-hosted session, a later
/// readiness notice goes to that client, whoever sends it.
pub proof fn lemma_hosted_ready_follows_transfer(
    s0: ServerState,
    s1: ServerState,
    s2: ServerState,
    b0: Seq<TransferActionView>,
    b1: Seq<TransferActionView>,
    b2: Seq<TransferActionView>,
    addr: NetAddress,
    addr2: NetAddress,
    from: Seq<char>,
    to: Seq<char>,
    client: Client,
    too_old: bool,
    minimum: Seq<char>,
)
    requires
        hosted_effect(s0, s1, b0, b1, addr, PayloadsView::TransferControl { from, to }, too_old, minimum),
        hosted_effect(s1, s2, b1, b2, addr2, PayloadsView::Ready, too_old, minimum),
        lookup(s0.roster(), to) == Some(client),
    ensures
        b2 == b1.push(TransferActionView::Send { payload: PayloadsView::Ready, to: seq![client.addr] }),
{
}

/// A hosting-server session relays an update or an aircraft definition, as
/// one send, to every other client and never back to its sender.
pub proof fn lemma_hoster_relay_skips_sender(
    pre: HosterState,
    post: HosterState,
    before: Seq<TransferActionView>,
    after: Seq<TransferActionView>,
    addr: NetAddress,
    payload: PayloadsView,
    app_version: Seq<char>,
)
    requires
        hoster_effect(pre, post, before, after, addr, payload, app_version),
        payload is Update || payload is AircraftDefinition,
    ensures
        after.len() == before.len() + 1,
        after.drop_last() == before,
        after.last() matches TransferActionView::Send { payload: p, to: dest } && p == payload && !dest.contains(addr)
            && forall|x: NetAddress| dest.contains(x) <==> (x != addr && exists|i: int|
                0 <= i < pre.roster().len() && (#[trigger] pre.roster()[i]).1.addr == x),
{
    assert forall|x: NetAddress| conn_addrs(pre.roster(), Some(addr)).contains(x) <==> (x != addr && exists|i: int|
        0 <= i < pre.roster().len() && (#[trigger] pre.roster()[i]).1.addr == x) by {
        lemma_conn_targets(pre.roster(), addr, x);
    }
    assert(after.drop_last() =~= before);
}

/// The single server relays an update to every other client and never back
/// to its sender.
pub proof fn lemma_single_server_update_skips_sender(
    pre: SingleServer,
    post: SingleServer,
    before: Seq<(Seq<NetAddress>, MainPayloadsView)>,
    after: Seq<(Seq<NetAddress>, MainPayloadsView)>,
    payload: MainPayloads,
    addr: NetAddress,
)
    requires
        payload_step(pre, post, before, after, payload, addr),
        payload is Update,
    ensures
        after.len() == before.len() + 1,
        after.drop_last() == before,
        after.last().1 == payload@,
        !after.last().0.contains(addr),
        forall|x: NetAddress| after.last().0.contains(x) <==> (x != addr && exists|i: int|
            0 <= i < pre.roster().len() && (#[trigger] pre.roster()[i]).addr == x),
{
    assert forall|x: NetAddress| crate::clients::addresses_except(pre.roster(), addr).contains(x) <==> (x != addr
        && exists|i: int| 0 <= i < pre.roster().len() && (#[trigger] pre.roster()[i]).addr == x) by {
        lemma_client_targets(pre.roster(), addr, x);
    }
    assert(after.drop_last() =~= before);
}

/// A client joining a self-hosted session through the rendezvous server is
/// told the host's endpoints, and the host is told the client's: its local
/// endpoint first, if it named one, then the address it was seen at.
pub proof fn lemma_rendezvous_join_exchanges_endpoints(
    pre_sessions: Sessions,
    post_sessions: Sessions,
    pre_servers: Servers,
    post_servers: Servers,
    before: Seq<TransferActionView>,
    after: Seq<TransferActionView>,
    addr: NetAddress,
    session_id: Seq<char>,
    local_endpoint: Option<NetAddress>,
    max_client_connections: usize,
    hoster_addr: NetAddress,
    hoster_hostname: Seq<char>,
    info: crate::rendezvous::SessionInfo,
)
    requires
        rendezvous_effect(
            pre_sessions,
            post_sessions,
            pre_servers,
            post_servers,
            before,
            after,
            addr,
            PayloadsView::RendezvousHandshake { session_id, local_endpoint },
            max_client_connections,
            hoster_addr,
            hoster_hostname,
        ),
        lookup(pre_sessions.infos(), session_id) == Some(info),
    ensures
        after.len() == before.len() + 2,
        after.subrange(0, before.len() as int) == before,
        after[before.len() as int] == (TransferActionView::Send {
            payload: PayloadsView::AttemptConnection { peers: info.hoster_endpoints@ },
            to: seq![addr],
        }),
        after[before.len() + 1int] matches TransferActionView::Send { payload: PayloadsView::AttemptConnection { peers }, to: dest }
            && dest == seq![info.hoster_addr]
            && peers.last() == addr
            && match local_endpoint {
                Some(l) => peers.len() == 2 && peers[0] == l,
                None => peers.len() == 1,
            },
{
    assert(after.subrange(0, before.len() as int) =~= before);
}

/// A peer's readiness reaches the application's server's other peers, as one
/// send to exactly them, and then the application.
pub proof fn lemma_ready_relayed_to_other_peers(
    pre: TransferStruct,
    post: TransferStruct,
    before: Seq<TransferActionView>,
    after: Seq<TransferActionView>,
    addr: NetAddress,
)
    requires
        message_effect(pre, post, before, after, addr, PayloadsView::Ready),
    ensures
        after.len() == before.len() + 2,
        after.subrange(0, before.len() as int) == before,
        after[before.len() as int] matches TransferActionView::Send { payload, to: dest } && payload == PayloadsView::Ready
            && forall|x: NetAddress| dest.contains(x) <==> (x != addr && exists|i: int|
                0 <= i < pre.peers().len() && (#[trigger] pre.peers()[i]).addr == x),
        after[before.len() + 1int] == TransferActionView::Deliver(ReceiveMessageView::Payload(PayloadsView::Ready)),
{
    assert forall|x: NetAddress| peer_addrs_except(pre.peers(), Some(addr)).contains(x) <==> (x != addr && exists|i: int|
        0 <= i < pre.peers().len() && (#[trigger] pre.peers()[i]).addr == x) by {
        lemma_peer_targets(pre.peers(), addr, x);
    }
    assert(after.subrange(0, before.len() as int) =~= before);
}

/// An update in a cloud-hosted session changes nothing in the session and
/// goes, as one send, to every other client and never back to its sender.
pub proof fn lemma_hosted_update_skips_sender(
    pre: ServerState,
    post: ServerState,
    before: Seq<TransferActionView>,
    after: Seq<TransferActionView>,
    addr: NetAddress,
    payload: PayloadsView,
    too_old: bool,
    minimum: Seq<char>,
)
    requires
        hosted_effect(pre, post, before, after, addr, payload, too_old, minimum),
        payload is Update,
    ensures
        post.roster() == pre.roster(),
        post.in_control() == pre.in_control(),
        after.len() == before.len() + 1,
        after.drop_last() == before,
        after.last() matches TransferActionView::Send { payload: p, to: dest } && p == payload && !dest.contains(addr)
            && forall|x: NetAddress| dest.contains(x) <==> (x != addr && exists|i: int|
                0 <= i < pre.roster().len() && (#[trigger] pre.roster()[i]).1.addr == x),
{
    assert forall|x: NetAddress| roster_addrs(pre.roster(), Some(addr)).contains(x) <==> (x != addr && exists|i: int|
        0 <= i < pre.roster().len() && (#[trigger] pre.roster()[i]).1.addr == x) by {
        lemma_roster_targets(pre.roster(), addr, x);
    }
    assert(after.drop_last() =~= before);
}

/// A transfer of control in a hosting-server session is recorded: its
/// target is in control afterwards, and the transfer goes to every other
/// client and never back to its sender.
pub proof fn lemma_hoster_transfer_recorded(
    pre: HosterState,
    post: HosterState,
    before: Seq<TransferActionView>,
    after: Seq<TransferActionView>,
    addr: NetAddress,
    from: Seq<char>,
    to: Seq<char>,
    app_version: Seq<char>,
)
    requires
        hoster_effect(pre, post, before, after, addr, PayloadsView::TransferControl { from, to }, app_version),
    ensures
        post.in_control() == to,
        post.roster() == pre.roster(),
        after.len() == before.len() + 1,
        after.last() matches TransferActionView::Send { payload, to: dest } && payload == (PayloadsView::TransferControl { from, to })
            && forall|x: NetAddress| dest.contains(x) <==> (x != addr && exists|i: int|
                0 <= i < pre.roster().len() && (#[trigger] pre.roster()[i]).1.addr == x),
{
    assert forall|x: NetAddress| conn_addrs(pre.roster(), Some(addr)).contains(x) <==> (x != addr && exists|i: int|
        0 <= i < pre.roster().len() && (#[trigger] pre.roster()[i]).1.addr == x) by {
        lemma_conn_targets(pre.roster(), addr, x);
    }
}

/// The application's server relays a peer's update to exactly its other
/// peers, then hands it to the application; nothing else changes.
pub proof fn lemma_update_relayed_to_other_peers(
    pre: TransferStruct,
    post: TransferStruct,
    before: Seq<TransferActionView>,
    after: Seq<TransferActionView>,
    addr: NetAddress,
    payload: PayloadsView,
)
    requires
        message_effect(pre, post, before, after, addr, payload),
        payload is Update,
    ensures
        post.peers() == pre.peers(),
        post.in_control() == pre.in_control(),
        after.len() == before.len() + 2,
        after.subrange(0, before.len() as int) == before,
        after[before.len() as int] matches TransferActionView::Send { payload: p, to: dest } && p == payload
            && forall|x: NetAddress| dest.contains(x) <==> (x != addr && exists|i: int|
                0 <= i < pre.peers().len() && (#[trigger] pre.peers()[i]).addr == x),
        after[before.len() + 1int] == TransferActionView::Deliver(ReceiveMessageView::Payload(payload)),
{
    assert forall|x: NetAddress| peer_addrs_except(pre.peers(), Some(addr)).contains(x) <==> (x != addr && exists|i: int|
        0 <= i < pre.peers().len() && (#[trigger] pre.peers()[i]).addr == x) by {
        lemma_peer_targets(pre.peers(), addr, x);
    }
    assert(after.subrange(0, before.len() as int) =~= before);
}

/// A peer's transfer of control is recorded by the application's server: its
/// target is in control afterwards, the transfer goes to exactly the other
/// peers, and the application is told.
pub proof fn lemma_peer_transfer_recorded(
    pre: TransferStruct,
    post: TransferStruct,
    before: Seq<TransferActionView>,
    after: Seq<TransferActionView>,
    addr: NetAddress,
    from: Seq<char>,
    to: Seq<char>,
)
    requires
        message_effect(pre, post, before, after, addr, PayloadsView::TransferControl { from, to }),
    ensures
        post.in_control() == to,
        post.peers() == pre.peers(),
        after.len() == before.len() + 2,
        after[before.len() as int] matches TransferActionView::Send { payload, to: dest }
            && payload == (PayloadsView::TransferControl { from, to })
            && forall|x: NetAddress| dest.contains(x) <==> (x != addr && exists|i: int|
                0 <= i < pre.peers().len() && (#[trigger] pre.peers()[i]).addr == x),
        after[before.len() + 1int] == TransferActionView::Deliver(
            ReceiveMessageView::Payload(PayloadsView::TransferControl { from, to }),
        ),
{
    assert forall|x: NetAddress| peer_addrs_except(pre.peers(), Some(addr)).contains(x) <==> (x != addr && exists|i: int|
        0 <= i < pre.peers().len() && (#[trigger] pre.peers()[i]).addr == x) by {
        lemma_peer_targets(pre.peers(), addr, x);
    }
}

/// A client asking the rendezvous server for a session it does not know is
/// refused, and nothing changes.
pub proof fn lemma_rendezvous_unknown_session_refused(
    pre_sessions: Sessions,
    post_sessions: Sessions,
    pre_servers: Servers,
    post_servers: Servers,
    before: Seq<TransferActionView>,
    after: Seq<TransferActionView>,
    addr: NetAddress,
    session_id: Seq<char>,
    local_endpoint: Option<NetAddress>,
    max_client_connections: usize,
    hoster_addr: NetAddress,
    hoster_hostname: Seq<char>,
)
    requires
        rendezvous_effect(
            pre_sessions,
            post_sessions,
            pre_servers,
            post_servers,
            before,
            after,
            addr,
            PayloadsView::RendezvousHandshake { session_id, local_endpoint },
            max_client_connections,
            hoster_addr,
            hoster_hostname,
        ),
        lookup(pre_sessions.infos(), session_id) is None,
        lookup(pre_servers.active(), session_id) is None,
    ensures
        post_sessions.joined() == pre_sessions.joined(),
        post_servers.unknown() == pre_servers.unknown(),
        after == before.push(
            TransferActionView::Send {
                payload: PayloadsView::ConnectionDenied { reason: "Session not found."@ },
                to: seq![addr],
            },
        ),
{
}

} // verus!
