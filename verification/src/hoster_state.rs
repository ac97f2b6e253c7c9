use std::time::Instant;
use vstd::prelude::*;

use crate::assoc::{
    insert_pair, key_position, lemma_key_position, lemma_lookup_insert, lookup, remove_key,
    unique_keys, AssocList,
};
use crate::clock::{elapsed_millis, elapsed_secs, instant_now};
use crate::net_address::NetAddress;
use crate::payloads::{Payloads, PayloadsView};
use crate::transfer::{actions, push_send_to, send_to, TransferAction, TransferActionView};

verus! {

/// The name under which the hosting server itself holds control and hosts.
pub open spec fn hoster_name() -> Seq<char> {
    "SERVER"@
}

/// A client connected to a session of the hosting server.
#[derive(Clone, Copy, Debug, PartialEq, Eq, Structural)]
pub struct ClientConnection {
    pub addr: NetAddress,
    pub is_observer: bool,
}

/// The clients of a session, by name.
pub type Conns = Seq<(Seq<char>, ClientConnection)>;

/// The addresses of the clients in `r` other than `except`, in order.
pub open spec fn conn_addrs(r: Conns, except: Option<NetAddress>) -> Seq<NetAddress> {
    match except {
        Some(a) => r.map_values(|e: (Seq<char>, ClientConnection)| e.1.addr).filter(|x: NetAddress| x != a),
        None => r.map_values(|e: (Seq<char>, ClientConnection)| e.1.addr),
    }
}

/// Sending `payload` to every client of `r` but `except`.
pub open spec fn to_conns(r: Conns, except: Option<NetAddress>, payload: PayloadsView) -> TransferActionView {
    TransferActionView::Send { payload, to: conn_addrs(r, except) }
}

/// The clients of `r` announced, in order, to a newcomer at `addr`.
pub open spec fn conns_joined(r: Conns, in_control: Seq<char>, hoster: Seq<char>, addr: NetAddress) -> Seq<
    TransferActionView,
> {
    r.map_values(
        |e: (Seq<char>, ClientConnection)|
            send_to(
                PayloadsView::PlayerJoined {
                    name: e.0,
                    in_control: in_control == e.0,
                    is_server: hoster == e.0,
                    is_observer: e.1.is_observer,
                },
                addr,
            ),
    )
}

/// `r` with the observing flag of the client at `p` set to `is_observer`.
pub open spec fn conn_observing(r: Conns, p: int, is_observer: bool) -> Conns {
    r.update(p, (r[p].0, ClientConnection { is_observer, ..r[p].1 }))
}

/// The clients of `r` not at `addr`.
pub open spec fn conns_not_at(r: Conns, addr: NetAddress) -> Conns {
    r.filter(|e: (Seq<char>, ClientConnection)| e.1.addr != addr)
}

/// The name of the last client of `r` at `addr`, if any.
pub open spec fn last_conn_at(r: Conns, addr: NetAddress) -> Option<Seq<char>>
    decreases r.len(),
{
    if r.len() == 0 {
        None
    } else if r.last().1.addr == addr {
        Some(r.last().0)
    } else {
        last_conn_at(r.drop_last(), addr)
    }
}

/// With no client at `addr`, dropping the clients there changes nothing.
pub proof fn lemma_no_conn_at(r: Conns, addr: NetAddress)
    requires
        last_conn_at(r, addr) is None,
    ensures
        conns_not_at(r, addr) == r,
    decreases r.len(),
{
    reveal_with_fuel(Seq::filter, 1);
    if r.len() > 0 {
        lemma_no_conn_at(r.drop_last(), addr);
        assert(r.drop_last().push(r.last()) =~= r);
    } else {
        assert(r.filter(|e: (Seq<char>, ClientConnection)| e.1.addr != addr) =~= r);
    }
}

/// One session of the hosting server: its clients by name, who is in control,
/// and who hosts.
pub struct ServerState {
    clients: AssocList<String, ClientConnection>,
    in_control: String,
    hoster: String,
    heartbeat_instant: Instant,
    created_at: Instant,
}

impl ServerState {
    pub closed spec fn roster(&self) -> Conns {
        self.clients.pairs()
    }

    pub closed spec fn in_control(&self) -> Seq<char> {
        self.in_control@
    }

    pub closed spec fn hoster(&self) -> Seq<char> {
        self.hoster@
    }

    pub open spec fn wf(&self) -> bool {
        unique_keys(self.roster())
    }

    /// The same clients, controller and host.
    pub open spec fn same_as(&self, other: &Self) -> bool {
        &&& self.roster() == other.roster()
        &&& self.in_control() == other.in_control()
        &&& self.hoster() == other.hoster()
    }

    pub fn new() -> (res: Self)
        ensures
            res.wf(),
            res.roster().len() == 0,
            res.in_control() == hoster_name(),
            res.hoster() == hoster_name(),
    {
        ServerState {
            clients: AssocList::new(),
            in_control: String::from_str("SERVER"),
            hoster: String::from_str("SERVER"),
            heartbeat_instant: instant_now(),
            created_at: instant_now(),
        }
    }

    pub fn has_clients(&self) -> (res: bool)
        ensures
            res == (self.roster().len() > 0),
    {
        !self.clients.is_empty()
    }

    /// The first client at `addr`, if any.
    pub fn get_from_addr(&self, addr: NetAddress) -> (res: Option<ClientConnection>)
        ensures
            match res {
                Some(c) => exists|i: int|
                    0 <= i < self.roster().len() && self.roster()[i].1 == c && c.addr == addr && forall|j: int|
                        0 <= j < i ==> #[trigger] self.roster()[j].1.addr != addr,
                None => forall|i: int| 0 <= i < self.roster().len() ==> #[trigger] self.roster()[i].1.addr != addr,
            },
    {
        let mut i: usize = 0;
        while i < self.clients.len()
            invariant
                i <= self.roster().len(),
                forall|j: int| 0 <= j < i ==> #[trigger] self.roster()[j].1.addr != addr,
            decreases self.roster().len() - i,
        {
            let c = *self.clients.value_at(i);
            if c.addr == addr {
                assert(self.roster()[i as int].1 == c);
                return Some(c);
            }
            i = i + 1;
        }
        None
    }

    pub fn add_client(&mut self, name: String, addr: NetAddress, is_observer: bool)
        requires
            old(self).wf(),
        ensures
            final(self).wf(),
            final(self).roster() == insert_pair(old(self).roster(), name@, ClientConnection { addr, is_observer }),
            final(self).in_control() == old(self).in_control(),
            final(self).hoster() == old(self).hoster(),
    {
        self.clients.insert(name, ClientConnection { addr, is_observer });
    }

    pub fn remove_client(&mut self, name: &String)
        requires
            old(self).wf(),
        ensures
            final(self).wf(),
            final(self).roster() == remove_key(old(self).roster(), name@),
            final(self).in_control() == old(self).in_control(),
            final(self).hoster() == old(self).hoster(),
    {
        self.clients.remove(name);
    }

    /// Drops the clients at `addr`; the name of the last one dropped is
    /// returned.
    pub fn remove_client_by_addr(&mut self, addr: &NetAddress) -> (res: Option<String>)
        requires
            old(self).wf(),
        ensures
            final(self).wf(),
            final(self).roster() == conns_not_at(old(self).roster(), *addr),
            match res {
                Some(n) => last_conn_at(old(self).roster(), *addr) == Some(n@),
                None => last_conn_at(old(self).roster(), *addr) is None,
            },
            final(self).in_control() == old(self).in_control(),
            final(self).hoster() == old(self).hoster(),
    {
        let ghost all = self.roster();
        let mut removed_name: Option<String> = None;
        let mut i: usize = 0;
        let ghost mut j: int = 0;
        while i < self.clients.len()
            invariant
                0 <= j <= all.len(),
                i == conns_not_at(all.take(j), *addr).len(),
                self.roster() == conns_not_at(all.take(j), *addr) + all.subrange(j, all.len() as int),
                self.wf(),
                match removed_name {
                    Some(n) => last_conn_at(all.take(j), *addr) == Some(n@),
                    None => last_conn_at(all.take(j), *addr) is None,
                },
                self.in_control@ == old(self).in_control@,
                self.hoster@ == old(self).hoster@,
            decreases self.roster().len() - i,
        {
            assert(self.roster()[i as int] == all[j]);
            proof {
                reveal_with_fuel(Seq::filter, 1);
                assert(all.take(j + 1).drop_last() =~= all.take(j));
                assert(all.take(j + 1).last() == all[j]);
            }
            if self.clients.value_at(i).addr == *addr {
                let (name, _) = self.clients.remove_at(i);
                removed_name = Some(name);
                proof {
                    assert(self.roster() =~= conns_not_at(all.take(j + 1), *addr) + all.subrange(
                        j + 1,
                        all.len() as int,
                    ));
                }
            } else {
                i = i + 1;
                proof {
                    assert(self.roster() =~= conns_not_at(all.take(j + 1), *addr) + all.subrange(
                        j + 1,
                        all.len() as int,
                    ));
                }
            }
            proof {
                j = j + 1;
            }
        }
        proof {
            if j < all.len() {
                assert(self.roster().len() > i);
            }
            assert(all.take(j) =~= all);
            assert(self.roster() =~= conns_not_at(all, *addr));
        }
        removed_name
    }

    fn addrs_except(&self, except: Option<NetAddress>) -> (res: Vec<NetAddress>)
        ensures
            res@ == conn_addrs(self.roster(), except),
    {
        let ghost r = self.roster();
        let mut res: Vec<NetAddress> = Vec::new();
        let mut i: usize = 0;
        while i < self.clients.len()
            invariant
                i <= self.roster().len(),
                r == self.roster(),
                res@ == conn_addrs(r.take(i as int), except),
            decreases self.roster().len() - i,
        {
            proof {
                let pa = r.take(i as int).map_values(|e: (Seq<char>, ClientConnection)| e.1.addr);
                let qa = r.take(i + 1).map_values(|e: (Seq<char>, ClientConnection)| e.1.addr);
                assert(qa =~= pa.push(r[i as int].1.addr));
                reveal_with_fuel(Seq::filter, 1);
                assert(qa.drop_last() =~= pa);
            }
            let a = self.clients.value_at(i).addr;
            match except {
                Some(e) => {
                    if a != e {
                        res.push(a);
                    }
                },
                None => {
                    res.push(a);
                },
            }
            i = i + 1;
        }
        assert(r.take(i as int) =~= r);
        res
    }

    /// Sends `payload` to every client but `except`.
    pub fn send_to_all(&self, payload: Payloads, except: Option<NetAddress>, out: &mut Vec<TransferAction>)
        ensures
            actions(final(out)@) == actions(old(out)@).push(to_conns(self.roster(), except, payload@)),
    {
        let to = self.addrs_except(except);
        out.push(TransferAction::Send { payload, to });
        assert(actions(out@) =~= actions(old(out)@).push(to_conns(self.roster(), except, payload@)));
    }

    /// Makes the client at `i` the host: it stops observing and is told so,
    /// everyone learns that control passes to it, and it takes control.
    pub fn set_host_at(&mut self, i: usize, out: &mut Vec<TransferAction>)
        requires
            old(self).wf(),
            i < old(self).roster().len(),
        ensures
            final(self).wf(),
            final(self).roster() == conn_observing(old(self).roster(), i as int, false),
            final(self).in_control() == old(self).roster()[i as int].0,
            final(self).hoster() == old(self).roster()[i as int].0,
            actions(final(out)@) == actions(old(out)@) + seq![
                send_to(PayloadsView::SetHost, old(self).roster()[i as int].1.addr),
                to_conns(
                    conn_observing(old(self).roster(), i as int, false),
                    None,
                    PayloadsView::TransferControl {
                        from: old(self).in_control(),
                        to: old(self).roster()[i as int].0,
                    },
                ),
            ],
    {
        let ghost before = actions(out@);
        let c = *self.clients.value_at(i);
        let name = self.clients.key_at(i).clone();
        self.clients.replace_at(i, ClientConnection { addr: c.addr, is_observer: false });
        push_send_to(out, Payloads::SetHost, c.addr);
        let from = self.in_control.clone();
        self.send_to_all(Payloads::TransferControl { from, to: name.clone() }, None, out);
        self.in_control = name.clone();
        self.hoster = name;
        assert(actions(out@) =~= before + seq![
            send_to(PayloadsView::SetHost, old(self).roster()[i as int].1.addr),
            to_conns(
                conn_observing(old(self).roster(), i as int, false),
                None,
                PayloadsView::TransferControl {
                    from: old(self).in_control(),
                    to: old(self).roster()[i as int].0,
                },
            ),
        ]);
    }

    /// Makes the client named `name` the host: see `set_host_at`.
    pub fn set_host(&mut self, name: &String, out: &mut Vec<TransferAction>)
        requires
            old(self).wf(),
            lookup(old(self).roster(), name@) is Some,
        ensures
            final(self).wf(),
            ({
                let p = key_position(old(self).roster(), name@);
                &&& final(self).roster() == conn_observing(old(self).roster(), p, false)
                &&& final(self).in_control() == name@
                &&& final(self).hoster() == name@
                &&& actions(final(out)@) == actions(old(out)@) + seq![
                    send_to(PayloadsView::SetHost, old(self).roster()[p].1.addr),
                    to_conns(
                        conn_observing(old(self).roster(), p, false),
                        None,
                        PayloadsView::TransferControl { from: old(self).in_control(), to: name@ },
                    ),
                ]
            }),
    {
        proof {
            lemma_key_position(self.roster(), name@);
        }
        let i = match self.clients.position(name) {
            Some(i) => i,
            None => return,
        };
        self.set_host_at(i, out);
    }

    /// Handles a payload from the client at `addr`; `app_version` is the
    /// version every client must have.
    pub fn process_payload(
        &mut self,
        addr: NetAddress,
        payload: Payloads,
        app_version: &String,
        out: &mut Vec<TransferAction>,
    )
        requires
            old(self).wf(),
        ensures
            final(self).wf(),
            hoster_effect(
                *old(self),
                *final(self),
                actions(old(out)@),
                actions(final(out)@),
                addr,
                payload@,
                app_version@,
            ),
    {
        match &payload {
            Payloads::AircraftDefinition { .. } | Payloads::Update { .. } => {},
            Payloads::InitHandshake { name, version } => {
                self.on_init_handshake(addr, name, version, app_version, out);
                return;
            },
            Payloads::TransferControl { to, .. } => {
                self.in_control = to.clone();
            },
            Payloads::SetObserver { to, is_observer, .. } => {
                proof {
                    lemma_key_position(self.roster(), to@);
                }
                if let Some(i) = self.clients.position(to) {
                    let c = *self.clients.value_at(i);
                    self.clients.replace_at(i, ClientConnection { is_observer: *is_observer, ..c });
                }
            },
            Payloads::Ready => {
                // Tell the one in control to do a full sync
                proof {
                    lemma_key_position(self.roster(), self.in_control@);
                }
                if let Some(i) = self.clients.position(&self.in_control) {
                    let a = self.clients.value_at(i).addr;
                    push_send_to(out, payload, a);
                }
                return;
            },
            Payloads::Handshake { .. } => {
                push_send_to(out, payload, addr);
                return;
            },
            _ => {
                return;
            },
        }
        proof {
            let pa = self.roster().map_values(|e: (Seq<char>, ClientConnection)| e.1.addr);
            let qa = old(self).roster().map_values(|e: (Seq<char>, ClientConnection)| e.1.addr);
            assert(pa =~= qa);
            assert(conn_addrs(self.roster(), Some(addr)) == conn_addrs(old(self).roster(), Some(addr)));
        }
        self.send_to_all(payload, Some(addr), out);
    }

    fn on_init_handshake(
        &mut self,
        addr: NetAddress,
        name: &String,
        version: &String,
        app_version: &String,
        out: &mut Vec<TransferAction>,
    )
        requires
            old(self).wf(),
        ensures
            final(self).wf(),
            hoster_join_effect(
                *old(self),
                *final(self),
                actions(old(out)@),
                actions(final(out)@),
                addr,
                name@,
                version@,
                app_version@,
            ),
    {
        if *version != *app_version {
            push_send_to(out, Payloads::InvalidVersion { server_version: app_version.clone() }, addr);
            return;
        }
        if self.clients.contains_key(name) {
            push_send_to(out, Payloads::InvalidName, addr);
            return;
        }
        let ghost before = actions(out@);
        let ghost r0 = self.roster();
        // Send all current connected clients
        let mut i: usize = 0;
        while i < self.clients.len()
            invariant
                i <= self.roster().len(),
                self.roster() == r0,
                self.in_control@ == old(self).in_control@,
                self.hoster@ == old(self).hoster@,
                actions(out@) == before + conns_joined(r0.take(i as int), self.in_control@, self.hoster@, addr),
            decreases self.roster().len() - i,
        {
            let c = *self.clients.value_at(i);
            let n = self.clients.key_at(i).clone();
            let in_control = self.in_control == n;
            let is_server = self.hoster == n;
            push_send_to(
                out,
                Payloads::PlayerJoined { name: n, in_control, is_server, is_observer: c.is_observer },
                addr,
            );
            i = i + 1;
            proof {
                assert(r0.take(i as int) =~= r0.take(i - 1).push(r0[i - 1]));
                assert(actions(out@) =~= before + conns_joined(
                    r0.take(i as int),
                    self.in_control@,
                    self.hoster@,
                    addr,
                ));
            }
        }
        assert(r0.take(i as int) =~= r0);
        let ghost after_roster = actions(out@);
        // Add client
        proof {
            lemma_key_position(r0, name@);
        }
        self.clients.insert(name.clone(), ClientConnection { addr, is_observer: true });
        let ghost r1 = self.roster();
        assert(r1 == r0.push((name@, ClientConnection { addr, is_observer: true })));
        // The first client to connect gets control and hosts
        let takes_control = self.in_control == String::from_str("SERVER");
        let ghost pre_in_control = self.in_control@;
        if takes_control {
            let last = self.clients.len() - 1;
            self.set_host_at(last, out);
        }
        let ghost r2 = self.roster();
        let ghost hosting = if takes_control {
            seq![
                send_to(PayloadsView::SetHost, addr),
                to_conns(r2, None, PayloadsView::TransferControl { from: pre_in_control, to: name@ }),
            ]
        } else {
            Seq::empty()
        };
        assert(actions(out@) =~= after_roster + hosting);
        let joined = Payloads::PlayerJoined {
            name: name.clone(),
            in_control: false,
            is_server: false,
            is_observer: true,
        };
        let ghost jv = joined@;
        self.send_to_all(joined, Some(addr), out);
        assert(actions(out@) =~= before + conns_joined(r0, old(self).in_control(), old(self).hoster(), addr)
            + hosting + seq![to_conns(r2, Some(addr), jv)]);
    }
}

/// A join request from `addr` under `name` with `version`: another version
/// than `app_version` is reported; a taken name is refused; otherwise the
/// newcomer learns who is there and joins as an observer, takes control and
/// hosts if the server held control, and everyone else learns of it.
pub open spec fn hoster_join_effect(
    pre: ServerState,
    post: ServerState,
    before: Seq<TransferActionView>,
    after: Seq<TransferActionView>,
    addr: NetAddress,
    name: Seq<char>,
    version: Seq<char>,
    app_version: Seq<char>,
) -> bool {
    if version != app_version {
        &&& post.same_as(&pre)
        &&& after == before.push(send_to(PayloadsView::InvalidVersion { server_version: app_version }, addr))
    } else if lookup(pre.roster(), name) is Some {
        post.same_as(&pre) && after == before.push(send_to(PayloadsView::InvalidName, addr))
    } else {
        let r1 = pre.roster().push((name, ClientConnection { addr, is_observer: true }));
        let takes_control = pre.in_control() == hoster_name();
        let r2 = if takes_control {
            conn_observing(r1, pre.roster().len() as int, false)
        } else {
            r1
        };
        let hosting = if takes_control {
            seq![
                send_to(PayloadsView::SetHost, addr),
                to_conns(r2, None, PayloadsView::TransferControl { from: pre.in_control(), to: name }),
            ]
        } else {
            Seq::empty()
        };
        let joined = PayloadsView::PlayerJoined {
            name,
            in_control: false,
            is_server: false,
            is_observer: true,
        };
        &&& post.roster() == r2
        &&& post.in_control() == if takes_control {
            name
        } else {
            pre.in_control()
        }
        &&& post.hoster() == if takes_control {
            name
        } else {
            pre.hoster()
        }
        &&& after == before + conns_joined(pre.roster(), pre.in_control(), pre.hoster(), addr) + hosting
            + seq![to_conns(r2, Some(addr), joined)]
    }
}

/// What a payload from the client at `addr` does to its session on the
/// hosting server: a join request is answered as `hoster_join_effect` says; a
/// transfer of control is recorded; observers are marked; definitions,
/// updates, transfers and observer changes are relayed to the other clients;
/// a readiness notice goes to the one in control; a handshake is echoed; and
/// everything else is dropped.
pub open spec fn hoster_effect(
    pre: ServerState,
    post: ServerState,
    before: Seq<TransferActionView>,
    after: Seq<TransferActionView>,
    addr: NetAddress,
    payload: PayloadsView,
    app_version: Seq<char>,
) -> bool {
    let relay = to_conns(pre.roster(), Some(addr), payload);
    match payload {
        PayloadsView::AircraftDefinition { .. } | PayloadsView::Update { .. } => post.same_as(&pre) && after
            == before.push(relay),
        PayloadsView::InitHandshake { name, version } => hoster_join_effect(
            pre,
            post,
            before,
            after,
            addr,
            name,
            version,
            app_version,
        ),
        PayloadsView::TransferControl { to, .. } => {
            &&& post.roster() == pre.roster()
            &&& post.hoster() == pre.hoster()
            &&& post.in_control() == to
            &&& after == before.push(relay)
        },
        PayloadsView::SetObserver { to, is_observer, .. } => {
            let p = key_position(pre.roster(), to);
            &&& post.roster() == if p >= 0 {
                conn_observing(pre.roster(), p, is_observer)
            } else {
                pre.roster()
            }
            &&& post.in_control() == pre.in_control()
            &&& post.hoster() == pre.hoster()
            &&& after == before.push(relay)
        },
        PayloadsView::Ready => {
            let p = key_position(pre.roster(), pre.in_control());
            &&& post.same_as(&pre)
            &&& after == if p >= 0 {
                before.push(send_to(payload, pre.roster()[p].1.addr))
            } else {
                before
            }
        },
        PayloadsView::Handshake { .. } => post.same_as(&pre) && after == before.push(send_to(payload, addr)),
        _ => post.same_as(&pre) && after == before,
    }
}

/// The messages between the hosting server and the rendezvous server.
#[derive(Debug)]
pub enum HosterPayloads {
    SessionOpen { session_id: String },
    SessionClosed { session_id: String },
    ClientAcknowledged { addr: NetAddress },
    HostingRequested { session_id: String },
    ClientConnecting { session_id: String, addr: NetAddress },
}

pub enum HosterPayloadsView {
    SessionOpen { session_id: Seq<char> },
    SessionClosed { session_id: Seq<char> },
    ClientAcknowledged { addr: NetAddress },
    HostingRequested { session_id: Seq<char> },
    ClientConnecting { session_id: Seq<char>, addr: NetAddress },
}

impl View for HosterPayloads {
    type V = HosterPayloadsView;

    open spec fn view(&self) -> HosterPayloadsView {
        match self {
            HosterPayloads::SessionOpen { session_id } => HosterPayloadsView::SessionOpen { session_id: session_id@ },
            HosterPayloads::SessionClosed { session_id } => HosterPayloadsView::SessionClosed {
                session_id: session_id@,
            },
            HosterPayloads::ClientAcknowledged { addr } => HosterPayloadsView::ClientAcknowledged { addr: *addr },
            HosterPayloads::HostingRequested { session_id } => HosterPayloadsView::HostingRequested {
                session_id: session_id@,
            },
            HosterPayloads::ClientConnecting { session_id, addr } => HosterPayloadsView::ClientConnecting {
                session_id: session_id@,
                addr: *addr,
            },
        }
    }
}

/// The byte that ends each message to the rendezvous server.
pub const MESSAGE_DELIMITER: u8 = 0x0A;

/// An encoded message as it is sent: ended by the delimiter.
pub open spec fn framed(bytes: Seq<u8>) -> Seq<u8> {
    bytes.push(MESSAGE_DELIMITER)
}

/// A received message without the byte that ended it, if any.
pub open spec fn unframed(bytes: Seq<u8>) -> Seq<u8> {
    if bytes.len() > 0 {
        bytes.drop_last()
    } else {
        bytes
    }
}

/// Ends an encoded message with the delimiter.
pub fn frame_message(bytes: &mut Vec<u8>)
    ensures
        final(bytes)@ == framed(old(bytes)@),
{
    bytes.push(MESSAGE_DELIMITER);
}

/// Drops the byte that ended a received message, if any.
pub fn unframe_message(bytes: &mut Vec<u8>)
    ensures
        final(bytes)@ == unframed(old(bytes)@),
{
    if bytes.len() > 0 {
        bytes.pop();
    }
}

/// Every session of the hosting server, and the session each connected
/// address belongs to.
pub struct ActiveState {
    clients_connected: AssocList<NetAddress, String>,
    server_states: AssocList<String, ServerState>,
}

impl ActiveState {
    pub closed spec fn connected(&self) -> Seq<(NetAddress, String)> {
        self.clients_connected.pairs()
    }

    pub closed spec fn states(&self) -> Seq<(Seq<char>, ServerState)> {
        self.server_states.pairs()
    }

    pub open spec fn wf(&self) -> bool {
        &&& unique_keys(self.connected())
        &&& unique_keys(self.states())
        &&& forall|i: int| 0 <= i < self.states().len() ==> (#[trigger] self.states()[i]).1.wf()
    }

    pub fn new() -> (res: Self)
        ensures
            res.wf(),
            res.connected().len() == 0,
            res.states().len() == 0,
    {
        ActiveState { clients_connected: AssocList::new(), server_states: AssocList::new() }
    }

    /// Opens the session `session_id` with a fresh state, replacing any it had.
    pub fn add_server(&mut self, session_id: String)
        requires
            old(self).wf(),
        ensures
            final(self).wf(),
            final(self).connected() == old(self).connected(),
            ({
                let p = key_position(final(self).states(), session_id@);
                &&& p >= 0
                &&& final(self).states() == insert_pair(old(self).states(), session_id@, final(self).states()[p].1)
                &&& final(self).states()[p].1.roster().len() == 0
                &&& final(self).states()[p].1.in_control() == hoster_name()
                &&& final(self).states()[p].1.hoster() == hoster_name()
            }),
    {
        let st = ServerState::new();
        let ghost stv = st;
        let ghost before = self.states();
        let ghost key = session_id@;
        self.server_states.insert(session_id, st);
        proof {
            lemma_lookup_insert(before, key, stv);
            lemma_key_position(before, key);
            lemma_key_position(self.states(), key);
            assert forall|j: int| 0 <= j < self.states().len() implies (#[trigger] self.states()[j]).1.wf() by {
                if j < before.len() && self.states()[j] == before[j] {
                } else {
                    assert(self.states()[j].1 == stv);
                }
            }
        }
    }

    pub fn remove_server(&mut self, session_id: &String)
        requires
            old(self).wf(),
        ensures
            final(self).wf(),
            final(self).states() == remove_key(old(self).states(), session_id@),
            final(self).connected() == old(self).connected(),
    {
        self.server_states.remove(session_id);
        proof {
            let pre = old(self).states();
            lemma_key_position(pre, session_id@);
            let p = key_position(pre, session_id@);
            assert forall|j: int| 0 <= j < self.states().len() implies (#[trigger] self.states()[j]).1.wf() by {
                if p >= 0 && j >= p {
                    assert(self.states()[j] == pre[j + 1]);
                } else {
                    assert(self.states()[j] == pre[j]);
                }
            }
        }
    }

    pub fn add_client(&mut self, addr: NetAddress, session_id: String)
        requires
            old(self).wf(),
        ensures
            final(self).wf(),
            final(self).connected() == insert_pair(old(self).connected(), addr, session_id),
            final(self).states() == old(self).states(),
    {
        self.clients_connected.insert(addr, session_id);
    }

    pub fn remove_client(&mut self, addr: &NetAddress) -> (res: Option<String>)
        requires
            old(self).wf(),
        ensures
            final(self).wf(),
            final(self).connected() == remove_key(old(self).connected(), *addr),
            res == lookup(old(self).connected(), *addr),
            final(self).states() == old(self).states(),
    {
        self.clients_connected.remove(addr)
    }

    pub fn get_session_id_for(&self, addr: &NetAddress) -> (res: Option<&String>)
        requires
            self.wf(),
        ensures
            match lookup(self.connected(), *addr) {
                Some(s) => res == Some(&s),
                None => res is None,
            },
    {
        self.clients_connected.get(addr)
    }

    fn take_state(&mut self, i: usize) -> (res: ServerState)
        requires
            old(self).wf(),
            i < old(self).states().len(),
        ensures
            final(self).wf(),
            res == old(self).states()[i as int].1,
            res.wf(),
            final(self).states().len() == old(self).states().len(),
            final(self).states()[i as int].0 == old(self).states()[i as int].0,
            forall|j: int| 0 <= j < old(self).states().len() && j != i ==> final(self).states()[j] == old(self).states()[j],
            final(self).connected() == old(self).connected(),
    {
        let res = self.server_states.replace_at(i, ServerState::new());
        proof {
            assert forall|j: int| 0 <= j < self.states().len() implies (#[trigger] self.states()[j]).1.wf() by {
                if j != i {
                    assert(self.states()[j] == old(self).states()[j]);
                }
            }
        }
        res
    }

    fn put_state(&mut self, i: usize, st: ServerState)
        requires
            old(self).wf(),
            i < old(self).states().len(),
            st.wf(),
        ensures
            final(self).wf(),
            final(self).states() == old(self).states().update(i as int, (old(self).states()[i as int].0, st)),
            final(self).connected() == old(self).connected(),
    {
        self.server_states.replace_at(i, st);
        proof {
            assert forall|j: int| 0 <= j < self.states().len() implies (#[trigger] self.states()[j]).1.wf() by {
                if j != i {
                    assert(self.states()[j] == old(self).states()[j]);
                }
            }
        }
    }

    /// A payload from `addr` goes to the session of its address, if any, as
    /// `ServerState::process_payload` says.
    pub fn process_payload(&mut self, addr: NetAddress, payload: Payloads, app_version: &String, out: &mut Vec<TransferAction>)
        requires
            old(self).wf(),
        ensures
            final(self).wf(),
            final(self).connected() == old(self).connected(),
            match lookup(old(self).connected(), addr) {
                Some(session) => {
                    let p = key_position(old(self).states(), session@);
                    if p >= 0 {
                        &&& final(self).states() == old(self).states().update(p, (session@, final(self).states()[p].1))
                        &&& hoster_effect(
                            old(self).states()[p].1,
                            final(self).states()[p].1,
                            actions(old(out)@),
                            actions(final(out)@),
                            addr,
                            payload@,
                            app_version@,
                        )
                    } else {
                        final(self).states() == old(self).states() && actions(final(out)@) == actions(old(out)@)
                    }
                },
                None => final(self).states() == old(self).states() && actions(final(out)@) == actions(old(out)@),
            },
    {
        proof {
            lemma_key_position(self.connected(), addr);
        }
        let session = match self.clients_connected.get(&addr) {
            Some(s) => s.clone(),
            None => return,
        };
        proof {
            lemma_key_position(self.states(), session@);
        }
        if let Some(i) = self.server_states.position(&session) {
            let ghost mid = self.states();
            let mut st = self.take_state(i);
            st.process_payload(addr, payload, app_version, out);
            let ghost st2 = st;
            self.put_state(i, st);
            assert(self.states() =~= mid.update(i as int, (session@, st2)));
        }
    }

    /// The connection of `addr` closed: it leaves its session; if it was in
    /// control, the first client left becomes the host; everyone left learns
    /// who left; and a session left empty is closed.
    pub fn on_connection_closed(&mut self, addr: NetAddress, out: &mut Vec<TransferAction>)
        requires
            old(self).wf(),
        ensures
            final(self).wf(),
            hoster_closed_effect(*old(self), *final(self), actions(old(out)@), actions(final(out)@), addr),
    {
        proof {
            lemma_key_position(self.connected(), addr);
        }
        let session = match self.remove_client(&addr) {
            Some(s) => s,
            None => return,
        };
        proof {
            lemma_key_position(self.states(), session@);
        }
        let i = match self.server_states.position(&session) {
            Some(i) => i,
            None => return,
        };
        let ghost pre_states = self.states();
        let mut st = self.take_state(i);
        let ghost st1 = st;
        let ghost out1 = actions(out@);
        let mut should_close = false;
        if let Some(name) = st.remove_client_by_addr(&addr) {
            // If it was in control, hand control to someone still there
            if st.has_clients() {
                if name == st.in_control {
                    st.set_host_at(0, out);
                }
            } else {
                should_close = true;
            }
            st.send_to_all(Payloads::PlayerLeft { name }, None, out);
        }
        let ghost st2 = st;
        proof {
            let r1 = conns_not_at(st1.roster(), addr);
            match last_conn_at(st1.roster(), addr) {
                Some(n) => {
                    if r1.len() > 0 && n == st1.in_control() {
                        assert(actions(out@) =~= out1 + seq![
                            send_to(PayloadsView::SetHost, r1[0].1.addr),
                            to_conns(
                                conn_observing(r1, 0, false),
                                None,
                                PayloadsView::TransferControl { from: st1.in_control(), to: r1[0].0 },
                            ),
                            to_conns(conn_observing(r1, 0, false), None, PayloadsView::PlayerLeft { name: n }),
                        ]);
                    }
                },
                None => {
                    lemma_no_conn_at(st1.roster(), addr);
                },
            }
            assert(hoster_left_effect(st1, st2, out1, actions(out@), addr));
        }
        self.put_state(i, st);
        assert(self.states() =~= pre_states.update(i as int, (session@, st2)));
        if should_close {
            let ghost mid = self.states();
            self.remove_server(&session);
            proof {
                lemma_key_position(mid, session@);
                assert(mid[i as int].0 == session@);
                assert(key_position(mid, session@) == i);
                assert(key_position(old(self).states(), session@) == i);
                assert(mid.remove(i as int) =~= old(self).states().remove(i as int));
            }
        }
    }

    /// A message from the rendezvous server: a requested session is opened
    /// and confirmed; a connecting client is recorded and acknowledged; the
    /// answer, if any, is returned.
    pub fn handle_hoster_payload(&mut self, payload: HosterPayloads) -> (res: Option<HosterPayloads>)
        requires
            old(self).wf(),
        ensures
            final(self).wf(),
            match payload@ {
                HosterPayloadsView::HostingRequested { session_id } => {
                    &&& final(self).connected() == old(self).connected()
                    &&& lookup(final(self).states(), session_id) is Some
                    &&& final(self).states() == insert_pair(
                        old(self).states(),
                        session_id,
                        lookup(final(self).states(), session_id).unwrap(),
                    )
                    &&& lookup(final(self).states(), session_id).unwrap().roster().len() == 0
                    &&& res matches Some(r) && r@ == (HosterPayloadsView::SessionOpen { session_id })
                },
                HosterPayloadsView::ClientConnecting { session_id, addr } => {
                    &&& final(self).states() == old(self).states()
                    &&& lookup(final(self).connected(), addr) is Some
                    &&& lookup(final(self).connected(), addr).unwrap()@ == session_id
                    &&& final(self).connected() == insert_pair(
                        old(self).connected(),
                        addr,
                        lookup(final(self).connected(), addr).unwrap(),
                    )
                    &&& res matches Some(r) && r@ == (HosterPayloadsView::ClientAcknowledged { addr })
                },
                _ => {
                    &&& final(self).states() == old(self).states()
                    &&& final(self).connected() == old(self).connected()
                    &&& res is None
                },
            },
    {
        match payload {
            HosterPayloads::HostingRequested { session_id } => {
                self.add_server(session_id.clone());
                proof {
                    lemma_key_position(self.states(), session_id@);
                    let p = key_position(self.states(), session_id@);
                    assert(self.states()[p].0 == session_id@);
                }
                Some(HosterPayloads::SessionOpen { session_id })
            },
            HosterPayloads::ClientConnecting { session_id, addr } => {
                let ghost sv = session_id;
                let ghost before = self.connected();
                self.add_client(addr, session_id);
                proof {
                    lemma_lookup_insert(before, addr, sv);
                }
                Some(HosterPayloads::ClientAcknowledged { addr })
            },
            _ => None,
        }
    }

    /// Closes the sessions that still have clients and whose `expired` flag is
    /// set; a closing notice for each is returned, in order.
    pub fn remove_unused_with(&mut self, expired: &Vec<bool>) -> (res: Vec<HosterPayloads>)
        requires
            old(self).wf(),
            expired@.len() == old(self).states().len(),
        ensures
            final(self).wf(),
            final(self).connected() == old(self).connected(),
            final(self).states() == states_kept(old(self).states(), expired@),
            res@.len() == states_closed(old(self).states(), expired@).len(),
            forall|i: int| 0 <= i < res@.len() ==> (#[trigger] res@[i])@ == (HosterPayloadsView::SessionClosed {
                session_id: states_closed(old(self).states(), expired@)[i],
            }),
    {
        let ghost all = self.states();
        let n = expired.len();
        let mut removed: Vec<HosterPayloads> = Vec::new();
        let mut i: usize = 0;
        let mut j: usize = 0;
        while i < self.server_states.len()
            invariant
                j <= all.len(),
                n == all.len(),
                expired@.len() == all.len(),
                i == states_kept(all.take(j as int), expired@).len(),
                self.states() == states_kept(all.take(j as int), expired@) + all.subrange(j as int, all.len() as int),
                removed@.len() == states_closed(all.take(j as int), expired@).len(),
                forall|k: int| 0 <= k < removed@.len() ==> (#[trigger] removed@[k])@ == (HosterPayloadsView::SessionClosed {
                    session_id: states_closed(all.take(j as int), expired@)[k],
                }),
                self.wf(),
                self.connected() == old(self).connected(),
            decreases self.states().len() - i,
        {
            assert(j < all.len());
            assert(self.states()[i as int] == all[j as int]);
            proof {
                assert(all.take(j + 1).drop_last() =~= all.take(j as int));
                assert(all.take(j + 1).last() == all[j as int]);
            }
            if expired[j] && self.server_states.value_at(i).has_clients() {
                let ghost pre = self.states();
                let ghost closed_before = states_closed(all.take(j as int), expired@);
                let (key, _) = self.server_states.remove_at(i);
                proof {
                    assert forall|k: int| 0 <= k < self.states().len() implies (#[trigger] self.states()[k]).1.wf() by {
                        if k >= i {
                            assert(self.states()[k] == pre[k + 1]);
                        } else {
                            assert(self.states()[k] == pre[k]);
                        }
                    }
                }
                removed.push(HosterPayloads::SessionClosed { session_id: key });
                proof {
                    assert(self.states() =~= states_kept(all.take(j + 1), expired@) + all.subrange(
                        j + 1,
                        all.len() as int,
                    ));
                    assert(states_closed(all.take(j + 1), expired@) =~= closed_before.push(all[j as int].0));
                }
            } else {
                i = i + 1;
                proof {
                    assert(states_closed(all.take(j + 1), expired@) =~= states_closed(all.take(j as int), expired@));
                    assert(self.states() =~= states_kept(all.take(j + 1), expired@) + all.subrange(
                        j + 1,
                        all.len() as int,
                    ));
                }
            }
            j = j + 1;
        }
        proof {
            if j < all.len() {
                assert(self.states().len() > i);
            }
            assert(all.take(j as int) =~= all);
            assert(self.states() =~= states_kept(all, expired@));
        }
        removed
    }

    /// Closes the sessions with clients that were opened more than a minute
    /// ago, by the clock: see `remove_unused_with`.
    pub fn remove_unused(&mut self) -> (res: Vec<HosterPayloads>)
        requires
            old(self).wf(),
        ensures
            final(self).wf(),
            final(self).connected() == old(self).connected(),
            exists|expired: Seq<bool>|
                expired.len() == old(self).states().len() && final(self).states() == #[trigger] states_kept(
                    old(self).states(),
                    expired,
                ),
    {
        let mut expired: Vec<bool> = Vec::new();
        let mut i: usize = 0;
        while i < self.server_states.len()
            invariant
                i <= self.states().len(),
                expired@.len() == i,
            decreases self.states().len() - i,
        {
            expired.push(elapsed_secs(&self.server_states.value_at(i).created_at) > SESSION_MAX_AGE_SECS);
            i = i + 1;
        }
        self.remove_unused_with(&expired)
    }

    /// Sends a heartbeat to every client of each session in turn, while the
    /// clock says one is due; the first session not due ends the round. So
    /// the sessions of some first part of the list, in order, each send one
    /// heartbeat to all their clients.
    pub fn handle_heartbeats(&mut self, out: &mut Vec<TransferAction>)
        requires
            old(self).wf(),
        ensures
            final(self).wf(),
            final(self).connected() == old(self).connected(),
            final(self).states().len() == old(self).states().len(),
            forall|i: int|
                0 <= i < old(self).states().len() ==> (#[trigger] final(self).states()[i]).0 == old(self).states()[i].0
                    && final(self).states()[i].1.same_as(&old(self).states()[i].1),
            exists|k: int|
                0 <= k <= old(self).states().len() && actions(final(out)@) == actions(old(out)@)
                    + hoster_heartbeat_sends(#[trigger] old(self).states().take(k)),
    {
        let ghost all = self.states();
        let ghost before = actions(out@);
        let mut i: usize = 0;
        while i < self.server_states.len()
            invariant
                i <= all.len(),
                self.wf(),
                self.states().len() == all.len(),
                forall|k: int|
                    0 <= k < all.len() ==> (#[trigger] self.states()[k]).0 == all[k].0 && self.states()[k].1.same_as(
                        &all[k].1,
                    ),
                forall|j: int| i <= j < all.len() ==> self.states()[j] == all[j],
                self.connected() == old(self).connected(),
                all == old(self).states(),
                before == actions(old(out)@),
                actions(out@) == before + hoster_heartbeat_sends(all.take(i as int)),
            decreases all.len() - i,
        {
            let due = crate::transfer::is_heartbeat_due(elapsed_millis(&self.server_states.value_at(i).heartbeat_instant));
            if !due {
                return;
            }
            let mut st = self.take_state(i);
            st.send_to_all(Payloads::Heartbeat, None, out);
            st.heartbeat_instant = instant_now();
            self.put_state(i, st);
            i = i + 1;
            proof {
                assert(all.take(i as int) =~= all.take(i - 1).push(all[i - 1]));
                assert(actions(out@) =~= before + hoster_heartbeat_sends(all.take(i as int)));
            }
        }
        assert(all.take(i as int) =~= all.take(all.len() as int));
    }
}

/// The heartbeats that the sessions of `s` send, in order: one to all the
/// clients of each.
pub open spec fn hoster_heartbeat_sends(s: Seq<(Seq<char>, ServerState)>) -> Seq<TransferActionView> {
    s.map_values(|e: (Seq<char>, ServerState)| to_conns(e.1.roster(), None, PayloadsView::Heartbeat))
}

/// How many seconds a session with clients may stay open.
pub const SESSION_MAX_AGE_SECS: u64 = 60;

/// Whether the cleanup closes a session in state `st` whose `expired` flag is given.
pub open spec fn state_closes(st: ServerState, expired: bool) -> bool {
    expired && st.roster().len() > 0
}

/// The sessions of `s` the cleanup keeps.
pub open spec fn states_kept(s: Seq<(Seq<char>, ServerState)>, expired: Seq<bool>) -> Seq<(Seq<char>, ServerState)>
    decreases s.len(),
{
    if s.len() == 0 {
        Seq::empty()
    } else {
        let rest = states_kept(s.drop_last(), expired);
        if state_closes(s.last().1, expired[s.len() - 1]) {
            rest
        } else {
            rest.push(s.last())
        }
    }
}

/// The ids of the sessions of `s` the cleanup closes, in order.
pub open spec fn states_closed(s: Seq<(Seq<char>, ServerState)>, expired: Seq<bool>) -> Seq<Seq<char>>
    decreases s.len(),
{
    if s.len() == 0 {
        Seq::empty()
    } else {
        let rest = states_closed(s.drop_last(), expired);
        if state_closes(s.last().1, expired[s.len() - 1]) {
            rest.push(s.last().0)
        } else {
            rest
        }
    }
}

/// What a departure from `addr` does to a session of the hosting server: if a
/// client was there, it is dropped; if it was in control and others remain,
/// the first of them becomes the host; everyone left learns who left.
pub open spec fn hoster_left_effect(
    pre: ServerState,
    post: ServerState,
    before: Seq<TransferActionView>,
    after: Seq<TransferActionView>,
    addr: NetAddress,
) -> bool {
    let r1 = conns_not_at(pre.roster(), addr);
    match last_conn_at(pre.roster(), addr) {
        None => post.same_as(&pre) && after == before,
        Some(n) => if r1.len() > 0 && n == pre.in_control() {
            &&& post.roster() == conn_observing(r1, 0, false)
            &&& post.in_control() == r1[0].0
            &&& post.hoster() == r1[0].0
            &&& after == before + seq![
                send_to(PayloadsView::SetHost, r1[0].1.addr),
                to_conns(
                    conn_observing(r1, 0, false),
                    None,
                    PayloadsView::TransferControl { from: pre.in_control(), to: r1[0].0 },
                ),
                to_conns(conn_observing(r1, 0, false), None, PayloadsView::PlayerLeft { name: n }),
            ]
        } else {
            &&& post.roster() == r1
            &&& post.in_control() == pre.in_control()
            &&& post.hoster() == pre.hoster()
            &&& after == before.push(to_conns(r1, None, PayloadsView::PlayerLeft { name: n }))
        },
    }
}

/// What the closing of `addr`'s connection does on the hosting server: see
/// `ActiveState::on_connection_closed`.
pub open spec fn hoster_closed_effect(
    pre: ActiveState,
    post: ActiveState,
    before: Seq<TransferActionView>,
    after: Seq<TransferActionView>,
    addr: NetAddress,
) -> bool {
    match lookup(pre.connected(), addr) {
        None => post.connected() == pre.connected() && post.states() == pre.states() && after == before,
        Some(session) => {
            let p = key_position(pre.states(), session@);
            &&& post.connected() == remove_key(pre.connected(), addr)
            &&& if p < 0 {
                post.states() == pre.states() && after == before
            } else {
                exists|st: ServerState|
                    {
                        &&& hoster_left_effect(pre.states()[p].1, st, before, after, addr)
                        &&& if st.roster().len() == 0 && last_conn_at(pre.states()[p].1.roster(), addr) is Some {
                            post.states() == remove_key(pre.states(), session@)
                        } else {
                            post.states() == pre.states().update(p, (session@, st))
                        }
                    }
            }
        },
    }
}

} // verus!
