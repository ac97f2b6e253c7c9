use std::time::Instant;
use vstd::prelude::*;

use crate::clock::{elapsed_millis, elapsed_secs, instant_now};
use crate::net_address::NetAddress;
use crate::payloads::{Payloads, PayloadsView};
use crate::transfer::{
    actions, deliver, push_deliver, push_report, push_send_to, report, send_to, Event, EventView,
    TransferAction, TransferActionView, HEARTBEAT_INTERVAL_MANUAL_MS, MAX_PUNCH_RETRIES, is_heartbeat_due,
};

verus! {

/// A client connected to the application's server.
#[derive(Debug)]
pub struct Peer {
    pub name: String,
    pub addr: NetAddress,
    pub is_observer: bool,
}

pub struct PeerView {
    pub name: Seq<char>,
    pub addr: NetAddress,
    pub is_observer: bool,
}

impl View for Peer {
    type V = PeerView;

    open spec fn view(&self) -> PeerView {
        PeerView { name: self.name@, addr: self.addr, is_observer: self.is_observer }
    }
}

/// The peers of `s`, as views.
pub open spec fn peer_views(s: Seq<Peer>) -> Seq<PeerView> {
    s.map_values(|p: Peer| p@)
}

/// No two peers share a name.
pub open spec fn unique_names(s: Seq<PeerView>) -> bool {
    forall|i: int, j: int| 0 <= i < s.len() && 0 <= j < s.len() && i != j ==> s[i].name != s[j].name
}

/// Where the peer named `name` stands in `s`, or -1.
#[verifier::opaque]
pub open spec fn name_position(s: Seq<PeerView>, name: Seq<char>) -> int {
    if exists|i: int| 0 <= i < s.len() && s[i].name == name {
        choose|i: int| 0 <= i < s.len() && s[i].name == name
    } else {
        -1
    }
}

pub proof fn lemma_name_position(s: Seq<PeerView>, name: Seq<char>)
    ensures
        -1 <= name_position(s, name) < s.len(),
        name_position(s, name) >= 0 ==> s[name_position(s, name)].name == name,
        name_position(s, name) < 0 ==> forall|i: int| 0 <= i < s.len() ==> s[i].name != name,
        unique_names(s) ==> forall|i: int|
            0 <= i < s.len() && s[i].name == name ==> name_position(s, name) == i,
{
    reveal(name_position);
}

/// The addresses of the peers in `s` other than `except`, in order.
pub open spec fn peer_addrs_except(s: Seq<PeerView>, except: Option<NetAddress>) -> Seq<NetAddress> {
    match except {
        Some(a) => s.map_values(|p: PeerView| p.addr).filter(|x: NetAddress| x != a),
        None => s.map_values(|p: PeerView| p.addr),
    }
}

/// The peers of `s` announced, in order, to a newcomer at `addr`.
pub open spec fn joined_for(s: Seq<PeerView>, in_control: Seq<char>, addr: NetAddress) -> Seq<
    TransferActionView,
> {
    s.map_values(
        |p: PeerView|
            send_to(
                PayloadsView::PlayerJoined {
                    name: p.name,
                    in_control: in_control == p.name,
                    is_server: false,
                    is_observer: p.is_observer,
                },
                addr,
            ),
    )
}

/// `n + 1`, wrapping to 0 past the largest `u16`.
pub open spec fn wrapping_inc(n: u16) -> u16 {
    if n == u16::MAX {
        0
    } else {
        (n + 1) as u16
    }
}

/// `n - 1`, wrapping to the largest `u16` below 0.
pub open spec fn wrapping_dec(n: u16) -> u16 {
    if n == 0 {
        u16::MAX
    } else {
        (n - 1) as u16
    }
}

/// The name of the last peer in `s` at `addr`, if any.
pub open spec fn last_at(s: Seq<PeerView>, addr: NetAddress) -> Option<Seq<char>>
    decreases s.len(),
{
    if s.len() == 0 {
        None
    } else if s.last().addr == addr {
        Some(s.last().name)
    } else {
        last_at(s.drop_last(), addr)
    }
}

/// The peers of `s` not at `addr`.
pub open spec fn peers_not_at(s: Seq<PeerView>, addr: NetAddress) -> Seq<PeerView> {
    s.filter(|p: PeerView| p.addr != addr)
}

/// Dropping peers keeps names unique.
pub proof fn lemma_unique_names_filter(s: Seq<PeerView>, addr: NetAddress)
    requires
        unique_names(s),
    ensures
        unique_names(peers_not_at(s, addr)),
    decreases s.len(),
{
    reveal_with_fuel(Seq::filter, 1);
    if s.len() > 0 {
        let rest = s.drop_last();
        assert(unique_names(rest));
        lemma_unique_names_filter(rest, addr);
        let pred = |p: PeerView| p.addr != addr;
        let f = rest.filter(pred);
        if pred(s.last()) {
            let g = f.push(s.last());
            assert(peers_not_at(s, addr) == g);
            assert forall|i: int, j: int| 0 <= i < g.len() && 0 <= j < g.len() && i != j implies g[i].name
                != g[j].name by {
                if i < f.len() && j < f.len() {
                } else {
                    let k = if i < f.len() {
                        i
                    } else {
                        j
                    };
                    if k < f.len() {
                        rest.lemma_filter_contains_rev(pred, f[k]);
                        let m = choose|m: int| 0 <= m < rest.len() && rest[m] == f[k];
                        assert(s[m] == rest[m]);
                        assert(s[s.len() - 1] == s.last());
                    }
                }
            }
        } else {
            assert(peers_not_at(s, addr) == f);
        }
    }
}

/// What one round does to a hole punch: nothing unless it is due; otherwise
/// the round is counted, and the punch is given up once it has used them all.
pub open spec fn punch_step(p: PunchView, due: bool) -> Seq<PunchView> {
    if !due {
        seq![p]
    } else if p.retries + 1 == MAX_PUNCH_RETRIES {
        Seq::empty()
    } else {
        seq![PunchView { addrs: p.addrs, retries: (p.retries + 1) as u8, started: true }]
    }
}

/// The hole punches left after a round in which `due` says which were due.
pub open spec fn punch_outcome(ps: Seq<PunchView>, due: Seq<bool>) -> Seq<PunchView>
    decreases ps.len(),
{
    if ps.len() == 0 {
        Seq::empty()
    } else {
        punch_outcome(ps.drop_last(), due) + punch_step(ps.last(), due[ps.len() - 1])
    }
}

/// The handshakes to `addrs`, in order.
pub open spec fn handshakes_to(addrs: Seq<NetAddress>, session: Seq<char>) -> Seq<TransferActionView> {
    addrs.map_values(|a: NetAddress| send_to(PayloadsView::Handshake { session_id: session }, a))
}

/// The handshakes sent in a round in which `due` says which punches were due.
pub open spec fn punch_sends(ps: Seq<PunchView>, due: Seq<bool>, session: Seq<char>) -> Seq<
    TransferActionView,
>
    decreases ps.len(),
{
    if ps.len() == 0 {
        Seq::empty()
    } else {
        punch_sends(ps.drop_last(), due, session) + if due[ps.len() - 1] {
            handshakes_to(ps.last().addrs, session)
        } else {
            Seq::empty()
        }
    }
}

/// Rounds never exceed the limit among the punches a round leaves.
pub proof fn lemma_punch_outcome_bounded(ps: Seq<PunchView>, due: Seq<bool>)
    requires
        forall|i: int| 0 <= i < ps.len() ==> #[trigger] ps[i].retries < MAX_PUNCH_RETRIES,
    ensures
        forall|i: int|
            0 <= i < punch_outcome(ps, due).len() ==> #[trigger] punch_outcome(ps, due)[i].retries
                < MAX_PUNCH_RETRIES,
    decreases ps.len(),
{
    if ps.len() > 0 {
        let rest = ps.drop_last();
        assert forall|i: int| 0 <= i < rest.len() implies #[trigger] rest[i].retries < MAX_PUNCH_RETRIES by {
            assert(rest[i] == ps[i]);
        }
        lemma_punch_outcome_bounded(rest, due);
        let a = punch_outcome(rest, due);
        let b = punch_step(ps.last(), due[ps.len() - 1]);
        assert(ps.last().retries < MAX_PUNCH_RETRIES);
        assert forall|i: int| 0 <= i < (a + b).len() implies #[trigger] (a + b)[i].retries < MAX_PUNCH_RETRIES by {
            if i >= a.len() {
                assert((a + b)[i] == b[i - a.len()]);
            }
        }
    }
}

/// A pending hole punch towards a client's addresses.
#[derive(Debug)]
pub struct HolePunchSession {
    addrs: Vec<NetAddress>,
    timer: Option<Instant>,
    retries: u8,
}

/// A pending hole punch: where to, how many rounds were sent, and whether a
/// round was sent at all (which starts its timer).
pub struct PunchView {
    pub addrs: Seq<NetAddress>,
    pub retries: u8,
    pub started: bool,
}

impl View for HolePunchSession {
    type V = PunchView;

    closed spec fn view(&self) -> PunchView {
        PunchView { addrs: self.addrs@, retries: self.retries, started: self.timer is Some }
    }
}

impl HolePunchSession {
    pub fn new(addrs: Vec<NetAddress>) -> (res: Self)
        ensures
            res@ == (PunchView { addrs: addrs@, retries: 0, started: false }),
    {
        HolePunchSession { addrs, timer: None, retries: 0 }
    }
}

/// The pending hole punches in `s`, as views.
pub open spec fn punch_views(s: Seq<HolePunchSession>) -> Seq<PunchView> {
    s.map_values(|h: HolePunchSession| h@)
}

fn addrs_contain(v: &Vec<NetAddress>, a: &NetAddress) -> (res: bool)
    ensures
        res == v@.contains(*a),
{
    let mut i: usize = 0;
    while i < v.len()
        invariant
            i <= v.len(),
            forall|j: int| 0 <= j < i ==> v@[j] != *a,
        decreases v.len() - i,
    {
        if v[i] == *a {
            return true;
        }
        i = i + 1;
    }
    false
}

/// The state of the application's server: its peers, who is in control, the
/// session, and the hole punches under way.
pub struct TransferStruct {
    session_id: String,
    clients: Vec<Peer>,
    rendezvous_server: Option<NetAddress>,
    clients_to_holepunch: Vec<HolePunchSession>,
    in_control: String,
    number_connections: u16,
    username: String,
    version: String,
    heartbeat_instant: Instant,
}

impl TransferStruct {
    pub closed spec fn session(&self) -> Seq<char> {
        self.session_id@
    }

    pub closed spec fn peers(&self) -> Seq<PeerView> {
        peer_views(self.clients@)
    }

    pub closed spec fn rendezvous(&self) -> Option<NetAddress> {
        self.rendezvous_server
    }

    pub closed spec fn punches(&self) -> Seq<PunchView> {
        punch_views(self.clients_to_holepunch@)
    }

    pub closed spec fn in_control(&self) -> Seq<char> {
        self.in_control@
    }

    pub closed spec fn connections(&self) -> u16 {
        self.number_connections
    }

    pub closed spec fn username(&self) -> Seq<char> {
        self.username@
    }

    pub closed spec fn version(&self) -> Seq<char> {
        self.version@
    }

    /// No two peers share a name, and every pending hole punch has rounds left.
    pub open spec fn wf(&self) -> bool {
        &&& unique_names(self.peers())
        &&& forall|i: int| 0 <= i < self.punches().len() ==> #[trigger] self.punches()[i].retries < MAX_PUNCH_RETRIES
    }

    /// The settings no message changes.
    pub open spec fn same_settings(&self, other: &Self) -> bool {
        &&& self.rendezvous() == other.rendezvous()
        &&& self.username() == other.username()
        &&& self.version() == other.version()
    }

    /// Nothing but the settings' owner changed.
    pub open spec fn unchanged(&self, other: &Self) -> bool {
        &&& self.same_settings(other)
        &&& self.session() == other.session()
        &&& self.peers() == other.peers()
        &&& self.punches() == other.punches()
        &&& self.in_control() == other.in_control()
        &&& self.connections() == other.connections()
    }

    /// A server named `username`, in control, with no peers and no session yet.
    pub fn new(username: String, version: String, rendezvous_server: Option<NetAddress>) -> (res: Self)
        ensures
            res.wf(),
            res.session() == Seq::<char>::empty(),
            res.peers() == Seq::<PeerView>::empty(),
            res.punches() == Seq::<PunchView>::empty(),
            res.in_control() == username@,
            res.connections() == 0,
            res.username() == username@,
            res.version() == version@,
            res.rendezvous() == rendezvous_server,
    {
        let res = TransferStruct {
            session_id: String::new(),
            clients: Vec::new(),
            rendezvous_server,
            clients_to_holepunch: Vec::new(),
            in_control: username.clone(),
            number_connections: 0,
            username,
            version,
            heartbeat_instant: instant_now(),
        };
        assert(res.peers() =~= Seq::<PeerView>::empty());
        assert(res.punches() =~= Seq::<PunchView>::empty());
        res
    }

    fn peer_addrs(&self, except: Option<NetAddress>) -> (res: Vec<NetAddress>)
        ensures
            res@ == peer_addrs_except(self.peers(), except),
    {
        let mut res: Vec<NetAddress> = Vec::new();
        let mut i: usize = 0;
        while i < self.clients.len()
            invariant
                i <= self.clients.len(),
                res@ == peer_addrs_except(peer_views(self.clients@.take(i as int)), except),
            decreases self.clients.len() - i,
        {
            proof {
                let pre = peer_views(self.clients@.take(i as int));
                let post = peer_views(self.clients@.take(i + 1));
                assert(post =~= pre.push(self.clients@[i as int]@));
                let pa = pre.map_values(|p: PeerView| p.addr);
                let qa = post.map_values(|p: PeerView| p.addr);
                assert(qa =~= pa.push(self.clients@[i as int].addr));
                reveal_with_fuel(Seq::filter, 1);
                assert(qa.drop_last() =~= pa);
            }
            let a = self.clients[i].addr;
            match except {
                Some(e) => {
                    if a != e {
                        res.push(a);
                    }
                },
                None => {
                    res.push(a);
                },
            }
            i = i + 1;
        }
        assert(self.clients@.take(i as int) =~= self.clients@);
        res
    }

    fn position_of_name(&self, name: &String) -> (res: Option<usize>)
        requires
            self.wf(),
        ensures
            match res {
                Some(i) => i < self.peers().len() && name_position(self.peers(), name@) == i,
                None => name_position(self.peers(), name@) == -1,
            },
    {
        let mut i: usize = 0;
        while i < self.clients.len()
            invariant
                i <= self.clients.len(),
                self.wf(),
                forall|j: int| 0 <= j < i ==> self.clients@[j].name@ != name@,
            decreases self.clients.len() - i,
        {
            if self.clients[i].name == *name {
                proof {
                    lemma_name_position(self.peers(), name@);
                    assert(self.peers()[i as int].name == name@);
                }
                return Some(i);
            }
            i = i + 1;
        }
        proof {
            lemma_name_position(self.peers(), name@);
            if name_position(self.peers(), name@) >= 0 {
                assert(self.clients@[name_position(self.peers(), name@)].name@ == name@);
            }
        }
        None
    }

    /// Sends `payload` to every peer but `except`.
    fn send_to_all(&self, except: Option<NetAddress>, payload: Payloads, out: &mut Vec<TransferAction>)
        ensures
            actions(final(out)@) == actions(old(out)@).push(
                TransferActionView::Send { payload: payload@, to: peer_addrs_except(self.peers(), except) },
            ),
    {
        let to = self.peer_addrs(except);
        out.push(TransferAction::Send { payload, to });
        assert(actions(out@) =~= actions(old(out)@).push(
            TransferActionView::Send { payload: payload@, to: peer_addrs_except(self.peers(), except) },
        ));
    }

    /// A client asks to join under `name` with `version`: a wrong version or a
    /// name already taken is refused; a repeated request is ignored; otherwise
    /// the client learns who is there, joins, and everyone is told.
    fn on_init_handshake(
        &mut self,
        addr: NetAddress,
        name: &String,
        version: &String,
        out: &mut Vec<TransferAction>,
    )
        requires
            old(self).wf(),
        ensures
            final(self).wf(),
            init_effect(*old(self), *final(self), actions(old(out)@), actions(final(out)@), addr, name@, version@),
    {
        // Version check
        if *version != self.version {
            push_send_to(out, Payloads::InvalidVersion { server_version: self.version.clone() }, addr);
            return;
        }
        // Name already in use by another client
        let mut invalid_name = *name == self.username;
        if let Some(i) = self.position_of_name(name) {
            // Same client might've sent the packet twice
            if self.clients[i].addr == addr {
                return;
            }
            invalid_name = true;
        }
        if invalid_name {
            push_send_to(out, Payloads::InvalidName, addr);
            return;
        }
        // Send all connected clients to the new player
        let mut i: usize = 0;
        while i < self.clients.len()
            invariant
                i <= self.clients.len(),
                self.clients@ == old(self).clients@,
                self.in_control@ == old(self).in_control@,
                actions(out@) == actions(old(out)@) + joined_for(
                    peer_views(self.clients@.take(i as int)),
                    self.in_control@,
                    addr,
                ),
            decreases self.clients.len() - i,
        {
            let payload = Payloads::PlayerJoined {
                name: self.clients[i].name.clone(),
                in_control: self.in_control == self.clients[i].name,
                is_server: false,
                is_observer: self.clients[i].is_observer,
            };
            push_send_to(out, payload, addr);
            i = i + 1;
            proof {
                assert(peer_views(self.clients@.take(i as int)) =~= peer_views(
                    self.clients@.take(i - 1),
                ).push(self.clients@[i - 1]@));
                assert(actions(out@) =~= actions(old(out)@) + joined_for(
                    peer_views(self.clients@.take(i as int)),
                    self.in_control@,
                    addr,
                ));
            }
        }
        assert(self.clients@.take(i as int) =~= self.clients@);
        let ghost after_roster = actions(out@);
        // Send self
        let me = Payloads::PlayerJoined {
            name: self.username.clone(),
            in_control: self.in_control == self.username,
            is_server: true,
            is_observer: false,
        };
        push_send_to(out, me, addr);
        // Add client
        proof {
            lemma_name_position(self.peers(), name@);
        }
        self.clients.push(Peer { name: name.clone(), addr, is_observer: false });
        proof {
            assert(self.peers() =~= old(self).peers().push(PeerView { name: name@, addr, is_observer: false }));
        }
        self.number_connections = self.number_connections.wrapping_add(1);
        let joined = Payloads::PlayerJoined {
            name: name.clone(),
            in_control: false,
            is_server: false,
            is_observer: false,
        };
        self.send_to_all(Some(addr), joined.duplicate(), out);
        push_deliver(out, joined);
        proof {
            let jv = PayloadsView::PlayerJoined {
                name: name@,
                in_control: false,
                is_server: false,
                is_observer: false,
            };
            let mev = PayloadsView::PlayerJoined {
                name: old(self).username(),
                in_control: old(self).in_control() == old(self).username(),
                is_server: true,
                is_observer: false,
            };
            assert(self.punches() == old(self).punches());
            assert(actions(out@) =~= after_roster + seq![
                send_to(mev, addr),
                TransferActionView::Send { payload: jv, to: peer_addrs_except(self.peers(), Some(addr)) },
                deliver(jv),
            ]);
        }
    }

    /// A peer's handshake: with the right session id it is answered, the
    /// rendezvous server is told and only the hole punches towards the peer are
    /// kept; otherwise the peer is denied.
    fn on_handshake(&mut self, addr: NetAddress, session_id: &String, out: &mut Vec<TransferAction>)
        requires
            old(self).wf(),
        ensures
            final(self).wf(),
            handshake_effect(*old(self), *final(self), actions(old(out)@), actions(final(out)@), addr, session_id@),
    {
        if *session_id == self.session_id {
            push_send_to(out, Payloads::Handshake { session_id: session_id.clone() }, addr);
            if let Some(rendezvous) = self.rendezvous_server {
                push_send_to(out, Payloads::PeerEstablished { peer: addr }, rendezvous);
                self.keep_punches_towards(&addr);
                proof {
                    let pred = |p: PunchView| p.addrs.contains(addr);
                    assert forall|i: int| 0 <= i < self.punches().len() implies #[trigger] self.punches()[i].retries
                        < MAX_PUNCH_RETRIES by {
                        let x = self.punches()[i];
                        assert(old(self).punches().filter(pred).contains(x));
                        old(self).punches().lemma_filter_contains_rev(pred, x);
                        let k = choose|k: int| 0 <= k < old(self).punches().len() && old(self).punches()[k] == x;
                        assert(old(self).punches()[k].retries < MAX_PUNCH_RETRIES);
                    }
                }
            }
        } else {
            push_send_to(
                out,
                Payloads::ConnectionDenied { reason: String::from_str("Invalid session id!") },
                addr,
            );
        }
    }

    /// Keeps only the hole punches that include `addr`.
    fn keep_punches_towards(&mut self, addr: &NetAddress)
        ensures
            final(self).punches() == old(self).punches().filter(|p: PunchView| p.addrs.contains(*addr)),
            final(self).peers() == old(self).peers(),
            final(self).session() == old(self).session(),
            final(self).in_control() == old(self).in_control(),
            final(self).connections() == old(self).connections(),
            final(self).same_settings(&*old(self)),
    {
        let mut pending: Vec<HolePunchSession> = Vec::new();
        std::mem::swap(&mut pending, &mut self.clients_to_holepunch);
        let ghost all = punch_views(pending@);
        let ghost mut done: int = 0;
        while pending.len() > 0
            invariant
                0 <= done <= all.len(),
                punch_views(pending@) == all.subrange(done, all.len() as int),
                punch_views(self.clients_to_holepunch@) == all.take(done).filter(
                    |p: PunchView| p.addrs.contains(*addr),
                ),
                self.clients@ == old(self).clients@,
                self.session_id == old(self).session_id,
                self.in_control == old(self).in_control,
                self.number_connections == old(self).number_connections,
                self.rendezvous_server == old(self).rendezvous_server,
                self.username == old(self).username,
                self.version == old(self).version,
            decreases pending.len(),
        {
            let ghost waiting = pending@;
            let session = pending.remove(0);
            proof {
                assert(session == waiting[0]);
                assert(punch_views(waiting).len() > 0);
                assert(punch_views(waiting)[0] == waiting[0]@);
                assert(punch_views(waiting)[0] == all.subrange(done, all.len() as int)[0]);
                assert(all.subrange(done, all.len() as int)[0] == all[done]);
                assert(session@ == all[done]);
                assert(all.take(done + 1) =~= all.take(done).push(session@));
                assert(all.take(done + 1).drop_last() =~= all.take(done));
                reveal_with_fuel(Seq::filter, 1);
                assert(session@ == all[done]);
            }
            let keep = addrs_contain(&session.addrs, addr);
            let ghost sv = session@;
            let ghost kept_before = punch_views(self.clients_to_holepunch@);
            if keep {
                self.clients_to_holepunch.push(session);
                proof {
                    assert(punch_views(self.clients_to_holepunch@) =~= kept_before.push(sv));
                }
            }
            proof {
                reveal_with_fuel(Seq::filter, 1);
                assert(all.take(done + 1).drop_last() =~= all.take(done));
                assert(all.take(done + 1).last() == sv);
                assert(keep == sv.addrs.contains(*addr));
                assert(pending@ =~= waiting.subrange(1, waiting.len() as int));
                assert(punch_views(pending@) =~= punch_views(waiting).subrange(1, waiting.len() as int));
                assert(punch_views(pending@) =~= all.subrange(done + 1, all.len() as int));
                assert(punch_views(self.clients_to_holepunch@) =~= all.take(done + 1).filter(
                    |p: PunchView| p.addrs.contains(*addr),
                ));
                done = done + 1;
            }
        }
        assert(all.take(done) =~= all);
    }

    /// Handles a payload from `addr`.
    pub fn handle_message(&mut self, addr: NetAddress, payload: Payloads, out: &mut Vec<TransferAction>)
        requires
            old(self).wf(),
        ensures
            final(self).wf(),
            message_effect(*old(self), *final(self), actions(old(out)@), actions(final(out)@), addr, payload@),
    {
        let mut should_relay = true;
        match &payload {
            // No client should be able to send these
            Payloads::InvalidName
            | Payloads::AttemptHosterConnection { .. }
            | Payloads::InvalidVersion { .. }
            | Payloads::PlayerJoined { .. }
            | Payloads::PlayerLeft { .. }
            | Payloads::SetObserver { .. }
            | Payloads::RequestHosting { .. }
            | Payloads::AircraftDefinition { .. }
            | Payloads::ConnectionDenied { .. }
            | Payloads::Heartbeat
            | Payloads::SetHost
            | Payloads::RendezvousHandshake { .. }
            | Payloads::PeerEstablished { .. } => return,
            // No processing needed
            Payloads::Update { .. } => {},
            Payloads::Ready => {},
            Payloads::SetSelfObserver { .. } => {
                should_relay = false;
            },
            Payloads::InitHandshake { name, version } => {
                self.on_init_handshake(addr, name, version, out);
                // Early return to prevent relaying/sending payload
                return;
            },
            Payloads::TransferControl { to, .. } => {
                self.in_control = to.clone();
            },
            Payloads::Handshake { session_id } => {
                self.on_handshake(addr, session_id, out);
                should_relay = false;
            },
            Payloads::HostingReceived { session_id } => {
                self.session_id = session_id.clone();
                should_relay = false;
                push_report(out, Event::ConnectionEstablished);
            },
            Payloads::AttemptConnection { peers } => {
                let addrs = crate::payloads::copy_addresses(peers);
                self.clients_to_holepunch.push(HolePunchSession::new(addrs));
                proof {
                    assert(self.punches() =~= old(self).punches().push(
                        PunchView { addrs: peers@, retries: 0, started: false },
                    ));
                    assert(forall|i: int| 0 <= i < old(self).punches().len() ==> self.punches()[i] == old(self).punches()[i]);
                }
                should_relay = false;
            },
        }
        if should_relay {
            self.send_to_all(Some(addr), payload.duplicate(), out);
        }
        push_deliver(out, payload);
    }

    /// A peer at `addr` disconnected: every peer there is dropped and, if one
    /// was, the others and the application learn that the last one left.
    pub fn remove_client(&mut self, addr: NetAddress, out: &mut Vec<TransferAction>)
        requires
            old(self).wf(),
        ensures
            final(self).wf(),
            final(self).peers() == peers_not_at(old(self).peers(), addr),
            final(self).session() == old(self).session(),
            final(self).punches() == old(self).punches(),
            final(self).in_control() == old(self).in_control(),
            final(self).same_settings(&*old(self)),
            match last_at(old(self).peers(), addr) {
                None => {
                    &&& final(self).connections() == old(self).connections()
                    &&& actions(final(out)@) == actions(old(out)@)
                },
                Some(name) => {
                    let left = PayloadsView::PlayerLeft { name };
                    &&& final(self).connections() == wrapping_dec(old(self).connections())
                    &&& actions(final(out)@) == actions(old(out)@) + seq![
                        TransferActionView::Send { payload: left, to: peer_addrs_except(final(self).peers(), None) },
                        deliver(left),
                    ]
                },
            },
    {
        let mut pending: Vec<Peer> = Vec::new();
        std::mem::swap(&mut pending, &mut self.clients);
        let ghost all = peer_views(pending@);
        let ghost mut done: int = 0;
        let mut removed_name: Option<String> = None;
        while pending.len() > 0
            invariant
                0 <= done <= all.len(),
                all == old(self).peers(),
                peer_views(pending@) == all.subrange(done, all.len() as int),
                peer_views(self.clients@) == peers_not_at(all.take(done), addr),
                match removed_name {
                    Some(n) => last_at(all.take(done), addr) == Some(n@),
                    None => last_at(all.take(done), addr) is None,
                },
                self.session_id == old(self).session_id,
                self.clients_to_holepunch == old(self).clients_to_holepunch,
                self.in_control == old(self).in_control,
                self.number_connections == old(self).number_connections,
                self.rendezvous_server == old(self).rendezvous_server,
                self.username == old(self).username,
                self.version == old(self).version,
            decreases pending.len(),
        {
            let ghost waiting = pending@;
            let client = pending.remove(0);
            let ghost cv = client@;
            let ghost kept_before = peer_views(self.clients@);
            proof {
                assert(client == waiting[0]);
                assert(peer_views(waiting).len() > 0);
                assert(peer_views(waiting)[0] == waiting[0]@);
                assert(peer_views(waiting)[0] == all.subrange(done, all.len() as int)[0]);
                assert(all.subrange(done, all.len() as int)[0] == all[done]);
                assert(cv == all[done]);
            }
            if client.addr == addr {
                removed_name = Some(client.name);
            } else {
                self.clients.push(client);
                proof {
                    assert(peer_views(self.clients@) =~= kept_before.push(cv));
                }
            }
            proof {
                reveal_with_fuel(Seq::filter, 1);
                assert(all.take(done + 1).drop_last() =~= all.take(done));
                assert(all.take(done + 1).last() == cv);
                assert(pending@ =~= waiting.subrange(1, waiting.len() as int));
                assert(peer_views(pending@) =~= peer_views(waiting).subrange(1, waiting.len() as int));
                assert(peer_views(pending@) =~= all.subrange(done + 1, all.len() as int));
                assert(peer_views(self.clients@) =~= peers_not_at(all.take(done + 1), addr));
                done = done + 1;
            }
        }
        proof {
            assert(all.take(done) =~= all);
            lemma_unique_names_filter(all, addr);
            assert(self.punches() == old(self).punches());
        }
        if let Some(name) = removed_name {
            let ghost before = actions(out@);
            let left = Payloads::PlayerLeft { name };
            self.send_to_all(None, left.duplicate(), out);
            self.number_connections = self.number_connections.wrapping_sub(1);
            push_deliver(out, left);
            proof {
                assert(actions(out@) =~= before + seq![
                    TransferActionView::Send { payload: left@, to: peer_addrs_except(self.peers(), None) },
                    deliver(left@),
                ]);
            }
        }
    }

    /// A connection closed: if it was the rendezvous server before any session
    /// id came, the application learns that none can be had and the server
    /// stops; otherwise the peer there is removed.
    pub fn on_connection_closed(&mut self, addr: NetAddress, out: &mut Vec<TransferAction>)
        requires
            old(self).wf(),
        ensures
            final(self).wf(),
            if old(self).session().len() == 0 && old(self).rendezvous() == Some(addr) {
                &&& final(self).unchanged(&*old(self))
                &&& actions(final(out)@) == actions(old(out)@) + seq![
                    report(EventView::SessionIdFetchFailed),
                    TransferActionView::Stop,
                ]
            } else {
                final(self).peers() == peers_not_at(old(self).peers(), addr)
            },
    {
        let from_rendezvous = match self.rendezvous_server {
            Some(r) => r == addr,
            None => false,
        };
        if self.session_id.as_str().unicode_len() == 0 && from_rendezvous {
            let ghost before = actions(out@);
            push_report(out, Event::SessionIdFetchFailed);
            let ghost mid = out@;
            out.push(TransferAction::Stop);
            proof {
                assert(actions(out@) =~= actions(mid).push(TransferActionView::Stop));
                assert(actions(out@) =~= before + seq![
                    report(EventView::SessionIdFetchFailed),
                    TransferActionView::Stop,
                ]);
            }
        } else {
            self.remove_client(addr, out);
        }
    }

    /// A payload from the application, for the peer named `target` or, without
    /// one, for every peer; a transfer of control is recorded first.
    pub fn handle_app_message(
        &mut self,
        payload: Payloads,
        target: Option<String>,
        out: &mut Vec<TransferAction>,
    )
        requires
            old(self).wf(),
        ensures
            final(self).wf(),
            final(self).peers() == old(self).peers(),
            final(self).session() == old(self).session(),
            final(self).punches() == old(self).punches(),
            final(self).connections() == old(self).connections(),
            final(self).same_settings(&*old(self)),
            final(self).in_control() == match payload@ {
                PayloadsView::TransferControl { to, .. } => to,
                _ => old(self).in_control(),
            },
            match target {
                Some(t) => {
                    let p = name_position(old(self).peers(), t@);
                    if p >= 0 {
                        actions(final(out)@) == actions(old(out)@).push(send_to(payload@, old(self).peers()[p].addr))
                    } else {
                        actions(final(out)@) == actions(old(out)@)
                    }
                },
                None => actions(final(out)@) == actions(old(out)@).push(
                    TransferActionView::Send { payload: payload@, to: peer_addrs_except(old(self).peers(), None) },
                ),
            },
    {
        if let Payloads::TransferControl { to, .. } = &payload {
            self.in_control = to.clone();
        }
        proof {
            assert(self.peers() == old(self).peers());
            assert(self.punches() == old(self).punches());
        }
        match target {
            Some(t) => {
                if let Some(i) = self.position_of_name(&t) {
                    let a = self.clients[i].addr;
                    push_send_to(out, payload, a);
                }
            },
            None => {
                self.send_to_all(None, payload, out);
            },
        }
    }

    /// One round of hole punching: every punch that `due` marks sends a
    /// handshake to each of its addresses and counts the round; a punch that
    /// has used its rounds is given up.
    pub fn punch_round(&mut self, due: &Vec<bool>, out: &mut Vec<TransferAction>)
        requires
            old(self).wf(),
            due@.len() == old(self).punches().len(),
        ensures
            final(self).wf(),
            final(self).punches() == punch_outcome(old(self).punches(), due@),
            actions(final(out)@) == actions(old(out)@) + punch_sends(
                old(self).punches(),
                due@,
                old(self).session(),
            ),
            final(self).peers() == old(self).peers(),
            final(self).session() == old(self).session(),
            final(self).in_control() == old(self).in_control(),
            final(self).connections() == old(self).connections(),
            final(self).same_settings(&*old(self)),
    {
        let mut pending: Vec<HolePunchSession> = Vec::new();
        std::mem::swap(&mut pending, &mut self.clients_to_holepunch);
        let ghost all = punch_views(pending@);
        assert(all.len() == pending.len());
        let mut k: usize = 0;
        while pending.len() > 0
            invariant
                0 <= k <= all.len(),
                all.len() <= usize::MAX,
                all == old(self).punches(),
                due@.len() == all.len(),
                forall|i: int| 0 <= i < all.len() ==> #[trigger] all[i].retries < MAX_PUNCH_RETRIES,
                punch_views(pending@) == all.subrange(k as int, all.len() as int),
                punch_views(self.clients_to_holepunch@) == punch_outcome(all.take(k as int), due@),
                actions(out@) == actions(old(out)@) + punch_sends(all.take(k as int), due@, self.session_id@),
                self.session_id == old(self).session_id,
                self.clients == old(self).clients,
                self.in_control == old(self).in_control,
                self.number_connections == old(self).number_connections,
                self.rendezvous_server == old(self).rendezvous_server,
                self.username == old(self).username,
                self.version == old(self).version,
            decreases pending.len(),
        {
            let ghost waiting = pending@;
            let mut session = pending.remove(0);
            let ghost sv = session@;
            let ghost kept_before = punch_views(self.clients_to_holepunch@);
            let ghost sent_before = actions(out@);
            proof {
                assert(waiting.len() > 0);
                assert(punch_views(waiting).len() == waiting.len());
                assert(k < all.len());
                assert(session == waiting[0]);
                assert(punch_views(waiting)[0] == waiting[0]@);
                assert(punch_views(waiting)[0] == all.subrange(k as int, all.len() as int)[0]);
                assert(sv == all[k as int]);
            }
            if due[k] {
                let mut j: usize = 0;
                while j < session.addrs.len()
                    invariant
                        j <= session.addrs.len(),
                        session.addrs@ == sv.addrs,
                        actions(out@) == sent_before + handshakes_to(sv.addrs.take(j as int), self.session_id@),
                    decreases session.addrs.len() - j,
                {
                    push_send_to(out, Payloads::Handshake { session_id: self.session_id.clone() }, session.addrs[j]);
                    j = j + 1;
                    proof {
                        assert(sv.addrs.take(j as int) =~= sv.addrs.take(j - 1).push(sv.addrs[j - 1]));
                        assert(actions(out@) =~= sent_before + handshakes_to(sv.addrs.take(j as int), self.session_id@));
                    }
                }
                assert(sv.addrs.take(j as int) =~= sv.addrs);
                session.retries = session.retries + 1;
                session.timer = Some(instant_now());
                if session.retries != MAX_PUNCH_RETRIES {
                    self.clients_to_holepunch.push(session);
                    proof {
                        assert(punch_views(self.clients_to_holepunch@) =~= kept_before.push(
                            PunchView { addrs: sv.addrs, retries: (sv.retries + 1) as u8, started: true },
                        ));
                    }
                }
            } else {
                self.clients_to_holepunch.push(session);
                proof {
                    assert(punch_views(self.clients_to_holepunch@) =~= kept_before.push(sv));
                }
            }
            proof {
                let t = all.take(k + 1);
                assert(t.drop_last() =~= all.take(k as int));
                assert(t.last() == sv);
                assert(t.len() - 1 == k);
                assert(punch_views(self.clients_to_holepunch@) =~= punch_outcome(t, due@));
                assert(actions(out@) =~= actions(old(out)@) + punch_sends(t, due@, self.session_id@));
                assert(pending@ =~= waiting.subrange(1, waiting.len() as int));
                assert(punch_views(pending@) =~= punch_views(waiting).subrange(1, waiting.len() as int));
                assert(punch_views(pending@) =~= all.subrange(k + 1, all.len() as int));
            }
            k = k + 1;
        }
        proof {
            assert(all.take(k as int) =~= all);
            lemma_punch_outcome_bounded(all, due@);
        }
    }

    /// Sends the hole punch handshakes that are due: a punch is due before its
    /// first round and then once a second has passed since its last one, which
    /// the clock decides.
    pub fn handle_handshake(&mut self, out: &mut Vec<TransferAction>)
        requires
            old(self).wf(),
        ensures
            final(self).wf(),
            exists|due: Seq<bool>|
                {
                    &&& due.len() == old(self).punches().len()
                    &&& forall|i: int| 0 <= i < due.len() && !old(self).punches()[i].started ==> #[trigger] due[i]
                    &&& final(self).punches() == punch_outcome(old(self).punches(), due)
                    &&& actions(final(out)@) == actions(old(out)@) + punch_sends(
                        old(self).punches(),
                        due,
                        old(self).session(),
                    )
                },
            final(self).peers() == old(self).peers(),
            final(self).session() == old(self).session(),
            final(self).in_control() == old(self).in_control(),
            final(self).connections() == old(self).connections(),
            final(self).same_settings(&*old(self)),
    {
        let mut due: Vec<bool> = Vec::new();
        let mut i: usize = 0;
        while i < self.clients_to_holepunch.len()
            invariant
                i <= self.clients_to_holepunch.len(),
                due@.len() == i,
                forall|j: int| 0 <= j < i && !self.punches()[j].started ==> #[trigger] due@[j],
            decreases self.clients_to_holepunch.len() - i,
        {
            // Send a message every second
            let is_due = match &self.clients_to_holepunch[i].timer {
                Some(timer) => elapsed_secs(timer) >= 1,
                None => true,
            };
            due.push(is_due);
            i = i + 1;
        }
        self.punch_round(&due, out);
    }

    /// Sends a heartbeat to every peer when `elapsed_ms` milliseconds passed
    /// since the last one; a heartbeat sent restarts the count.
    pub fn heartbeat_round(&mut self, elapsed_ms: u128, out: &mut Vec<TransferAction>)
        ensures
            final(self).unchanged(&*old(self)),
            actions(final(out)@) == if elapsed_ms >= HEARTBEAT_INTERVAL_MANUAL_MS {
                actions(old(out)@).push(
                    TransferActionView::Send {
                        payload: PayloadsView::Heartbeat,
                        to: peer_addrs_except(old(self).peers(), None),
                    },
                )
            } else {
                actions(old(out)@)
            },
    {
        if !is_heartbeat_due(elapsed_ms) {
            return;
        }
        self.heartbeat_instant = instant_now();
        self.send_to_all(None, Payloads::Heartbeat, out);
    }

    /// Sends a heartbeat to every peer when the clock says one is due: see
    /// `heartbeat_round`.
    pub fn handle_heartbeat(&mut self, out: &mut Vec<TransferAction>)
        ensures
            final(self).unchanged(&*old(self)),
            actions(final(out)@) == actions(old(out)@) || actions(final(out)@) == actions(
                old(out)@,
            ).push(
                TransferActionView::Send {
                    payload: PayloadsView::Heartbeat,
                    to: peer_addrs_except(old(self).peers(), None),
                },
            ),
    {
        let elapsed = elapsed_millis(&self.heartbeat_instant);
        self.heartbeat_round(elapsed, out);
    }

    /// The application hands control to `target`.
    pub fn set_in_control(&mut self, target: String)
        requires
            old(self).wf(),
        ensures
            final(self).wf(),
            final(self).in_control() == target@,
            final(self).peers() == old(self).peers(),
            final(self).session() == old(self).session(),
            final(self).punches() == old(self).punches(),
            final(self).connections() == old(self).connections(),
            final(self).same_settings(&*old(self)),
    {
        self.in_control = target;
        assert(self.peers() == old(self).peers());
        assert(self.punches() == old(self).punches());
    }

    /// The application marks the peer named `target` as observing or not; no
    /// such peer, no change.
    pub fn set_observer(&mut self, target: &String, is_observer: bool)
        requires
            old(self).wf(),
        ensures
            final(self).wf(),
            final(self).peers() == {
                let p = name_position(old(self).peers(), target@);
                if p >= 0 {
                    old(self).peers().update(
                        p,
                        PeerView { is_observer, ..old(self).peers()[p] },
                    )
                } else {
                    old(self).peers()
                }
            },
            final(self).in_control() == old(self).in_control(),
            final(self).session() == old(self).session(),
            final(self).punches() == old(self).punches(),
            final(self).connections() == old(self).connections(),
            final(self).same_settings(&*old(self)),
    {
        proof {
            lemma_name_position(old(self).peers(), target@);
        }
        if let Some(i) = self.position_of_name(target) {
            let ghost before = self.clients@;
            let mut peers: Vec<Peer> = Vec::new();
            std::mem::swap(&mut peers, &mut self.clients);
            let mut p = peers.remove(i);
            p.is_observer = is_observer;
            peers.insert(i, p);
            self.clients = peers;
            proof {
                assert(self.clients@ =~= before.update(i as int, self.clients@[i as int]));
                assert(self.peers() =~= old(self).peers().update(
                    i as int,
                    PeerView { is_observer, ..old(self).peers()[i as int] },
                ));
                assert forall|a: int, b: int|
                    0 <= a < self.peers().len() && 0 <= b < self.peers().len() && a != b implies
                    self.peers()[a].name != self.peers()[b].name by {
                    assert(old(self).peers()[a].name == self.peers()[a].name);
                    assert(old(self).peers()[b].name == self.peers()[b].name);
                }
                assert(self.punches() == old(self).punches());
            }
        }
    }

    pub fn get_session_id(&self) -> (res: String)
        ensures
            res@ == self.session(),
    {
        self.session_id.clone()
    }

    /// What the server does first: with a rendezvous server, ask it for a
    /// session id; without one, tell the application it is ready at once.
    pub fn opening(&self, local_endpoint: Option<NetAddress>, out: &mut Vec<TransferAction>)
        ensures
            actions(final(out)@) == match self.rendezvous() {
                Some(r) => actions(old(out)@).push(
                    send_to(PayloadsView::RequestHosting { self_hosted: true, local_endpoint }, r),
                ),
                None => actions(old(out)@).push(report(EventView::ConnectionEstablished)),
            },
    {
        match self.rendezvous_server {
            Some(r) => {
                push_send_to(out, Payloads::RequestHosting { self_hosted: true, local_endpoint }, r);
            },
            None => {
                push_report(out, Event::ConnectionEstablished);
            },
        }
    }
}

/// A join request: see `TransferStruct::on_init_handshake`.
pub open spec fn init_effect(
    pre: TransferStruct,
    post: TransferStruct,
    before: Seq<TransferActionView>,
    after: Seq<TransferActionView>,
    addr: NetAddress,
    name: Seq<char>,
    version: Seq<char>,
) -> bool {
    let p = name_position(pre.peers(), name);
    if version != pre.version() {
        post.unchanged(&pre) && after == before.push(
            send_to(PayloadsView::InvalidVersion { server_version: pre.version() }, addr),
        )
    } else if p >= 0 && pre.peers()[p].addr == addr {
        post.unchanged(&pre) && after == before
    } else if name == pre.username() || p >= 0 {
        post.unchanged(&pre) && after == before.push(send_to(PayloadsView::InvalidName, addr))
    } else {
        let joined = PayloadsView::PlayerJoined {
            name,
            in_control: false,
            is_server: false,
            is_observer: false,
        };
        let peers = pre.peers().push(PeerView { name, addr, is_observer: false });
        &&& post.peers() == peers
        &&& post.connections() == wrapping_inc(pre.connections())
        &&& post.session() == pre.session()
        &&& post.punches() == pre.punches()
        &&& post.in_control() == pre.in_control()
        &&& post.same_settings(&pre)
        &&& after == before + joined_for(pre.peers(), pre.in_control(), addr) + seq![
            send_to(
                PayloadsView::PlayerJoined {
                    name: pre.username(),
                    in_control: pre.in_control() == pre.username(),
                    is_server: true,
                    is_observer: false,
                },
                addr,
            ),
            TransferActionView::Send { payload: joined, to: peer_addrs_except(peers, Some(addr)) },
            deliver(joined),
        ]
    }
}

/// A peer's handshake: see `TransferStruct::on_handshake`.
pub open spec fn handshake_effect(
    pre: TransferStruct,
    post: TransferStruct,
    before: Seq<TransferActionView>,
    after: Seq<TransferActionView>,
    addr: NetAddress,
    session_id: Seq<char>,
) -> bool {
    &&& post.peers() == pre.peers()
    &&& post.session() == pre.session()
    &&& post.in_control() == pre.in_control()
    &&& post.connections() == pre.connections()
    &&& post.same_settings(&pre)
    &&& if session_id == pre.session() {
        let answer = before.push(send_to(PayloadsView::Handshake { session_id }, addr));
        match pre.rendezvous() {
            Some(r) => {
                &&& after == answer.push(send_to(PayloadsView::PeerEstablished { peer: addr }, r))
                &&& post.punches() == pre.punches().filter(|p: PunchView| p.addrs.contains(addr))
            },
            None => after == answer && post.punches() == pre.punches(),
        }
    } else {
        &&& post.punches() == pre.punches()
        &&& after == before.push(
            send_to(PayloadsView::ConnectionDenied { reason: "Invalid session id!"@ }, addr),
        )
    }
}

/// What a payload from `addr` does to the application's server: join requests
/// and handshakes are answered, transfers of control are recorded, the session
/// id and hole punch requests are kept, updates, readiness and transfers are
/// relayed to the other peers, payloads no client may send are dropped, and
/// everything kept is handed to the application.
pub open spec fn message_effect(
    pre: TransferStruct,
    post: TransferStruct,
    before: Seq<TransferActionView>,
    after: Seq<TransferActionView>,
    addr: NetAddress,
    payload: PayloadsView,
) -> bool {
    let relay = TransferActionView::Send {
        payload,
        to: peer_addrs_except(pre.peers(), Some(addr)),
    };
    match payload {
        PayloadsView::InitHandshake { name, version } => init_effect(
            pre,
            post,
            before,
            after,
            addr,
            name,
            version,
        ),
        PayloadsView::Update { .. } | PayloadsView::Ready => post.unchanged(&pre) && after
            == before.push(relay).push(deliver(payload)),
        PayloadsView::SetSelfObserver { .. } => post.unchanged(&pre) && after == before.push(
            deliver(payload),
        ),
        PayloadsView::TransferControl { to, .. } => {
            &&& post.in_control() == to
            &&& post.peers() == pre.peers()
            &&& post.session() == pre.session()
            &&& post.punches() == pre.punches()
            &&& post.connections() == pre.connections()
            &&& post.same_settings(&pre)
            &&& after == before.push(relay).push(deliver(payload))
        },
        PayloadsView::Handshake { session_id } => exists|mid: Seq<TransferActionView>|
            handshake_effect(pre, post, before, mid, addr, session_id) && after == mid.push(
                deliver(payload),
            ),
        PayloadsView::HostingReceived { session_id } => {
            &&& post.session() == session_id
            &&& post.peers() == pre.peers()
            &&& post.punches() == pre.punches()
            &&& post.in_control() == pre.in_control()
            &&& post.connections() == pre.connections()
            &&& post.same_settings(&pre)
            &&& after == before.push(report(EventView::ConnectionEstablished)).push(deliver(payload))
        },
        PayloadsView::AttemptConnection { peers } => {
            &&& post.punches() == pre.punches().push(PunchView { addrs: peers, retries: 0, started: false })
            &&& post.session() == pre.session()
            &&& post.peers() == pre.peers()
            &&& post.in_control() == pre.in_control()
            &&& post.connections() == pre.connections()
            &&& post.same_settings(&pre)
            &&& after == before.push(deliver(payload))
        },
        _ => post.unchanged(&pre) && after == before,
    }
}

} // verus!