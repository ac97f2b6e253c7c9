use semver::Version;
use std::time::Instant;
use vstd::prelude::*;

use crate::assoc::{
    insert_pair, key_position, lemma_key_position, lookup, remove_key,
    unique_keys, AssocList, IpKey,
};
use crate::clock::{elapsed_millis, instant_now};
use crate::net_address::NetAddress;
use crate::payloads::{Payloads, PayloadsView};
use crate::random_ids::{get_random_id, is_random_id, SESSION_ID_LENGTH};
use crate::transfer::{actions, push_send_to, send_to, TransferAction, TransferActionView};

verus! {

/// Whether `semver::Version::from_str` accepts `text`.
pub uninterp spec fn semver_parses(text: Seq<char>) -> bool;

/// For two texts that `semver` reads as versions, whether the first orders
/// before the second by `semver::Version`'s `<`.
pub uninterp spec fn semver_precedes(a: Seq<char>, b: Seq<char>) -> bool;

/// For a text that `semver` reads as a version, that version as
/// `semver::Version`'s `Display` writes it.
pub uninterp spec fn semver_display(text: Seq<char>) -> Seq<char>;

/// Compares two versions given as text with `semver::Version`'s `<`, after
/// reading each with `semver::Version::from_str`; none when either does not
/// read. The answer is the one `semver_precedes` names.
#[verifier::external_body]
fn version_precedes(a: &str, b: &str) -> (res: Option<bool>)
    ensures
        match res {
            Some(r) => semver_parses(a@) && semver_parses(b@) && r == semver_precedes(a@, b@),
            None => !(semver_parses(a@) && semver_parses(b@)),
        },
{
    match (a.parse::<Version>(), b.parse::<Version>()) {
        (Ok(a), Ok(b)) => Some(a < b),
        _ => None,
    }
}

/// Writes the version given as text with `semver::Version`'s `Display`, after
/// reading it with `semver::Version::from_str`; none when it does not read.
/// The text is the one `semver_display` names.
#[verifier::external_body]
fn version_display(text: &str) -> (res: Option<String>)
    ensures
        match res {
            Some(t) => semver_parses(text@) && t@ == semver_display(text@),
            None => !semver_parses(text@),
        },
{
    match text.parse::<Version>() {
        Ok(v) => Some(v.to_string()),
        Err(_) => None,
    }
}

/// The lowest version a hosted session admits: a text that `semver` reads as
/// a version, kept with that version's written form.
pub struct MinimumVersion {
    text: String,
    display: String,
}

impl MinimumVersion {
    /// The version, as the text it was read from.
    pub closed spec fn text(&self) -> Seq<char> {
        self.text@
    }

    #[verifier::type_invariant]
    spec fn reads(&self) -> bool {
        &&& semver_parses(self.text@)
        &&& self.display@ == semver_display(self.text@)
    }

    /// The minimum version `text`, if `semver` reads it as a version.
    pub fn parse(text: &str) -> (res: Option<MinimumVersion>)
        ensures
            match res {
                Some(m) => semver_parses(text@) && m.text() == text@,
                None => !semver_parses(text@),
            },
    {
        match version_display(text) {
            Some(display) => Some(MinimumVersion { text: String::from_str(text), display }),
            None => None,
        }
    }

    /// The version as `semver` writes it.
    pub fn display_text(&self) -> (res: String)
        ensures
            res@ == semver_display(self.text()),
    {
        proof {
            use_type_invariant(self);
        }
        self.display.clone()
    }
}

/// Whether `payload` is a join request whose version `semver` reads and
/// orders below `minimum`.
pub open spec fn below_minimum(payload: PayloadsView, minimum: Seq<char>) -> bool {
    match payload {
        PayloadsView::InitHandshake { version, .. } => semver_parses(version) && semver_precedes(version, minimum),
        _ => false,
    }
}

/// The name under which the hosting server itself is in control.
pub open spec fn server_name() -> Seq<char> {
    "SERVER"@
}

/// A client of a hosted session.
#[derive(Clone, Copy, Debug, PartialEq, Eq, Structural)]
pub struct Client {
    pub addr: NetAddress,
    pub is_observer: bool,
    pub is_host: bool,
}

impl Client {
    pub fn new(addr: NetAddress) -> (res: Self)
        ensures
            res == (Client { addr, is_observer: false, is_host: false }),
    {
        Client { addr, is_observer: false, is_host: false }
    }
}

/// The addresses of the clients in `r` other than `except`, in order.
pub open spec fn roster_addrs(r: Seq<(Seq<char>, Client)>, except: Option<NetAddress>) -> Seq<NetAddress> {
    match except {
        Some(a) => r.map_values(|e: (Seq<char>, Client)| e.1.addr).filter(|x: NetAddress| x != a),
        None => r.map_values(|e: (Seq<char>, Client)| e.1.addr),
    }
}

/// The clients of `r` announced, in order, to a newcomer at `addr`.
pub open spec fn roster_joined(r: Seq<(Seq<char>, Client)>, in_control: Seq<char>, addr: NetAddress) -> Seq<
    TransferActionView,
> {
    r.map_values(
        |e: (Seq<char>, Client)|
            send_to(
                PayloadsView::PlayerJoined {
                    name: e.0,
                    in_control: in_control == e.0,
                    is_server: e.1.is_host,
                    is_observer: e.1.is_observer,
                },
                addr,
            ),
    )
}

/// `r` with the client at `p` made the host and a participant.
pub open spec fn made_host(r: Seq<(Seq<char>, Client)>, p: int) -> Seq<(Seq<char>, Client)> {
    r.update(p, (r[p].0, Client { addr: r[p].1.addr, is_observer: false, is_host: true }))
}

/// `r` with the observing flag of the client at `p` set to `is_observer`.
pub open spec fn with_observer(r: Seq<(Seq<char>, Client)>, p: int, is_observer: bool) -> Seq<
    (Seq<char>, Client),
> {
    r.update(p, (r[p].0, Client { is_observer, ..r[p].1 }))
}

/// Sending `payload` to every client of `r` but `except`.
pub open spec fn to_all(
    r: Seq<(Seq<char>, Client)>,
    except: Option<NetAddress>,
    payload: PayloadsView,
) -> TransferActionView {
    TransferActionView::Send { payload, to: roster_addrs(r, except) }
}

/// One hosted session: its clients by name, the aircraft definition, and who
/// is in control.
pub struct ServerState {
    clients: AssocList<String, Client>,
    aircraft_definition: Option<Vec<u8>>,
    in_control: String,
    heartbeat_instant: Instant,
    started_at: Instant,
}

impl ServerState {
    /// The clients, by name, in the order they joined.
    pub closed spec fn roster(&self) -> Seq<(Seq<char>, Client)> {
        self.clients.pairs()
    }

    pub closed spec fn definition(&self) -> Option<Seq<u8>> {
        match self.aircraft_definition {
            Some(b) => Some(b@),
            None => None,
        }
    }

    pub closed spec fn in_control(&self) -> Seq<char> {
        self.in_control@
    }

    pub open spec fn wf(&self) -> bool {
        unique_keys(self.roster())
    }

    /// The same clients, definition and controller.
    pub open spec fn same_as(&self, other: &Self) -> bool {
        &&& self.roster() == other.roster()
        &&& self.definition() == other.definition()
        &&& self.in_control() == other.in_control()
    }

    /// A session with no clients, controlled by the server itself.
    pub fn new() -> (res: Self)
        ensures
            res.wf(),
            res.roster() == Seq::<(Seq<char>, Client)>::empty(),
            res.definition() is None,
            res.in_control() == server_name(),
    {
        ServerState {
            clients: AssocList::new(),
            in_control: String::from_str("SERVER"),
            aircraft_definition: None,
            heartbeat_instant: instant_now(),
            started_at: instant_now(),
        }
    }

    pub fn has_clients(&self) -> (res: bool)
        ensures
            res == (self.roster().len() > 0),
    {
        !self.clients.is_empty()
    }

    fn addrs_except(&self, except: Option<NetAddress>) -> (res: Vec<NetAddress>)
        ensures
            res@ == roster_addrs(self.roster(), except),
    {
        let ghost r = self.roster();
        let mut res: Vec<NetAddress> = Vec::new();
        let mut i: usize = 0;
        while i < self.clients.len()
            invariant
                i <= self.roster().len(),
                r == self.roster(),
                res@ == roster_addrs(r.take(i as int), except),
            decreases self.roster().len() - i,
        {
            proof {
                let pa = r.take(i as int).map_values(|e: (Seq<char>, Client)| e.1.addr);
                let qa = r.take(i + 1).map_values(|e: (Seq<char>, Client)| e.1.addr);
                assert(qa =~= pa.push(r[i as int].1.addr));
                reveal_with_fuel(Seq::filter, 1);
                assert(qa.drop_last() =~= pa);
            }
            let a = self.clients.value_at(i).addr;
            match except {
                Some(e) => {
                    if a != e {
                        res.push(a);
                    }
                },
                None => {
                    res.push(a);
                },
            }
            i = i + 1;
        }
        assert(r.take(i as int) =~= r);
        res
    }

    /// Sends `payload` to every client but `except`.
    pub fn send_to_all(&self, payload: Payloads, except: Option<NetAddress>, out: &mut Vec<TransferAction>)
        ensures
            actions(final(out)@) == actions(old(out)@).push(to_all(self.roster(), except, payload@)),
    {
        let to = self.addrs_except(except);
        out.push(TransferAction::Send { payload, to });
        assert(actions(out@) =~= actions(old(out)@).push(to_all(self.roster(), except, payload@)));
    }

    /// Makes the client at `i` the host: it is told so, everyone learns that
    /// control passes to it, and it takes control.
    pub fn set_host_at(&mut self, i: usize, out: &mut Vec<TransferAction>)
        requires
            old(self).wf(),
            i < old(self).roster().len(),
        ensures
            final(self).wf(),
            final(self).roster() == made_host(old(self).roster(), i as int),
            final(self).in_control() == old(self).roster()[i as int].0,
            final(self).definition() == old(self).definition(),
            actions(final(out)@) == actions(old(out)@) + seq![
                send_to(PayloadsView::SetHost, old(self).roster()[i as int].1.addr),
                to_all(
                    made_host(old(self).roster(), i as int),
                    None,
                    PayloadsView::TransferControl {
                        from: old(self).in_control(),
                        to: old(self).roster()[i as int].0,
                    },
                ),
            ],
    {
        let ghost before = actions(out@);
        let c = *self.clients.value_at(i);
        let name = self.clients.key_at(i).clone();
        self.clients.replace_at(i, Client { addr: c.addr, is_observer: false, is_host: true });
        push_send_to(out, Payloads::SetHost, c.addr);
        let from = self.in_control.clone();
        self.send_to_all(Payloads::TransferControl { from, to: name.clone() }, None, out);
        self.in_control = name;
        assert(actions(out@) =~= before + seq![
            send_to(PayloadsView::SetHost, old(self).roster()[i as int].1.addr),
            to_all(
                made_host(old(self).roster(), i as int),
                None,
                PayloadsView::TransferControl {
                    from: old(self).in_control(),
                    to: old(self).roster()[i as int].0,
                },
            ),
        ]);
    }

    /// Handles a payload from the client at `addr`; `too_old` says whether a
    /// join request's version is below `minimum`.
    pub fn process_payload_checked(
        &mut self,
        addr: NetAddress,
        payload: Payloads,
        too_old: bool,
        minimum: &String,
        out: &mut Vec<TransferAction>,
    )
        requires
            old(self).wf(),
        ensures
            final(self).wf(),
            hosted_effect(
                *old(self),
                *final(self),
                actions(old(out)@),
                actions(final(out)@),
                addr,
                payload@,
                too_old,
                minimum@,
            ),
    {
        let ghost before = actions(out@);
        match &payload {
            Payloads::AircraftDefinition { bytes } => {
                self.aircraft_definition = Some(crate::payloads::copy_bytes(bytes));
                return;
            },
            Payloads::Update { .. } => {},
            Payloads::InitHandshake { name, .. } => {
                self.on_init_handshake(addr, name, too_old, minimum, out);
                return;
            },
            Payloads::TransferControl { to, .. } => {
                self.in_control = to.clone();
            },
            Payloads::SetObserver { to, is_observer, .. } => {
                proof {
                    lemma_key_position(self.roster(), to@);
                }
                if let Some(i) = self.clients.position(to) {
                    let c = *self.clients.value_at(i);
                    self.clients.replace_at(i, Client { is_observer: *is_observer, ..c });
                }
            },
            Payloads::SetSelfObserver { name } => {
                proof {
                    lemma_key_position(self.roster(), name@);
                }
                if let Some(i) = self.clients.position(name) {
                    let c = *self.clients.value_at(i);
                    self.clients.replace_at(i, Client { is_observer: true, ..c });
                    self.send_to_all(
                        Payloads::SetObserver {
                            from: String::from_str("SERVER"),
                            to: name.clone(),
                            is_observer: true,
                        },
                        None,
                        out,
                    );
                }
                return;
            },
            Payloads::Ready => {
                // Tell the one in control to do a full sync
                proof {
                    lemma_key_position(self.roster(), self.in_control@);
                }
                if let Some(i) = self.clients.position(&self.in_control) {
                    let a = self.clients.value_at(i).addr;
                    push_send_to(out, payload, a);
                }
                return;
            },
            Payloads::Handshake { .. } => {
                push_send_to(out, payload, addr);
                return;
            },
            _ => {
                return;
            },
        }
        proof {
            let pa = self.roster().map_values(|e: (Seq<char>, Client)| e.1.addr);
            let qa = old(self).roster().map_values(|e: (Seq<char>, Client)| e.1.addr);
            assert(pa =~= qa);
            assert(roster_addrs(self.roster(), Some(addr)) == roster_addrs(old(self).roster(), Some(addr)));
        }
        self.send_to_all(payload, Some(addr), out);
    }

    /// Handles a payload from the client at `addr`; a join request is refused
    /// when `semver` orders its version below `minimum`, and the refusal names
    /// the minimum as `semver` writes it.
    pub fn process_payload(
        &mut self,
        addr: NetAddress,
        payload: Payloads,
        minimum: &MinimumVersion,
        out: &mut Vec<TransferAction>,
    )
        requires
            old(self).wf(),
        ensures
            final(self).wf(),
            hosted_effect(
                *old(self),
                *final(self),
                actions(old(out)@),
                actions(final(out)@),
                addr,
                payload@,
                below_minimum(payload@, minimum.text()),
                semver_display(minimum.text()),
            ),
    {
        let too_old = join_too_old(&payload, minimum);
        let text = minimum.display_text();
        self.process_payload_checked(addr, payload, too_old, &text, out);
    }

    /// Drops the clients at `addr`; the name of the last one dropped, or an
    /// empty name, is returned.
    fn remove_clients_at(&mut self, addr: NetAddress) -> (res: String)
        requires
            old(self).wf(),
        ensures
            final(self).wf(),
            final(self).roster() == clients_not_at(old(self).roster(), addr),
            res@ == match last_name_at(old(self).roster(), addr) {
                Some(n) => n,
                None => Seq::<char>::empty(),
            },
            final(self).in_control() == old(self).in_control(),
            final(self).definition() == old(self).definition(),
    {
        let ghost all = self.roster();
        let mut removed_name = String::new();
        let mut i: usize = 0;
        let ghost mut j: int = 0;
        while i < self.clients.len()
            invariant
                0 <= j <= all.len(),
                i == clients_not_at(all.take(j), addr).len(),
                self.roster() == clients_not_at(all.take(j), addr) + all.subrange(j, all.len() as int),
                self.wf(),
                removed_name@ == match last_name_at(all.take(j), addr) {
                    Some(n) => n,
                    None => Seq::<char>::empty(),
                },
                self.in_control@ == old(self).in_control@,
                self.aircraft_definition == old(self).aircraft_definition,
            decreases self.roster().len() - i,
        {
            let ghost r = self.roster();
            let ghost kept = clients_not_at(all.take(j), addr);
            assert(r[i as int] == all[j]);
            proof {
                reveal_with_fuel(Seq::filter, 1);
                assert(all.take(j + 1).drop_last() =~= all.take(j));
                assert(all.take(j + 1).last() == all[j]);
            }
            if self.clients.value_at(i).addr == addr {
                let (name, _) = self.clients.remove_at(i);
                removed_name = name;
                proof {
                    assert(self.roster() =~= clients_not_at(all.take(j + 1), addr) + all.subrange(
                        j + 1,
                        all.len() as int,
                    ));
                }
            } else {
                i = i + 1;
                proof {
                    assert(self.roster() =~= clients_not_at(all.take(j + 1), addr) + all.subrange(
                        j + 1,
                        all.len() as int,
                    ));
                }
            }
            proof {
                j = j + 1;
            }
        }
        proof {
            if j < all.len() {
                assert(self.roster().len() > i);
            }
            assert(all.take(j) =~= all);
            assert(self.roster() =~= clients_not_at(all, addr));
        }
        removed_name
    }

    /// The client at `addr` left: it is dropped; if others remain and it was
    /// in control, the first of them becomes the host; if none remain, the
    /// server takes control back; everyone left learns who left. Whether the
    /// session is now empty is returned.
    pub fn on_client_left(&mut self, addr: NetAddress, out: &mut Vec<TransferAction>) -> (should_close: bool)
        requires
            old(self).wf(),
        ensures
            final(self).wf(),
            left_effect(*old(self), *final(self), actions(old(out)@), actions(final(out)@), addr),
            should_close == (final(self).roster().len() == 0),
    {
        let ghost before = actions(out@);
        let removed_name = self.remove_clients_at(addr);
        let mut should_close = false;
        if self.has_clients() {
            if removed_name == self.in_control {
                self.set_host_at(0, out);
            }
        } else {
            should_close = true;
            self.in_control = String::from_str("SERVER");
        }
        self.send_to_all(Payloads::PlayerLeft { name: removed_name }, None, out);
        proof {
            let r1 = clients_not_at(old(self).roster(), addr);
            if r1.len() > 0 && removed_name@ == old(self).in_control() {
                assert(actions(out@) =~= before + seq![
                    send_to(PayloadsView::SetHost, r1[0].1.addr),
                    to_all(
                        made_host(r1, 0),
                        None,
                        PayloadsView::TransferControl { from: old(self).in_control(), to: r1[0].0 },
                    ),
                    to_all(made_host(r1, 0), None, PayloadsView::PlayerLeft { name: removed_name@ }),
                ]);
            }
        }
        should_close
    }

    /// Whether a heartbeat is due, by the clock.
    fn heartbeat_due(&self) -> bool {
        crate::transfer::is_heartbeat_due(elapsed_millis(&self.heartbeat_instant))
    }

    /// Whether more than `INACTIVE_SESSION_TIMEOUT_SECS` passed since the
    /// session started, by the clock.
    fn inactive_long(&self) -> bool {
        crate::clock::elapsed_secs(&self.started_at) > INACTIVE_SESSION_TIMEOUT_SECS
    }

    fn on_init_handshake(
        &mut self,
        addr: NetAddress,
        name: &String,
        too_old: bool,
        minimum: &String,
        out: &mut Vec<TransferAction>,
    )
        requires
            old(self).wf(),
        ensures
            final(self).wf(),
            join_effect(
                *old(self),
                *final(self),
                actions(old(out)@),
                actions(final(out)@),
                addr,
                name@,
                too_old,
                minimum@,
            ),
    {
        if too_old {
            let mut reason = String::from_str("Minimum version required is ");
            reason.append(minimum.as_str());
            push_send_to(out, Payloads::ConnectionDenied { reason }, addr);
            return;
        }
        if self.clients.contains_key(name) {
            push_send_to(out, Payloads::InvalidName, addr);
            return;
        }
        let ghost before = actions(out@);
        let ghost r0 = self.roster();
        // Send all current connected clients
        let mut i: usize = 0;
        while i < self.clients.len()
            invariant
                i <= self.roster().len(),
                self.roster() == r0,
                self.in_control@ == old(self).in_control@,
                actions(out@) == before + roster_joined(r0.take(i as int), self.in_control@, addr),
            decreases self.roster().len() - i,
        {
            let c = *self.clients.value_at(i);
            let n = self.clients.key_at(i).clone();
            let in_control = self.in_control == n;
            push_send_to(
                out,
                Payloads::PlayerJoined {
                    name: n,
                    in_control,
                    is_server: c.is_host,
                    is_observer: c.is_observer,
                },
                addr,
            );
            i = i + 1;
            proof {
                assert(r0.take(i as int) =~= r0.take(i - 1).push(r0[i - 1]));
                assert(actions(out@) =~= before + roster_joined(r0.take(i as int), self.in_control@, addr));
            }
        }
        assert(r0.take(i as int) =~= r0);
        let ghost after_roster = actions(out@);
        // Add client
        proof {
            lemma_key_position(r0, name@);
        }
        self.clients.insert(name.clone(), Client::new(addr));
        let ghost r1 = self.roster();
        assert(r1 == r0.push((name@, Client { addr, is_observer: false, is_host: false })));
        // The first client to connect gets control and "hosts"
        let takes_control = self.in_control == String::from_str("SERVER");
        let ghost pre_in_control = self.in_control@;
        if takes_control {
            let last = self.clients.len() - 1;
            self.set_host_at(last, out);
        }
        let ghost r2 = self.roster();
        let ghost hosting = if takes_control {
            seq![
                send_to(PayloadsView::SetHost, addr),
                to_all(r2, None, PayloadsView::TransferControl { from: pre_in_control, to: name@ }),
            ]
        } else {
            Seq::empty()
        };
        assert(actions(out@) =~= after_roster + hosting);
        let ghost after_host = actions(out@);
        let joined = Payloads::PlayerJoined {
            name: name.clone(),
            in_control: false,
            is_server: false,
            is_observer: false,
        };
        let ghost jv = joined@;
        self.send_to_all(joined, Some(addr), out);
        let ghost after_join = actions(out@);
        assert(after_join == after_host.push(to_all(r2, Some(addr), jv)));
        // Send definitions to the new client
        if let Some(bytes) = &self.aircraft_definition {
            push_send_to(out, Payloads::AircraftDefinition { bytes: crate::payloads::copy_bytes(bytes) }, addr);
        }
        let ghost definition = match old(self).definition() {
            Some(b) => seq![send_to(PayloadsView::AircraftDefinition { bytes: b }, addr)],
            None => Seq::empty(),
        };
        assert(actions(out@) =~= after_join + definition);
        assert(actions(out@) =~= before + roster_joined(r0, old(self).in_control(), addr) + hosting
            + seq![to_all(r2, Some(addr), jv)] + definition);
    }
}

/// A join request from `addr` under `name`: one whose version is below
/// `minimum` is denied; a taken name is refused; otherwise the newcomer learns
/// who is there and joins, takes control if the server held it, everyone else
/// learns of it, and it receives the aircraft definition if there is one.
pub open spec fn join_effect(
    pre: ServerState,
    post: ServerState,
    before: Seq<TransferActionView>,
    after: Seq<TransferActionView>,
    addr: NetAddress,
    name: Seq<char>,
    too_old: bool,
    minimum: Seq<char>,
) -> bool {
    if too_old {
        &&& post.same_as(&pre)
        &&& after == before.push(
            send_to(
                PayloadsView::ConnectionDenied { reason: "Minimum version required is "@ + minimum },
                addr,
            ),
        )
    } else if lookup(pre.roster(), name) is Some {
        post.same_as(&pre) && after == before.push(send_to(PayloadsView::InvalidName, addr))
    } else {
        let r1 = pre.roster().push((name, Client { addr, is_observer: false, is_host: false }));
        let takes_control = pre.in_control() == server_name();
        let r2 = if takes_control {
            made_host(r1, pre.roster().len() as int)
        } else {
            r1
        };
        let hosting = if takes_control {
            seq![
                send_to(PayloadsView::SetHost, addr),
                to_all(r2, None, PayloadsView::TransferControl { from: pre.in_control(), to: name }),
            ]
        } else {
            Seq::empty()
        };
        let definition = match pre.definition() {
            Some(b) => seq![send_to(PayloadsView::AircraftDefinition { bytes: b }, addr)],
            None => Seq::empty(),
        };
        let joined = PayloadsView::PlayerJoined {
            name,
            in_control: false,
            is_server: false,
            is_observer: false,
        };
        &&& post.roster() == r2
        &&& post.in_control() == if takes_control {
            name
        } else {
            pre.in_control()
        }
        &&& post.definition() == pre.definition()
        &&& after == before + roster_joined(pre.roster(), pre.in_control(), addr) + hosting + seq![
            to_all(r2, Some(addr), joined),
        ] + definition
    }
}

/// What a payload from the client at `addr` does to its hosted session: the
/// aircraft definition is kept; a join request is answered as `join_effect`
/// says; a transfer of control is recorded; observers are marked; updates,
/// transfers and observer changes are relayed to the other clients; a
/// readiness notice goes to the one in control; a handshake is echoed; and
/// everything else is dropped.
pub open spec fn hosted_effect(
    pre: ServerState,
    post: ServerState,
    before: Seq<TransferActionView>,
    after: Seq<TransferActionView>,
    addr: NetAddress,
    payload: PayloadsView,
    too_old: bool,
    minimum: Seq<char>,
) -> bool {
    let relay = to_all(pre.roster(), Some(addr), payload);
    match payload {
        PayloadsView::AircraftDefinition { bytes } => {
            &&& post.roster() == pre.roster()
            &&& post.in_control() == pre.in_control()
            &&& post.definition() == Some(bytes)
            &&& after == before
        },
        PayloadsView::Update { .. } => post.same_as(&pre) && after == before.push(relay),
        PayloadsView::InitHandshake { name, .. } => join_effect(
            pre,
            post,
            before,
            after,
            addr,
            name,
            too_old,
            minimum,
        ),
        PayloadsView::TransferControl { to, .. } => {
            &&& post.roster() == pre.roster()
            &&& post.definition() == pre.definition()
            &&& post.in_control() == to
            &&& after == before.push(relay)
        },
        PayloadsView::SetObserver { to, is_observer, .. } => {
            let p = key_position(pre.roster(), to);
            &&& post.roster() == if p >= 0 {
                with_observer(pre.roster(), p, is_observer)
            } else {
                pre.roster()
            }
            &&& post.definition() == pre.definition()
            &&& post.in_control() == pre.in_control()
            &&& after == before.push(relay)
        },
        PayloadsView::SetSelfObserver { name } => {
            let p = key_position(pre.roster(), name);
            if p >= 0 {
                &&& post.roster() == with_observer(pre.roster(), p, true)
                &&& post.definition() == pre.definition()
                &&& post.in_control() == pre.in_control()
                &&& after == before.push(
                    to_all(
                        with_observer(pre.roster(), p, true),
                        None,
                        PayloadsView::SetObserver { from: server_name(), to: name, is_observer: true },
                    ),
                )
            } else {
                post.same_as(&pre) && after == before
            }
        },
        PayloadsView::Ready => {
            let p = key_position(pre.roster(), pre.in_control());
            &&& post.same_as(&pre)
            &&& after == if p >= 0 {
                before.push(send_to(payload, pre.roster()[p].1.addr))
            } else {
                before
            }
        },
        PayloadsView::Handshake { .. } => post.same_as(&pre) && after == before.push(send_to(payload, addr)),
        _ => post.same_as(&pre) && after == before,
    }
}

/// The clients of `r` not at `addr`.
pub open spec fn clients_not_at(r: Seq<(Seq<char>, Client)>, addr: NetAddress) -> Seq<(Seq<char>, Client)> {
    r.filter(|e: (Seq<char>, Client)| e.1.addr != addr)
}

/// The name of the last client of `r` at `addr`, if any.
pub open spec fn last_name_at(r: Seq<(Seq<char>, Client)>, addr: NetAddress) -> Option<Seq<char>>
    decreases r.len(),
{
    if r.len() == 0 {
        None
    } else if r.last().1.addr == addr {
        Some(r.last().0)
    } else {
        last_name_at(r.drop_last(), addr)
    }
}

/// How many seconds an empty session may stay before it is cleaned up.
pub const INACTIVE_SESSION_TIMEOUT_SECS: u64 = 30;

/// What a departure from `addr` does to a hosted session: see
/// `ServerState::on_client_left`.
pub open spec fn left_effect(
    pre: ServerState,
    post: ServerState,
    before: Seq<TransferActionView>,
    after: Seq<TransferActionView>,
    addr: NetAddress,
) -> bool {
    let r1 = clients_not_at(pre.roster(), addr);
    let removed = match last_name_at(pre.roster(), addr) {
        Some(n) => n,
        None => Seq::<char>::empty(),
    };
    let left = PayloadsView::PlayerLeft { name: removed };
    &&& post.definition() == pre.definition()
    &&& if r1.len() > 0 && removed == pre.in_control() {
        &&& post.roster() == made_host(r1, 0)
        &&& post.in_control() == r1[0].0
        &&& after == before + seq![
            send_to(PayloadsView::SetHost, r1[0].1.addr),
            to_all(
                made_host(r1, 0),
                None,
                PayloadsView::TransferControl { from: pre.in_control(), to: r1[0].0 },
            ),
            to_all(made_host(r1, 0), None, left),
        ]
    } else {
        &&& post.roster() == r1
        &&& post.in_control() == if r1.len() > 0 {
            pre.in_control()
        } else {
            server_name()
        }
        &&& after == before.push(to_all(r1, None, left))
    }
}

/// Whether a join request is below `minimum`: only a request whose version
/// `semver` reads can be, and `semver`'s order decides.
fn join_too_old(payload: &Payloads, minimum: &MinimumVersion) -> (res: bool)
    ensures
        res == below_minimum(payload@, minimum.text()),
{
    proof {
        use_type_invariant(minimum);
    }
    match payload {
        Payloads::InitHandshake { version, .. } => match version_precedes(version.as_str(), minimum.text.as_str()) {
            Some(b) => b,
            None => false,
        },
        _ => false,
    }
}

/// The hosting server a hosted session runs on.
pub struct ServerInfo {
    pub hostname: String,
}

impl ServerInfo {
    pub fn new(hostname: String) -> (res: Self)
        ensures
            res == (ServerInfo { hostname }),
    {
        ServerInfo { hostname }
    }
}

/// Every hosted session: who is waiting to be let in by IP address, which
/// session each connected address belongs to, the sessions reserved, and
/// their states.
pub struct Servers {
    unknown_clients: AssocList<IpKey, String>,
    clients_connected: AssocList<NetAddress, String>,
    active_servers: AssocList<String, ServerInfo>,
    server_states: AssocList<String, ServerState>,
}

impl Servers {
    /// The session id each waiting IP address must show.
    pub closed spec fn unknown(&self) -> Seq<(IpKey, String)> {
        self.unknown_clients.pairs()
    }

    /// The session each connected address belongs to.
    pub closed spec fn connected(&self) -> Seq<(NetAddress, String)> {
        self.clients_connected.pairs()
    }

    /// The hosting server of each reserved session.
    pub closed spec fn active(&self) -> Seq<(Seq<char>, ServerInfo)> {
        self.active_servers.pairs()
    }

    /// The state of each session.
    pub closed spec fn states(&self) -> Seq<(Seq<char>, ServerState)> {
        self.server_states.pairs()
    }

    pub open spec fn wf(&self) -> bool {
        &&& unique_keys(self.unknown())
        &&& unique_keys(self.connected())
        &&& unique_keys(self.active())
        &&& unique_keys(self.states())
        &&& forall|i: int| 0 <= i < self.states().len() ==> (#[trigger] self.states()[i]).1.wf()
    }

    pub fn new() -> (res: Self)
        ensures
            res.wf(),
            res.unknown() == Seq::<(IpKey, String)>::empty(),
            res.connected() == Seq::<(NetAddress, String)>::empty(),
            res.active() == Seq::<(Seq<char>, ServerInfo)>::empty(),
            res.states() == Seq::<(Seq<char>, ServerState)>::empty(),
    {
        let res = Servers {
            unknown_clients: AssocList::new(),
            clients_connected: AssocList::new(),
            active_servers: AssocList::new(),
            server_states: AssocList::new(),
        };
        res
    }

    fn state_at(&self, i: usize) -> (res: &ServerState)
        requires
            i < self.states().len(),
        ensures
            *res == self.states()[i as int].1,
    {
        self.server_states.value_at(i)
    }

    /// Takes the state at `i` out, leaving a fresh one in its place.
    fn take_state(&mut self, i: usize) -> (res: ServerState)
        requires
            old(self).wf(),
            i < old(self).states().len(),
        ensures
            final(self).wf(),
            res == old(self).states()[i as int].1,
            res.wf(),
            final(self).states().len() == old(self).states().len(),
            final(self).states()[i as int].0 == old(self).states()[i as int].0,
            forall|j: int| 0 <= j < old(self).states().len() && j != i ==> final(self).states()[j] == old(self).states()[j],
            final(self).unknown() == old(self).unknown(),
            final(self).connected() == old(self).connected(),
            final(self).active() == old(self).active(),
    {
        let fresh = ServerState::new();
        let res = self.server_states.replace_at(i, fresh);
        proof {
            assert forall|j: int| 0 <= j < self.states().len() implies (#[trigger] self.states()[j]).1.wf() by {
                if j != i {
                    assert(self.states()[j] == old(self).states()[j]);
                }
            }
        }
        res
    }

    /// Puts `st` back at `i`.
    fn put_state(&mut self, i: usize, st: ServerState)
        requires
            old(self).wf(),
            i < old(self).states().len(),
            st.wf(),
        ensures
            final(self).wf(),
            final(self).states() == old(self).states().update(i as int, (old(self).states()[i as int].0, st)),
            final(self).unknown() == old(self).unknown(),
            final(self).connected() == old(self).connected(),
            final(self).active() == old(self).active(),
    {
        self.server_states.replace_at(i, st);
        proof {
            assert forall|j: int| 0 <= j < self.states().len() implies (#[trigger] self.states()[j]).1.wf() by {
                if j != i {
                    assert(self.states()[j] == old(self).states()[j]);
                }
            }
        }
    }

    /// How many addresses are connected to hosted sessions.
    pub fn connected_count(&self) -> (res: usize)
        ensures
            res == self.connected().len(),
    {
        self.clients_connected.len()
    }

    /// Whether a session `session_id` is reserved.
    pub fn is_active(&self, session_id: &String) -> (res: bool)
        requires
            self.wf(),
        ensures
            res == (lookup(self.active(), session_id@) is Some),
    {
        self.active_servers.contains_key(session_id)
    }

    /// How many sessions are reserved.
    pub fn active_count(&self) -> (res: usize)
        ensures
            res == self.active().len(),
    {
        self.active_servers.len()
    }

    /// The client at `ip` will be let into `session_id` once it shows it.
    pub fn wait_for(&mut self, ip: IpKey, session_id: String)
        requires
            old(self).wf(),
        ensures
            final(self).wf(),
            final(self).unknown() == insert_pair(old(self).unknown(), ip, session_id),
            final(self).connected() == old(self).connected(),
            final(self).active() == old(self).active(),
            final(self).states() == old(self).states(),
    {
        self.unknown_clients.insert(ip, session_id);
    }

    /// Reserves a session on the hosting server `hostname` for the client at
    /// `addr_who_requested`, under a new random id, which is returned.
    pub fn reserve_server(&mut self, hostname: String, addr_who_requested: NetAddress) -> (id: String)
        requires
            old(self).wf(),
        ensures
            final(self).wf(),
            is_random_id(id@, SESSION_ID_LENGTH as nat),
            final(self).active() == insert_pair(old(self).active(), id@, ServerInfo { hostname }),
            final(self).connected() == insert_pair(old(self).connected(), addr_who_requested, id),
            final(self).unknown() == old(self).unknown(),
            ({
                let p = key_position(final(self).states(), id@);
                &&& p >= 0
                &&& final(self).states() == insert_pair(old(self).states(), id@, final(self).states()[p].1)
                &&& final(self).states()[p].1.roster().len() == 0
                &&& final(self).states()[p].1.definition() is None
                &&& final(self).states()[p].1.in_control() == server_name()
            }),
    {
        let id = get_random_id(SESSION_ID_LENGTH);
        let ghost info = ServerInfo { hostname };
        self.active_servers.insert(id.clone(), ServerInfo::new(hostname));
        assert(self.active() == insert_pair(old(self).active(), id@, info));
        self.clients_connected.insert(addr_who_requested, id.clone());
        let st = ServerState::new();
        let ghost stv = st;
        let ghost before = self.states();
        self.server_states.insert(id.clone(), st);
        proof {
            lemma_key_position(before, id@);
            lemma_key_position(self.states(), id@);
            assert(self.states() == insert_pair(before, id@, stv));
            let q = key_position(before, id@);
            let idx = if q >= 0 {
                q
            } else {
                before.len() as int
            };
            assert(self.states()[idx] == (id@, stv));
            let p = key_position(self.states(), id@);
            assert(p == idx);
            assert(self.states()[p].1 == stv);
            assert forall|j: int| 0 <= j < self.states().len() implies (#[trigger] self.states()[j]).1.wf() by {
                if j < before.len() && self.states()[j] == before[j] {
                } else {
                    assert(self.states()[j].1 == stv);
                }
            }
        }
        id
    }

    /// Forgets the session `session_id`.
    pub fn remove_server(&mut self, session_id: &String)
        requires
            old(self).wf(),
        ensures
            final(self).wf(),
            final(self).active() == remove_key(old(self).active(), session_id@),
            final(self).states() == remove_key(old(self).states(), session_id@),
            final(self).unknown() == old(self).unknown(),
            final(self).connected() == old(self).connected(),
    {
        self.active_servers.remove(session_id);
        self.server_states.remove(session_id);
        proof {
            let pre = old(self).states();
            lemma_key_position(pre, session_id@);
            let p = key_position(pre, session_id@);
            assert forall|j: int| 0 <= j < self.states().len() implies (#[trigger] self.states()[j]).1.wf() by {
                if p >= 0 && j >= p {
                    assert(self.states()[j] == pre[j + 1]);
                } else {
                    assert(self.states()[j] == pre[j]);
                }
            }
        }
    }

    /// Handles a payload from `addr`: a handshake from an address waiting to
    /// be let in must show the session id it waits with, and lets it in; the
    /// payload then goes to the session of its address, if any, as
    /// `ServerState::process_payload_checked` says.
    pub fn on_payload_checked(
        &mut self,
        addr: NetAddress,
        payload: Payloads,
        too_old: bool,
        minimum: &String,
        out: &mut Vec<TransferAction>,
    )
        requires
            old(self).wf(),
        ensures
            final(self).wf(),
            final(self).active() == old(self).active(),
            servers_payload_effect(
                *old(self),
                *final(self),
                actions(old(out)@),
                actions(final(out)@),
                addr,
                payload@,
                too_old,
                minimum@,
            ),
    {
        proof {
            lemma_key_position(self.unknown(), addr.ip_key_spec());
        }
        if let Payloads::Handshake { session_id } = &payload {
            let ip = addr.ip_key();
            let prev = match self.unknown_clients.get(&ip) {
                Some(p) => Some(p.clone()),
                None => None,
            };
            if let Some(prev) = prev {
                if *session_id == prev {
                    self.unknown_clients.remove(&ip);
                    self.clients_connected.insert(addr, prev);
                } else {
                    return;
                }
            }
        }
        proof {
            lemma_key_position(self.connected(), addr);
        }
        let session = match self.clients_connected.get(&addr) {
            Some(s) => Some(s.clone()),
            None => None,
        };
        if let Some(session) = session {
            proof {
                lemma_key_position(self.states(), session@);
            }
            if let Some(i) = self.server_states.position(&session) {
                let ghost mid = self.states();
                let mut st = self.take_state(i);
                st.process_payload_checked(addr, payload, too_old, minimum, out);
                let ghost st2 = st;
                self.put_state(i, st);
                assert(self.states() =~= mid.update(i as int, (session@, st2)));
            }
        }
    }

    /// Handles a payload from `addr`: see `on_payload_checked`; a join
    /// request is refused when `semver` orders its version below `minimum`,
    /// and the refusal names the minimum as `semver` writes it.
    pub fn on_payload(
        &mut self,
        addr: NetAddress,
        payload: Payloads,
        minimum: &MinimumVersion,
        out: &mut Vec<TransferAction>,
    )
        requires
            old(self).wf(),
        ensures
            final(self).wf(),
            final(self).active() == old(self).active(),
            servers_payload_effect(
                *old(self),
                *final(self),
                actions(old(out)@),
                actions(final(out)@),
                addr,
                payload@,
                below_minimum(payload@, minimum.text()),
                semver_display(minimum.text()),
            ),
    {
        let too_old = join_too_old(&payload, minimum);
        let text = minimum.display_text();
        self.on_payload_checked(addr, payload, too_old, &text, out);
    }

    /// The connection of `addr` closed: it leaves its session, as
    /// `ServerState::on_client_left` says, and a session left empty is
    /// forgotten.
    pub fn on_connection_closed(&mut self, addr: NetAddress, out: &mut Vec<TransferAction>)
        requires
            old(self).wf(),
        ensures
            final(self).wf(),
            closed_effect(*old(self), *final(self), actions(old(out)@), actions(final(out)@), addr),
    {
        proof {
            lemma_key_position(self.connected(), addr);
        }
        let removed = self.clients_connected.remove(&addr);
        if let Some(session) = removed {
            let mut should_close = false;
            proof {
                lemma_key_position(self.states(), session@);
            }
            if let Some(i) = self.server_states.position(&session) {
                let ghost pre_states = self.states();
                assert(pre_states == old(self).states());
                let mut st = self.take_state(i);
                assert(st == pre_states[i as int].1);
                let ghost st1 = st;
                let ghost out1 = actions(out@);
                assert(out1 == actions(old(out)@));
                should_close = st.on_client_left(addr, out);
                let ghost st2 = st;
                assert(left_effect(st1, st2, out1, actions(out@), addr));
                self.put_state(i, st);
                assert(self.states() =~= pre_states.update(i as int, (session@, st2)));
                if should_close {
                    let ghost mid = self.states();
                    self.remove_server(&session);
                    proof {
                        lemma_key_position(mid, session@);
                        lemma_key_position(old(self).states(), session@);
                        assert(mid[i as int].0 == session@);
                        assert(key_position(mid, session@) == i);
                        assert(key_position(old(self).states(), session@) == i);
                        assert(mid.remove(i as int) =~= old(self).states().remove(i as int));
                    }
                }
            }
        }
    }

    /// Sends a heartbeat to every client of each session in turn, while the
    /// clock says one is due; the first session not due ends the round.
    pub fn handle_heartbeats(&mut self, out: &mut Vec<TransferAction>)
        requires
            old(self).wf(),
        ensures
            final(self).wf(),
            final(self).unknown() == old(self).unknown(),
            final(self).connected() == old(self).connected(),
            final(self).active() == old(self).active(),
            same_sessions(final(self).states(), old(self).states()),
            exists|k: int|
                0 <= k <= old(self).states().len() && actions(final(out)@) == actions(old(out)@)
                    + heartbeat_sends(#[trigger] old(self).states().take(k)),
    {
        let ghost all = self.states();
        let ghost before = actions(out@);
        let mut i: usize = 0;
        while i < self.server_states.len()
            invariant
                i <= all.len(),
                self.wf(),
                self.states().len() == all.len(),
                same_sessions(self.states(), all),
                forall|j: int| i <= j < all.len() ==> self.states()[j] == all[j],
                self.unknown() == old(self).unknown(),
                self.connected() == old(self).connected(),
                self.active() == old(self).active(),
                all == old(self).states(),
                before == actions(old(out)@),
                actions(out@) == before + heartbeat_sends(all.take(i as int)),
            decreases all.len() - i,
        {
            if !self.state_at(i).heartbeat_due() {
                assert(actions(out@) == before + heartbeat_sends(all.take(i as int)));
                return;
            }
            let mut st = self.take_state(i);
            st.send_to_all(Payloads::Heartbeat, None, out);
            st.heartbeat_instant = instant_now();
            self.put_state(i, st);
            i = i + 1;
            proof {
                assert(all.take(i as int) =~= all.take(i - 1).push(all[i - 1]));
                assert(actions(out@) =~= before + heartbeat_sends(all.take(i as int)));
            }
        }
    }

    fn remove_state_at(&mut self, i: usize) -> (res: String)
        requires
            old(self).wf(),
            i < old(self).states().len(),
        ensures
            final(self).wf(),
            final(self).states() == old(self).states().remove(i as int),
            res@ == old(self).states()[i as int].0,
            final(self).unknown() == old(self).unknown(),
            final(self).connected() == old(self).connected(),
            final(self).active() == old(self).active(),
    {
        let (k, _) = self.server_states.remove_at(i);
        proof {
            let pre = old(self).states();
            assert forall|j: int| 0 <= j < self.states().len() implies (#[trigger] self.states()[j]).1.wf() by {
                if j >= i {
                    assert(self.states()[j] == pre[j + 1]);
                } else {
                    assert(self.states()[j] == pre[j]);
                }
            }
        }
        k
    }

    /// Forgets the sessions whose `expired` flag is set and that have no
    /// clients left, and the addresses connected to sessions no longer there.
    pub fn cleanup_with(&mut self, expired: &Vec<bool>)
        requires
            old(self).wf(),
            expired@.len() == old(self).states().len(),
        ensures
            final(self).wf(),
            final(self).states() == sessions_kept(old(self).states(), expired@),
            final(self).active() == remove_all(
                old(self).active(),
                sessions_closed(old(self).states(), expired@),
            ),
            final(self).connected() == connected_to(old(self).connected(), final(self).states()),
            final(self).unknown() == old(self).unknown(),
    {
        let ghost all = self.states();
        let ghost act = self.active();
        let n = expired.len();
        let mut i: usize = 0;
        let mut j: usize = 0;
        while i < self.server_states.len()
            invariant
                j <= all.len(),
                n == all.len(),
                expired@.len() == all.len(),
                i == sessions_kept(all.take(j as int), expired@).len(),
                self.states() == sessions_kept(all.take(j as int), expired@) + all.subrange(j as int, all.len() as int),
                self.active() == remove_all(act, sessions_closed(all.take(j as int), expired@)),
                self.wf(),
                self.unknown() == old(self).unknown(),
                self.connected() == old(self).connected(),
            decreases self.states().len() - i,
        {
            assert(j < all.len());
            assert(self.states()[i as int] == all[j as int]);
            proof {
                assert(all.take(j + 1).drop_last() =~= all.take(j as int));
                assert(all.take(j + 1).last() == all[j as int]);
            }
            if expired[j] && !self.state_at(i).has_clients() {
                let key = self.remove_state_at(i);
                self.active_servers.remove(&key);
                proof {
                    assert(self.states() =~= sessions_kept(all.take(j + 1), expired@) + all.subrange(
                        j + 1,
                        all.len() as int,
                    ));
                    let c0 = sessions_closed(all.take(j as int), expired@);
                    assert(sessions_closed(all.take(j + 1), expired@) =~= c0.push(key@));
                    assert(c0.push(key@).drop_last() =~= c0);
                }
            } else {
                i = i + 1;
                proof {
                    assert(sessions_closed(all.take(j + 1), expired@) =~= sessions_closed(all.take(j as int), expired@));
                    assert(self.states() =~= sessions_kept(all.take(j + 1), expired@) + all.subrange(
                        j + 1,
                        all.len() as int,
                    ));
                }
            }
            j = j + 1;
        }
        proof {
            if j < all.len() {
                assert(self.states().len() > i);
            }
            assert(all.take(j as int) =~= all);
            assert(self.states() =~= sessions_kept(all, expired@));
        }
        self.drop_unconnected();
    }

    /// Forgets the addresses connected to sessions no longer there.
    fn drop_unconnected(&mut self)
        requires
            old(self).wf(),
        ensures
            final(self).wf(),
            final(self).connected() == connected_to(old(self).connected(), old(self).states()),
            final(self).states() == old(self).states(),
            final(self).active() == old(self).active(),
            final(self).unknown() == old(self).unknown(),
    {
        let ghost all = self.connected();
        let ghost states = self.states();
        let mut i: usize = 0;
        let ghost mut j: int = 0;
        while i < self.clients_connected.len()
            invariant
                0 <= j <= all.len(),
                i == connected_to(all.take(j), states).len(),
                self.connected() == connected_to(all.take(j), states) + all.subrange(j, all.len() as int),
                self.wf(),
                self.states() == states,
                self.active() == old(self).active(),
                self.unknown() == old(self).unknown(),
            decreases self.connected().len() - i,
        {
            assert(self.connected()[i as int] == all[j]);
            proof {
                reveal_with_fuel(Seq::filter, 1);
                assert(all.take(j + 1).drop_last() =~= all.take(j));
                assert(all.take(j + 1).last() == all[j]);
                lemma_key_position(states, all[j].1@);
            }
            let live = self.server_states.contains_key(self.clients_connected.value_at(i));
            if !live {
                self.clients_connected.remove_at(i);
                proof {
                    assert(self.connected() =~= connected_to(all.take(j + 1), states) + all.subrange(
                        j + 1,
                        all.len() as int,
                    ));
                }
            } else {
                i = i + 1;
                proof {
                    assert(self.connected() =~= connected_to(all.take(j + 1), states) + all.subrange(
                        j + 1,
                        all.len() as int,
                    ));
                }
            }
            proof {
                j = j + 1;
            }
        }
        proof {
            if j < all.len() {
                assert(self.connected().len() > i);
            }
            assert(all.take(j) =~= all);
            assert(self.connected() =~= connected_to(all, states));
        }
    }

    /// Forgets the empty sessions started too long ago, by the clock: see
    /// `cleanup_with`.
    pub fn cleanup(&mut self)
        requires
            old(self).wf(),
        ensures
            final(self).wf(),
            exists|expired: Seq<bool>|
                {
                    &&& expired.len() == old(self).states().len()
                    &&& final(self).states() == sessions_kept(old(self).states(), expired)
                    &&& final(self).active() == remove_all(
                        old(self).active(),
                        sessions_closed(old(self).states(), expired),
                    )
                    &&& final(self).connected() == connected_to(old(self).connected(), final(self).states())
                },
            final(self).unknown() == old(self).unknown(),
    {
        let mut expired: Vec<bool> = Vec::new();
        let mut i: usize = 0;
        while i < self.server_states.len()
            invariant
                i <= self.states().len(),
                expired@.len() == i,
            decreases self.states().len() - i,
        {
            expired.push(self.state_at(i).inactive_long());
            i = i + 1;
        }
        self.cleanup_with(&expired);
    }
}

/// Whether a payload from `addr` gets past the door: a handshake from an
/// address waiting to be let in must show the session id it waits with.
pub open spec fn gate_passes(unknown: Seq<(IpKey, String)>, addr: NetAddress, payload: PayloadsView) -> bool {
    match payload {
        PayloadsView::Handshake { session_id } => match lookup(unknown, addr.ip_key_spec()) {
            Some(prev) => prev@ == session_id,
            None => true,
        },
        _ => true,
    }
}

/// Whether a payload from `addr` lets a waiting address in.
pub open spec fn gate_opens(unknown: Seq<(IpKey, String)>, addr: NetAddress, payload: PayloadsView) -> bool {
    match payload {
        PayloadsView::Handshake { session_id } => match lookup(unknown, addr.ip_key_spec()) {
            Some(prev) => prev@ == session_id,
            None => false,
        },
        _ => false,
    }
}

/// What a payload from `addr` does to the hosted sessions: see
/// `Servers::on_payload_checked`.
pub open spec fn servers_payload_effect(
    pre: Servers,
    post: Servers,
    before: Seq<TransferActionView>,
    after: Seq<TransferActionView>,
    addr: NetAddress,
    payload: PayloadsView,
    too_old: bool,
    minimum: Seq<char>,
) -> bool {
    if !gate_passes(pre.unknown(), addr, payload) {
        &&& post.unknown() == pre.unknown()
        &&& post.connected() == pre.connected()
        &&& post.states() == pre.states()
        &&& after == before
    } else {
        let ip = addr.ip_key_spec();
        let opens = gate_opens(pre.unknown(), addr, payload);
        &&& post.unknown() == if opens {
            remove_key(pre.unknown(), ip)
        } else {
            pre.unknown()
        }
        &&& post.connected() == if opens {
            insert_pair(pre.connected(), addr, lookup(pre.unknown(), ip).unwrap())
        } else {
            pre.connected()
        }
        &&& match lookup(post.connected(), addr) {
            Some(session) => {
                let p = key_position(pre.states(), session@);
                if p >= 0 {
                    &&& post.states().len() == pre.states().len()
                    &&& post.states() == pre.states().update(p, (session@, post.states()[p].1))
                    &&& hosted_effect(
                        pre.states()[p].1,
                        post.states()[p].1,
                        before,
                        after,
                        addr,
                        payload,
                        too_old,
                        minimum,
                    )
                } else {
                    post.states() == pre.states() && after == before
                }
            },
            None => post.states() == pre.states() && after == before,
        }
    }
}

/// What the closing of `addr`'s connection does to the hosted sessions: see
/// `Servers::on_connection_closed`.
pub open spec fn closed_effect(
    pre: Servers,
    post: Servers,
    before: Seq<TransferActionView>,
    after: Seq<TransferActionView>,
    addr: NetAddress,
) -> bool {
    match lookup(pre.connected(), addr) {
        None => {
            &&& post.unknown() == pre.unknown()
            &&& post.connected() == pre.connected()
            &&& post.active() == pre.active()
            &&& post.states() == pre.states()
            &&& after == before
        },
        Some(session) => {
            let p = key_position(pre.states(), session@);
            &&& post.unknown() == pre.unknown()
            &&& post.connected() == remove_key(pre.connected(), addr)
            &&& if p < 0 {
                post.states() == pre.states() && post.active() == pre.active() && after == before
            } else {
                exists|st: ServerState|
                    {
                        &&& left_effect(pre.states()[p].1, st, before, after, addr)
                        &&& if st.roster().len() == 0 {
                            &&& post.states() == remove_key(pre.states(), session@)
                            &&& post.active() == remove_key(pre.active(), session@)
                        } else {
                            &&& post.states() == pre.states().update(p, (session@, st))
                            &&& post.active() == pre.active()
                        }
                    }
            }
        },
    }
}

/// The heartbeats sent to the sessions of `s`, in order.
pub open spec fn heartbeat_sends(s: Seq<(Seq<char>, ServerState)>) -> Seq<TransferActionView> {
    s.map_values(|e: (Seq<char>, ServerState)| to_all(e.1.roster(), None, PayloadsView::Heartbeat))
}

/// The same sessions, with the same clients, definitions and controllers.
pub open spec fn same_sessions(a: Seq<(Seq<char>, ServerState)>, b: Seq<(Seq<char>, ServerState)>) -> bool {
    &&& a.len() == b.len()
    &&& forall|i: int| 0 <= i < a.len() ==> (#[trigger] a[i]).0 == b[i].0 && a[i].1.same_as(&b[i].1)
}

/// Whether the cleanup closes a session in state `st` whose `expired` flag is given.
pub open spec fn closes(st: ServerState, expired: bool) -> bool {
    expired && st.roster().len() == 0
}

/// The sessions of `s` the cleanup keeps.
pub open spec fn sessions_kept(s: Seq<(Seq<char>, ServerState)>, expired: Seq<bool>) -> Seq<(Seq<char>, ServerState)>
    decreases s.len(),
{
    if s.len() == 0 {
        Seq::empty()
    } else {
        let rest = sessions_kept(s.drop_last(), expired);
        if closes(s.last().1, expired[s.len() - 1]) {
            rest
        } else {
            rest.push(s.last())
        }
    }
}

/// The ids of the sessions of `s` the cleanup closes, in order.
pub open spec fn sessions_closed(s: Seq<(Seq<char>, ServerState)>, expired: Seq<bool>) -> Seq<Seq<char>>
    decreases s.len(),
{
    if s.len() == 0 {
        Seq::empty()
    } else {
        let rest = sessions_closed(s.drop_last(), expired);
        if closes(s.last().1, expired[s.len() - 1]) {
            rest.push(s.last().0)
        } else {
            rest
        }
    }
}

/// `s` without the entries at each of `ks`, removed in turn.
pub open spec fn remove_all<K, V>(s: Seq<(K, V)>, ks: Seq<K>) -> Seq<(K, V)>
    decreases ks.len(),
{
    if ks.len() == 0 {
        s
    } else {
        remove_key(remove_all(s, ks.drop_last()), ks.last())
    }
}

/// The connected addresses of `c` whose session is among `states`.
pub open spec fn connected_to(c: Seq<(NetAddress, String)>, states: Seq<(Seq<char>, ServerState)>) -> Seq<
    (NetAddress, String),
> {
    c.filter(|e: (NetAddress, String)| lookup(states, e.1@) is Some)
}

} // verus!
