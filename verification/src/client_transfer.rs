use std::time::Instant;
use vstd::prelude::*;

use crate::clock::{elapsed_millis, elapsed_secs, instant_now};
use crate::net_address::NetAddress;
use crate::payloads::{copy_addresses, Payloads, PayloadsView};
use crate::transfer::{
    actions, deliver, is_heartbeat_due, push_deliver, push_report, push_send_to, report, send_to,
    Event, EventView, TransferAction, TransferActionView, HEARTBEAT_INTERVAL_MANUAL_MS,
    MAX_PUNCH_RETRIES,
};

verus! {

/// How many seconds a client waits for the rendezvous server to put it in
/// touch with a session.
pub const RENDEZVOUS_TIMEOUT_SECS: u64 = 5;

/// The text of a lost connection whose server runs another version.
pub open spec fn version_mismatch_text(server_version: Seq<char>) -> Seq<char> {
    "Server has mismatching version "@ + server_version
}

/// The text of a lost connection whose name was taken.
pub open spec fn name_taken_text(name: Seq<char>) -> Seq<char> {
    name + " already in use!"@
}

/// The text of a lost connection whose peer answered with another session id.
pub open spec fn handshake_failed_text(expected: Seq<char>, got: Seq<char>) -> Seq<char> {
    "Handshake verification failed! Expected "@ + expected + ", got "@ + got
}

/// The handshakes of one hole punch round towards `addrs`, starting from
/// `retries` rounds; the round that reaches the limit is reported as failed.
pub open spec fn client_punch_sends(addrs: Seq<NetAddress>, session: Seq<char>, retries: int) -> Seq<
    TransferActionView,
>
    decreases addrs.len(),
{
    if addrs.len() == 0 {
        Seq::empty()
    } else {
        let sent = client_punch_sends(addrs.drop_last(), session, retries).push(
            send_to(PayloadsView::Handshake { session_id: session }, addrs.last()),
        );
        if retries + addrs.len() == MAX_PUNCH_RETRIES {
            sent.push(report(EventView::UnablePunchthrough))
        } else {
            sent
        }
    }
}

/// What a client sends first: to the rendezvous server, a request for the
/// session's address or, without a session id, a request to be hosted; else a
/// handshake to the server it was pointed at; else nothing.
pub open spec fn opening_sends(
    session_id: Option<Seq<char>>,
    rendezvous: Option<NetAddress>,
    target: Option<NetAddress>,
    local_endpoint: Option<NetAddress>,
) -> Seq<TransferActionView> {
    match rendezvous {
        Some(r) => match session_id {
            Some(s) => seq![
                send_to(PayloadsView::RendezvousHandshake { session_id: s, local_endpoint }, r),
            ],
            None => seq![
                send_to(PayloadsView::RequestHosting { self_hosted: false, local_endpoint }, r),
            ],
        },
        None => match target {
            Some(t) => seq![send_to(PayloadsView::Handshake { session_id: Seq::empty() }, t)],
            None => Seq::empty(),
        },
    }
}

/// Sends what a client sends first: see `opening_sends`.
pub fn opening(
    session_id: &Option<String>,
    rendezvous: Option<NetAddress>,
    target: Option<NetAddress>,
    local_endpoint: Option<NetAddress>,
    out: &mut Vec<TransferAction>,
)
    ensures
        actions(final(out)@) == actions(old(out)@) + opening_sends(
            match session_id {
                Some(s) => Some(s@),
                None => None,
            },
            rendezvous,
            target,
            local_endpoint,
        ),
{
    let ghost before = actions(out@);
    if let Some(r) = rendezvous {
        match session_id {
            Some(s) => {
                // Resolve the session id into an address
                push_send_to(
                    out,
                    Payloads::RendezvousHandshake { session_id: s.clone(), local_endpoint },
                    r,
                );
            },
            None => {
                push_send_to(out, Payloads::RequestHosting { self_hosted: false, local_endpoint }, r);
            },
        }
    } else if let Some(t) = target {
        // Start establishing a connection with the server itself
        push_send_to(out, Payloads::Handshake { session_id: String::new() }, t);
    }
    assert(actions(out@) =~= before + opening_sends(
        match session_id {
            Some(s) => Some(s@),
            None => None,
        },
        rendezvous,
        target,
        local_endpoint,
    ));
}

/// The state of a client's connection: who it is, where it may connect, where
/// it is connected, and its hole punching.
pub struct TransferStruct {
    name: String,
    version: String,
    received_address: Vec<NetAddress>,
    connected_address: Option<NetAddress>,
    retry_timer: Option<Instant>,
    session_id: String,
    retries: u8,
    should_stop: bool,
    is_host: bool,
    rendezvous: Option<NetAddress>,
    rendezvous_timer: Instant,
    heartbeat_instant: Instant,
}

impl TransferStruct {
    pub closed spec fn name(&self) -> Seq<char> {
        self.name@
    }

    pub closed spec fn version(&self) -> Seq<char> {
        self.version@
    }

    /// The addresses the client may still punch through to.
    pub closed spec fn received(&self) -> Seq<NetAddress> {
        self.received_address@
    }

    pub closed spec fn connected(&self) -> Option<NetAddress> {
        self.connected_address
    }

    pub closed spec fn session(&self) -> Seq<char> {
        self.session_id@
    }

    pub closed spec fn retries(&self) -> u8 {
        self.retries
    }

    pub closed spec fn stopping(&self) -> bool {
        self.should_stop
    }

    pub closed spec fn hosting(&self) -> bool {
        self.is_host
    }

    pub closed spec fn rendezvous(&self) -> Option<NetAddress> {
        self.rendezvous
    }

    /// Whether a hole punch round was sent.
    pub closed spec fn punch_started(&self) -> bool {
        self.retry_timer is Some
    }

    /// The settings no message changes.
    pub open spec fn same_settings(&self, other: &Self) -> bool {
        &&& self.name() == other.name()
        &&& self.version() == other.version()
        &&& self.hosting() == other.hosting()
        &&& self.rendezvous() == other.rendezvous()
    }

    /// Nothing changed.
    pub open spec fn unchanged(&self, other: &Self) -> bool {
        &&& self.same_settings(other)
        &&& self.received() == other.received()
        &&& self.connected() == other.connected()
        &&& self.session() == other.session()
        &&& self.retries() == other.retries()
        &&& self.stopping() == other.stopping()
        &&& self.punch_started() == other.punch_started()
    }

    /// Only the stop flag may have changed, and only to set.
    pub open spec fn stopped_from(&self, other: &Self) -> bool {
        &&& self.same_settings(other)
        &&& self.received() == other.received()
        &&& self.connected() == other.connected()
        &&& self.session() == other.session()
        &&& self.retries() == other.retries()
        &&& self.stopping()
        &&& self.punch_started() == other.punch_started()
    }

    /// Whether the next hole punch round can count its handshakes.
    pub open spec fn round_fits(&self) -> bool {
        self.retries() + self.received().len() <= u8::MAX
    }

    /// A client named `name`; it is hosting when it has neither a session id
    /// nor a server to go to, and it punches through to `target` if given.
    pub fn new(
        name: String,
        version: String,
        session_id: Option<String>,
        rendezvous: Option<NetAddress>,
        target: Option<NetAddress>,
    ) -> (res: Self)
        ensures
            res.name() == name@,
            res.version() == version@,
            res.received() == match target {
                Some(t) => seq![t],
                None => Seq::<NetAddress>::empty(),
            },
            res.connected() is None,
            res.session() == match session_id {
                Some(s) => s@,
                None => Seq::<char>::empty(),
            },
            res.retries() == 0,
            !res.stopping(),
            res.hosting() == (session_id is None && target is None),
            res.rendezvous() == rendezvous,
            !res.punch_started(),
    {
        let is_host = session_id.is_none() && target.is_none();
        let mut received_address: Vec<NetAddress> = Vec::new();
        if let Some(t) = target {
            received_address.push(t);
        }
        let session_id = match session_id {
            Some(s) => s,
            None => String::new(),
        };
        let res = TransferStruct {
            name,
            version,
            received_address,
            connected_address: None,
            retry_timer: None,
            session_id,
            retries: 0,
            should_stop: false,
            is_host,
            rendezvous,
            rendezvous_timer: instant_now(),
            heartbeat_instant: instant_now(),
        };
        assert(res.received() =~= match target {
            Some(t) => seq![t],
            None => Seq::<NetAddress>::empty(),
        });
        res
    }

    pub fn should_stop(&self) -> (res: bool)
        ensures
            res == self.stopping(),
    {
        self.should_stop
    }

    pub fn is_host(&self) -> (res: bool)
        ensures
            res == self.hosting(),
    {
        self.is_host
    }

    pub fn get_session_id(&self) -> (res: String)
        ensures
            res@ == self.session(),
    {
        self.session_id.clone()
    }

    pub fn connected_address(&self) -> (res: Option<NetAddress>)
        ensures
            res == self.connected(),
    {
        self.connected_address
    }

    /// Whether the next hole punch round can count its handshakes.
    pub fn punch_round_fits(&self) -> (res: bool)
        ensures
            res == self.round_fits(),
    {
        self.received_address.len() <= (u8::MAX - self.retries) as usize
    }

    /// The connection is lost for `reason`: the application is told and the
    /// client stops.
    pub fn stop(&mut self, reason: String, out: &mut Vec<TransferAction>)
        ensures
            final(self).stopped_from(&*old(self)),
            actions(final(out)@) == actions(old(out)@).push(
                report(EventView::ConnectionLost(reason@)),
            ),
    {
        push_report(out, Event::ConnectionLost(reason));
        self.should_stop = true;
    }

    /// Handles a payload from `addr`.
    pub fn handle_message(&mut self, addr: NetAddress, payload: Payloads, out: &mut Vec<TransferAction>)
        ensures
            client_message_effect(
                *old(self),
                *final(self),
                actions(old(out)@),
                actions(final(out)@),
                addr,
                payload@,
            ),
    {
        let ghost before = actions(out@);
        match &payload {
            Payloads::InvalidVersion { server_version } => {
                let mut reason = String::from_str("Server has mismatching version ");
                reason.append(server_version.as_str());
                self.stop(reason, out);
            },
            Payloads::InvalidName => {
                let mut reason = self.name.clone();
                reason.append(" already in use!");
                self.stop(reason, out);
            },
            Payloads::Handshake { session_id } => {
                // Already established connection
                if self.connected_address.is_some() {
                    return;
                }
                // The other peer must have the same session id
                if *session_id != self.session_id {
                    let mut reason = String::from_str("Handshake verification failed! Expected ");
                    reason.append(self.session_id.as_str());
                    reason.append(", got ");
                    reason.append(session_id.as_str());
                    self.stop(reason, out);
                    return;
                }
                // Established connection with host
                self.connected_address = Some(addr);
                self.received_address = Vec::new();
                // Send initial data
                push_send_to(
                    out,
                    Payloads::InitHandshake { name: self.name.clone(), version: self.version.clone() },
                    addr,
                );
                push_report(out, Event::ConnectionEstablished);
            },
            Payloads::HostingReceived { session_id } => {
                self.session_id = session_id.clone();
            },
            Payloads::AttemptConnection { peers } => {
                self.received_address = copy_addresses(peers);
            },
            _ => {},
        }
        let ghost mid = actions(out@);
        push_deliver(out, payload);
        proof {
            if let PayloadsView::Handshake { .. } = payload@ {
                assert(actions(out@) =~= before + seq![
                    send_to(PayloadsView::InitHandshake { name: old(self).name(), version: old(self).version() }, addr),
                    report(EventView::ConnectionEstablished),
                    deliver(payload@),
                ]);
            }
        }
    }

    /// A payload from the application goes to the server once connected.
    pub fn handle_app_message(&self, payload: Payloads, out: &mut Vec<TransferAction>)
        ensures
            actions(final(out)@) == match self.connected() {
                Some(a) => actions(old(out)@).push(send_to(payload@, a)),
                None => actions(old(out)@),
            },
    {
        if let Some(address) = self.connected_address {
            push_send_to(out, payload, address);
        }
    }

    /// A connection closed: if it was the server's, the client stops.
    pub fn on_connection_closed(&mut self, addr: NetAddress, out: &mut Vec<TransferAction>)
        ensures
            if old(self).connected() == Some(addr) {
                &&& final(self).stopped_from(&*old(self))
                &&& actions(final(out)@) == actions(old(out)@).push(
                    report(EventView::ConnectionLost("Connection timeout"@)),
                )
            } else {
                final(self).unchanged(&*old(self)) && actions(final(out)@) == actions(old(out)@)
            },
    {
        let was_connected_addr = match self.connected_address {
            Some(c) => c == addr,
            None => false,
        };
        if was_connected_addr {
            self.stop(String::from_str("Connection timeout"), out);
        }
    }

    /// After `secs_waited` seconds without a connection through the rendezvous
    /// server, the client gives up.
    pub fn rendezvous_wait(&mut self, secs_waited: u64, out: &mut Vec<TransferAction>)
        ensures
            if old(self).connected() is None && old(self).rendezvous() is Some && secs_waited
                >= RENDEZVOUS_TIMEOUT_SECS {
                &&& final(self).stopped_from(&*old(self))
                &&& actions(final(out)@) == actions(old(out)@).push(
                    report(EventView::ConnectionLost("Could not connect to session."@)),
                )
            } else {
                final(self).unchanged(&*old(self)) && actions(final(out)@) == actions(old(out)@)
            },
    {
        if self.connected_address.is_none() && self.rendezvous.is_some() && secs_waited
            >= RENDEZVOUS_TIMEOUT_SECS {
            self.stop(String::from_str("Could not connect to session."), out);
        }
    }

    /// Checks the rendezvous wait against the clock: see `rendezvous_wait`.
    pub fn check_rendezvous(&mut self, out: &mut Vec<TransferAction>)
        ensures
            ({
                ||| final(self).unchanged(&*old(self)) && actions(final(out)@) == actions(old(out)@)
                ||| {
                    &&& old(self).connected() is None
                    &&& old(self).rendezvous() is Some
                    &&& final(self).stopped_from(&*old(self))
                    &&& actions(final(out)@) == actions(old(out)@).push(
                        report(EventView::ConnectionLost("Could not connect to session."@)),
                    )
                }
            }),
    {
        let secs = elapsed_secs(&self.rendezvous_timer);
        self.rendezvous_wait(secs, out);
    }

    /// One hole punch round, when `due` and not yet connected: a handshake to
    /// each address received, each counted; reaching the limit stops the client
    /// and reports that no connection could be punched through.
    pub fn punch_round(&mut self, due: bool, out: &mut Vec<TransferAction>)
        requires
            old(self).round_fits(),
        ensures
            if old(self).connected() is Some || !due {
                final(self).unchanged(&*old(self)) && actions(final(out)@) == actions(old(out)@)
            } else {
                &&& final(self).same_settings(&*old(self))
                &&& final(self).received() == old(self).received()
                &&& final(self).connected() == old(self).connected()
                &&& final(self).session() == old(self).session()
                &&& final(self).retries() == old(self).retries() + old(self).received().len()
                &&& final(self).stopping() == (old(self).stopping() || (old(self).retries()
                    < MAX_PUNCH_RETRIES && MAX_PUNCH_RETRIES <= old(self).retries()
                    + old(self).received().len()))
                &&& final(self).punch_started() == (old(self).punch_started()
                    || old(self).received().len() > 0)
                &&& actions(final(out)@) == actions(old(out)@) + client_punch_sends(
                    old(self).received(),
                    old(self).session(),
                    old(self).retries() as int,
                )
            },
    {
        if self.connected_address.is_some() || !due {
            return;
        }
        let ghost start = self.retries as int;
        let ghost addrs = self.received_address@;
        let ghost before = actions(out@);
        let ghost was_stopping = self.should_stop;
        let ghost was_started = self.retry_timer is Some;
        let mut i: usize = 0;
        while i < self.received_address.len()
            invariant
                i <= self.received_address.len(),
                self.received_address@ == addrs,
                start + addrs.len() <= u8::MAX,
                self.retries == start + i,
                self.should_stop == (was_stopping || (start < MAX_PUNCH_RETRIES && MAX_PUNCH_RETRIES
                    <= start + i)),
                (self.retry_timer is Some) == (was_started || i > 0),
                self.session_id@ == old(self).session_id@,
                self.connected_address == old(self).connected_address,
                self.name@ == old(self).name@,
                self.version@ == old(self).version@,
                self.is_host == old(self).is_host,
                self.rendezvous == old(self).rendezvous,
                actions(out@) == before + client_punch_sends(addrs.take(i as int), self.session_id@, start),
            decreases self.received_address.len() - i,
        {
            let addr = self.received_address[i];
            push_send_to(out, Payloads::Handshake { session_id: self.session_id.clone() }, addr);
            // Reset second timer
            self.retry_timer = Some(instant_now());
            self.retries = self.retries + 1;
            // Over retry limit, stop connection
            if self.retries == MAX_PUNCH_RETRIES {
                self.should_stop = true;
                push_report(out, Event::UnablePunchthrough);
            }
            i = i + 1;
            proof {
                let t = addrs.take(i as int);
                assert(t.drop_last() =~= addrs.take(i - 1));
                assert(t.last() == addr);
                assert(actions(out@) =~= before + client_punch_sends(t, self.session_id@, start));
            }
        }
        assert(addrs.take(i as int) =~= addrs);
    }

    /// Sends a hole punch round once a second has passed since the last one,
    /// which the clock decides: see `punch_round`.
    pub fn handle_handshake(&mut self, out: &mut Vec<TransferAction>)
        requires
            old(self).round_fits(),
        ensures
            ({
                ||| final(self).unchanged(&*old(self)) && actions(final(out)@) == actions(old(out)@)
                ||| {
                    &&& old(self).connected() is None
                    &&& final(self).same_settings(&*old(self))
                    &&& final(self).received() == old(self).received()
                    &&& final(self).connected() == old(self).connected()
                    &&& final(self).session() == old(self).session()
                    &&& final(self).retries() == old(self).retries() + old(self).received().len()
                    &&& final(self).stopping() == (old(self).stopping() || (old(self).retries()
                        < MAX_PUNCH_RETRIES && MAX_PUNCH_RETRIES <= old(self).retries()
                        + old(self).received().len()))
                    &&& actions(final(out)@) == actions(old(out)@) + client_punch_sends(
                        old(self).received(),
                        old(self).session(),
                        old(self).retries() as int,
                    )
                }
            }),
            !old(self).punch_started() && old(self).connected() is None ==> actions(final(out)@)
                == actions(old(out)@) + client_punch_sends(
                old(self).received(),
                old(self).session(),
                old(self).retries() as int,
            ),
    {
        // Send a message every second
        let due = match &self.retry_timer {
            Some(timer) => elapsed_secs(timer) >= 1,
            None => true,
        };
        self.punch_round(due, out);
    }

    /// Sends a heartbeat to the server when `elapsed_ms` milliseconds passed
    /// since the last one; a heartbeat sent restarts the count.
    pub fn heartbeat_round(&mut self, elapsed_ms: u128, out: &mut Vec<TransferAction>)
        ensures
            final(self).unchanged(&*old(self)),
            actions(final(out)@) == match old(self).connected() {
                Some(a) => if elapsed_ms >= HEARTBEAT_INTERVAL_MANUAL_MS {
                    actions(old(out)@).push(send_to(PayloadsView::Heartbeat, a))
                } else {
                    actions(old(out)@)
                },
                None => actions(old(out)@),
            },
    {
        if let Some(addr) = self.connected_address {
            if !is_heartbeat_due(elapsed_ms) {
                return;
            }
            self.heartbeat_instant = instant_now();
            push_send_to(out, Payloads::Heartbeat, addr);
        }
    }

    /// Sends a heartbeat when the clock says one is due: see `heartbeat_round`.
    pub fn handle_heartbeat(&mut self, out: &mut Vec<TransferAction>)
        ensures
            final(self).unchanged(&*old(self)),
            match old(self).connected() {
                Some(a) => actions(final(out)@) == actions(old(out)@) || actions(final(out)@)
                    == actions(old(out)@).push(send_to(PayloadsView::Heartbeat, a)),
                None => actions(final(out)@) == actions(old(out)@),
            },
    {
        let elapsed = elapsed_millis(&self.heartbeat_instant);
        self.heartbeat_round(elapsed, out);
    }
}

/// What a payload from `addr` does to a client: a refused version or name
/// stops it; a handshake with the right session id connects it to `addr` and
/// answers with its name and version, a wrong one stops it, and any handshake
/// once connected is ignored; a session id or punch addresses are kept; and,
/// but for handshakes that stop or are ignored, the payload is handed to the
/// application.
pub open spec fn client_message_effect(
    pre: TransferStruct,
    post: TransferStruct,
    before: Seq<TransferActionView>,
    after: Seq<TransferActionView>,
    addr: NetAddress,
    payload: PayloadsView,
) -> bool {
    match payload {
        PayloadsView::InvalidVersion { server_version } => {
            &&& post.stopped_from(&pre)
            &&& after == before.push(
                report(EventView::ConnectionLost(version_mismatch_text(server_version))),
            ).push(deliver(payload))
        },
        PayloadsView::InvalidName => {
            &&& post.stopped_from(&pre)
            &&& after == before.push(report(EventView::ConnectionLost(name_taken_text(pre.name())))).push(
                deliver(payload),
            )
        },
        PayloadsView::Handshake { session_id } => if pre.connected() is Some {
            post.unchanged(&pre) && after == before
        } else if session_id != pre.session() {
            &&& post.stopped_from(&pre)
            &&& after == before.push(
                report(EventView::ConnectionLost(handshake_failed_text(pre.session(), session_id))),
            )
        } else {
            &&& post.same_settings(&pre)
            &&& post.connected() == Some(addr)
            &&& post.received() == Seq::<NetAddress>::empty()
            &&& post.session() == pre.session()
            &&& post.retries() == pre.retries()
            &&& post.stopping() == pre.stopping()
            &&& post.punch_started() == pre.punch_started()
            &&& after == before + seq![
                send_to(PayloadsView::InitHandshake { name: pre.name(), version: pre.version() }, addr),
                report(EventView::ConnectionEstablished),
                deliver(payload),
            ]
        },
        PayloadsView::HostingReceived { session_id } => {
            &&& post.same_settings(&pre)
            &&& post.session() == session_id
            &&& post.received() == pre.received()
            &&& post.connected() == pre.connected()
            &&& post.retries() == pre.retries()
            &&& post.stopping() == pre.stopping()
            &&& post.punch_started() == pre.punch_started()
            &&& after == before.push(deliver(payload))
        },
        PayloadsView::AttemptConnection { peers } => {
            &&& post.same_settings(&pre)
            &&& post.received() == peers
            &&& post.session() == pre.session()
            &&& post.connected() == pre.connected()
            &&& post.retries() == pre.retries()
            &&& post.stopping() == pre.stopping()
            &&& post.punch_started() == pre.punch_started()
            &&& after == before.push(deliver(payload))
        },
        _ => post.unchanged(&pre) && after == before.push(deliver(payload)),
    }
}

} // verus!
