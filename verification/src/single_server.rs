use vstd::prelude::*;

use crate::clients::{
    addr_position, addresses, addresses_except, delegations_after_removal, host_position,
    is_added, lemma_addr_position, lemma_addresses_keep, lemma_host_position_keep, lemma_unique_position,
    unique_ids, with_first_host, ClientInfo, Clients,
};
use crate::control::{filled_with, ClientId, ControlSurfaces};
use crate::main_payloads::{MainPayloads, MainPayloadsView};
use crate::net_address::NetAddress;

verus! {

/// The same payload, to be sent to each listed address in turn.
#[derive(Debug)]
pub struct Dispatch {
    pub to: Vec<NetAddress>,
    pub payload: MainPayloads,
}

/// What a list of dispatches sends, with addresses and payloads as views.
pub open spec fn sent(s: Seq<Dispatch>) -> Seq<(Seq<NetAddress>, MainPayloadsView)> {
    s.map_values(|d: Dispatch| (d.to@, d.payload@))
}

/// What the transport reports: a peer connected, a peer timed out, or a payload arrived.
#[derive(Debug)]
pub enum Message<T> {
    NewConnection(NetAddress),
    LostConnection(NetAddress),
    Payload(T, NetAddress),
}

/// Why a request to the server was refused.
#[derive(Debug, PartialEq, Eq, Structural)]
pub enum ServerError {
    /// A session was requested but no rendezvous server was set.
    NoRendezvousServer,
}

/// Metadata for handshaking with clients and the rendezvous server.
#[derive(Debug)]
pub struct ServerMetadata {
    version: Option<String>,
    rendezvous_server: Option<NetAddress>,
}

impl ServerMetadata {
    /// The version clients must have, if any.
    pub closed spec fn required_version(&self) -> Option<Seq<char>> {
        match self.version {
            Some(v) => Some(v@),
            None => None,
        }
    }

    /// The rendezvous server the session id is requested from, if any.
    pub closed spec fn rendezvous(&self) -> Option<NetAddress> {
        self.rendezvous_server
    }

    pub fn new() -> (res: Self)
        ensures
            res.required_version() is None,
            res.rendezvous() is None,
    {
        ServerMetadata { version: None, rendezvous_server: None }
    }

    pub fn with_version(self, version: String) -> (res: Self)
        ensures
            res.required_version() == Some(version@),
            res.rendezvous() == self.rendezvous(),
    {
        ServerMetadata { version: Some(version), ..self }
    }

    pub fn with_rendezvous_server(self, rendezvous_server: NetAddress) -> (res: Self)
        ensures
            res.required_version() == self.required_version(),
            res.rendezvous() == Some(rendezvous_server),
    {
        ServerMetadata { rendezvous_server: Some(rendezvous_server), ..self }
    }
}

/// `Some(s)` as text, or the empty text.
pub open spec fn text_or_empty(s: Option<Seq<char>>) -> Seq<char> {
    match s {
        Some(t) => t,
        None => Seq::empty(),
    }
}

/// The announcement of `c` to the other clients.
pub open spec fn announcement(c: ClientInfo) -> MainPayloadsView {
    MainPayloadsView::ClientAdded {
        client_id: c.id,
        is_observer: c.is_observer,
        is_host: c.is_host,
        name: c.name@,
    }
}

/// The announcements of the clients in `s` other than `incoming`, sent to `incoming`, in order.
pub open spec fn roster_for(s: Seq<ClientInfo>, incoming: ClientInfo) -> Seq<
    (Seq<NetAddress>, MainPayloadsView),
>
    decreases s.len(),
{
    if s.len() == 0 {
        Seq::empty()
    } else {
        roster_for(s.drop_last(), incoming) + if s.last().id == incoming.id {
            Seq::<(Seq<NetAddress>, MainPayloadsView)>::empty()
        } else {
            seq![(seq![incoming.addr], announcement(s.last()))]
        }
    }
}

/// What a client that has just named itself receives and causes to be sent: the
/// other clients, the delegations, and its own announcement to the others.
pub open spec fn welcome_round(
    s: Seq<ClientInfo>,
    incoming: ClientInfo,
    d: Map<ControlSurfaces, ClientId>,
) -> Seq<(Seq<NetAddress>, MainPayloadsView)> {
    roster_for(s, incoming) + seq![
        (seq![incoming.addr], MainPayloadsView::ControlDelegations { delegations: d }),
        (addresses_except(s, incoming.addr), announcement(incoming)),
    ]
}

/// Where the delegations go: to every client, or to every client but `except`.
pub open spec fn targets(s: Seq<ClientInfo>, except: Option<NetAddress>) -> Seq<NetAddress> {
    match except {
        Some(a) => addresses_except(s, a),
        None => addresses(s),
    }
}

/// The session id sent to a new host at `addr`, when the server has one.
pub open spec fn session_notice(session: Option<Seq<char>>, addr: NetAddress) -> Seq<
    (Seq<NetAddress>, MainPayloadsView),
> {
    match session {
        Some(id) => seq![(seq![addr], MainPayloadsView::SessionDetails { session_id: id })],
        None => Seq::empty(),
    }
}

/// What is sent when the first client of `s` becomes host: everyone learns of the
/// new host, the host gets the session id, and the delegations, with every free
/// surface now the host's, go to the targets.
pub open spec fn host_round(
    s: Seq<ClientInfo>,
    session: Option<Seq<char>>,
    except: Option<NetAddress>,
    d: Map<ControlSurfaces, ClientId>,
) -> Seq<(Seq<NetAddress>, MainPayloadsView)> {
    seq![(addresses(s), MainPayloadsView::MakeHost { client_id: s[0].id })] + session_notice(
        session,
        s[0].addr,
    ) + seq![
        (
            targets(s, except),
            MainPayloadsView::ControlDelegations { delegations: filled_with(d, s[0].id) },
        ),
    ]
}

/// Who sent what, as views.
pub type Sent = Seq<(Seq<NetAddress>, MainPayloadsView)>;

/// A hello from `addr`: a known address is ignored; a wrong session id is refused;
/// otherwise a wrong version is reported, the hello is answered and the client is
/// registered under the next id.
pub open spec fn hello_step(
    pre: SingleServer,
    post: SingleServer,
    before: Sent,
    after: Sent,
    session_id: Seq<char>,
    version: Seq<char>,
    addr: NetAddress,
) -> bool {
    if addr_position(pre.roster(), addr) >= 0 {
        post.unchanged(&pre) && after == before
    } else if !(match pre.session() {
        Some(s) => s == session_id,
        None => true,
    }) {
        post.unchanged(&pre) && after == before.push((seq![addr], MainPayloadsView::InvalidSession))
    } else if !(match pre.required_version() {
        Some(v) => v == version,
        None => true,
    }) {
        &&& post.unchanged(&pre)
        &&& after == before.push(
            (
                seq![addr],
                MainPayloadsView::InvalidVersion { server_version: text_or_empty(pre.required_version()) },
            ),
        )
    } else {
        &&& post.delegation_map() == pre.delegation_map()
        &&& post.session() == pre.session()
        &&& post.accepting() == pre.accepting()
        &&& post.same_settings(&pre)
        &&& is_added(pre.roster(), post.roster(), addr, pre.next_id())
        &&& after == before.push(
            (
                seq![addr],
                MainPayloadsView::Hello {
                    session_id: text_or_empty(pre.session()),
                    version: text_or_empty(pre.required_version()),
                },
            ),
        )
    }
}

/// A name from `addr`: an unknown address is ignored; otherwise the client is
/// named and welcomed, the first client becomes host if there is none, and the
/// roster, the delegations and the newcomer are exchanged.
pub open spec fn name_step(
    pre: SingleServer,
    post: SingleServer,
    before: Sent,
    after: Sent,
    name: String,
    addr: NetAddress,
) -> bool {
    let p = addr_position(pre.roster(), addr);
    if p < 0 {
        post.unchanged(&pre) && after == before
    } else {
        let named = pre.roster().update(p, ClientInfo { name: name, ..pre.roster()[p] });
        let welcome = (
            seq![addr],
            MainPayloadsView::Welcome { client_id: pre.roster()[p].id, name: name@ },
        );
        &&& post.session() == pre.session()
        &&& post.accepting() == pre.accepting()
        &&& post.same_settings(&pre)
        &&& if host_position(pre.roster()) >= 0 {
            &&& post.roster() == named
            &&& post.delegation_map() == pre.delegation_map()
            &&& after == before.push(welcome) + welcome_round(named, named[p], pre.delegation_map())
        } else {
            let hosted = with_first_host(named);
            let d = filled_with(pre.delegation_map(), named[0].id);
            &&& post.roster() == hosted
            &&& post.delegation_map() == d
            &&& after == before.push(welcome) + host_round(
                named,
                pre.session(),
                Some(addr),
                pre.delegation_map(),
            ) + welcome_round(hosted, hosted[p], d)
        }
    }
}

/// The session id from the rendezvous server is kept and clients are accepted again.
pub open spec fn session_step(
    pre: SingleServer,
    post: SingleServer,
    before: Sent,
    after: Sent,
    session_id: Seq<char>,
) -> bool {
    &&& post.roster() == pre.roster()
    &&& post.delegation_map() == pre.delegation_map()
    &&& post.same_settings(&pre)
    &&& post.session() == Some(session_id)
    &&& post.accepting()
    &&& after == before
}

/// Whether the client connected from `addr` holds `delegation` in `pre`.
pub open spec fn sender_holds(pre: SingleServer, addr: NetAddress, delegation: ControlSurfaces) -> bool {
    let p = addr_position(pre.roster(), addr);
    &&& p >= 0
    &&& pre.delegation_map().contains_key(delegation)
    &&& pre.delegation_map()[delegation] == pre.roster()[p].id
}

/// A transfer of `delegation` to `to`, sent from `addr`, is applied and
/// broadcast to every client only when the client at `addr` holds the
/// delegation; otherwise nothing changes and nothing is sent.
pub open spec fn transfer_step(
    pre: SingleServer,
    post: SingleServer,
    before: Sent,
    after: Sent,
    delegation: ControlSurfaces,
    to: ClientId,
    addr: NetAddress,
) -> bool {
    if sender_holds(pre, addr, delegation) {
        let d = pre.delegation_map().insert(delegation, to);
        &&& post.roster() == pre.roster()
        &&& post.delegation_map() == d
        &&& post.session() == pre.session()
        &&& post.accepting() == pre.accepting()
        &&& post.same_settings(&pre)
        &&& after == before.push(
            (addresses(pre.roster()), MainPayloadsView::ControlDelegations { delegations: d }),
        )
    } else {
        post.unchanged(&pre) && after == before
    }
}

/// What a payload from `addr` does: hellos, names, session ids and transfers are
/// handled, updates are relayed to every other client, the rest is ignored.
pub open spec fn payload_step(
    pre: SingleServer,
    post: SingleServer,
    before: Sent,
    after: Sent,
    payload: MainPayloads,
    addr: NetAddress,
) -> bool {
    match payload {
        MainPayloads::Hello { session_id, version } => hello_step(
            pre,
            post,
            before,
            after,
            session_id@,
            version@,
            addr,
        ),
        MainPayloads::Name { name } => name_step(pre, post, before, after, name, addr),
        MainPayloads::SessionDetails { session_id } => session_step(
            pre,
            post,
            before,
            after,
            session_id@,
        ),
        MainPayloads::Update { .. } => post.unchanged(&pre) && after == before.push(
            (addresses_except(pre.roster(), addr), payload@),
        ),
        MainPayloads::TransferControl { delegation, to } => transfer_step(
            pre,
            post,
            before,
            after,
            delegation,
            to,
            addr,
        ),
        _ => post.unchanged(&pre) && after == before,
    }
}

/// A payload is handled only when it comes from the rendezvous server or the
/// server accepts clients.
pub open spec fn received_step(
    pre: SingleServer,
    post: SingleServer,
    before: Sent,
    after: Sent,
    payload: MainPayloads,
    addr: NetAddress,
) -> bool {
    if pre.rendezvous() != Some(addr) && !pre.accepting() {
        post.unchanged(&pre) && after == before
    } else {
        payload_step(pre, post, before, after, payload, addr)
    }
}

/// A lost connection from `addr`: the first client there is removed, the first
/// remaining client becomes host, and the removal is announced.
pub open spec fn lost_step(
    pre: SingleServer,
    post: SingleServer,
    before: Sent,
    after: Sent,
    addr: NetAddress,
) -> bool {
    let p = addr_position(pre.roster(), addr);
    if p < 0 {
        post.unchanged(&pre) && after == before
    } else {
        let gone = pre.roster()[p];
        let rest = pre.roster().remove(p);
        let d = delegations_after_removal(pre.delegation_map(), gone.id, rest);
        let removal = (addresses(rest), MainPayloadsView::ClientRemoved { client_id: gone.id });
        &&& post.session() == pre.session()
        &&& post.accepting() == pre.accepting()
        &&& post.same_settings(&pre)
        &&& if rest.len() == 0 {
            &&& post.roster() == rest
            &&& post.delegation_map() == d
            &&& after == before.push(removal)
        } else {
            &&& post.roster() == with_first_host(rest)
            &&& post.delegation_map() == filled_with(d, rest[0].id)
            &&& after == before + host_round(rest, pre.session(), None, d) + seq![removal]
        }
    }
}

/// What one transport message does.
pub open spec fn message_step(
    pre: SingleServer,
    post: SingleServer,
    before: Sent,
    after: Sent,
    message: Message<MainPayloads>,
) -> bool {
    match message {
        Message::NewConnection(_) => post.unchanged(&pre) && after == before,
        Message::LostConnection(addr) => lost_step(pre, post, before, after, addr),
        Message::Payload(payload, addr) => received_step(pre, post, before, after, payload, addr),
    }
}

/// What a list of transport messages does, handled in order.
pub open spec fn messages_step(
    pre: SingleServer,
    post: SingleServer,
    before: Sent,
    after: Sent,
    messages: Seq<Message<MainPayloads>>,
) -> bool
    decreases messages.len(),
{
    if messages.len() == 0 {
        post.unchanged(&pre) && after == before
    } else {
        exists|mid: SingleServer, mid_sent: Sent|
            messages_step(pre, mid, before, mid_sent, messages.drop_last()) && #[trigger] message_step(
                mid,
                post,
                mid_sent,
                after,
                messages.last(),
            )
    }
}

/// A server for communication between clients of one session: it keeps the
/// roster and the control delegations, and says what is to be sent to whom.
pub struct SingleServer {
    clients: Clients,
    can_accept_clients: bool,
    session_id: Option<String>,
    metadata: ServerMetadata,
}

impl SingleServer {
    pub closed spec fn roster(&self) -> Seq<ClientInfo> {
        self.clients.entries()
    }

    pub closed spec fn delegation_map(&self) -> Map<ControlSurfaces, ClientId> {
        self.clients.delegation_map()
    }

    pub closed spec fn next_id(&self) -> ClientId {
        self.clients.next_id()
    }

    pub closed spec fn session(&self) -> Option<Seq<char>> {
        match self.session_id {
            Some(s) => Some(s@),
            None => None,
        }
    }

    pub closed spec fn accepting(&self) -> bool {
        self.can_accept_clients
    }

    pub closed spec fn required_version(&self) -> Option<Seq<char>> {
        self.metadata.required_version()
    }

    pub closed spec fn rendezvous(&self) -> Option<NetAddress> {
        self.metadata.rendezvous()
    }

    /// No two clients share an id.
    pub open spec fn wf(&self) -> bool {
        unique_ids(self.roster())
    }

    /// The settings a handler leaves alone.
    pub open spec fn same_settings(&self, other: &Self) -> bool {
        &&& self.required_version() == other.required_version()
        &&& self.rendezvous() == other.rendezvous()
        &&& self.next_id() == other.next_id()
    }

    /// A server with no clients and no session, that accepts clients.
    pub fn new() -> (res: Self)
        ensures
            res.wf(),
            res.roster() == Seq::<ClientInfo>::empty(),
            res.delegation_map() == Map::<ControlSurfaces, ClientId>::empty(),
            res.next_id() == 1,
            res.session() is None,
            res.accepting(),
            res.required_version() is None,
            res.rendezvous() is None,
    {
        SingleServer {
            clients: Clients::new(),
            can_accept_clients: true,
            session_id: None,
            metadata: ServerMetadata::new(),
        }
    }

    /// Sets the metadata the server will use.
    pub fn set_metadata(&mut self, metadata: ServerMetadata)
        ensures
            final(self).roster() == old(self).roster(),
            final(self).delegation_map() == old(self).delegation_map(),
            final(self).next_id() == old(self).next_id(),
            final(self).session() == old(self).session(),
            final(self).accepting() == old(self).accepting(),
            final(self).wf() == old(self).wf(),
            final(self).required_version() == metadata.required_version(),
            final(self).rendezvous() == metadata.rendezvous(),
    {
        self.metadata = metadata;
    }

    /// Whether `session_id` matches the session the server has; any matches while it has none.
    pub fn is_valid_session_id(&self, session_id: &String) -> (res: bool)
        ensures
            res == match self.session() {
                Some(s) => s == session_id@,
                None => true,
            },
    {
        match &self.session_id {
            Some(s) => *s == *session_id,
            None => true,
        }
    }

    /// Whether `version` matches the required version; any matches when none is required.
    pub fn is_valid_version(&self, version: &String) -> (res: bool)
        ensures
            res == match self.required_version() {
                Some(v) => v == version@,
                None => true,
            },
    {
        match &self.metadata.version {
            Some(v) => *v == *version,
            None => true,
        }
    }

    /// The handler left the roster, the delegations, the session and the settings alone.
    pub open spec fn unchanged(&self, other: &Self) -> bool {
        &&& self.roster() == other.roster()
        &&& self.delegation_map() == other.delegation_map()
        &&& self.session() == other.session()
        &&& self.accepting() == other.accepting()
        &&& self.same_settings(other)
    }

    /// Sends the current delegations to every client but `except`.
    fn send_delegations(&self, except: Option<NetAddress>, out: &mut Vec<Dispatch>)
        ensures
            sent(final(out)@) == sent(old(out)@).push(
                (
                    match except {
                        Some(a) => addresses_except(self.roster(), a),
                        None => addresses(self.roster()),
                    },
                    MainPayloadsView::ControlDelegations { delegations: self.delegation_map() },
                ),
            ),
    {
        let to = match except {
            Some(a) => self.clients.all_addresses_except(&a),
            None => self.clients.all_addresses(),
        };
        let delegations = *self.clients.delegations();
        out.push(Dispatch { to, payload: MainPayloads::ControlDelegations { delegations } });
        proof {
            assert(sent(final(out)@) =~= sent(old(out)@).push(
                (to@, MainPayloadsView::ControlDelegations { delegations: self.delegation_map() }),
            ));
        }
    }

    /// Makes the first client the host: everyone is told, the host gets the session
    /// id, and the delegations go to every client but `except`.
    fn set_next_host(&mut self, except: Option<NetAddress>, out: &mut Vec<Dispatch>)
        requires
            old(self).wf(),
        ensures
            final(self).wf(),
            final(self).session() == old(self).session(),
            final(self).accepting() == old(self).accepting(),
            final(self).same_settings(&*old(self)),
            old(self).roster().len() == 0 ==> {
                &&& final(self).unchanged(&*old(self))
                &&& final(out)@ == old(out)@
            },
            old(self).roster().len() > 0 ==> {
                &&& final(self).roster() == with_first_host(old(self).roster())
                &&& final(self).delegation_map() == filled_with(
                    old(self).delegation_map(),
                    old(self).roster()[0].id,
                )
                &&& sent(final(out)@) == sent(old(out)@) + host_round(
                    old(self).roster(),
                    old(self).session(),
                    except,
                    old(self).delegation_map(),
                )
            },
    {
        let target_addrs = self.clients.all_addresses();
        let (host_id, host_addr) = match self.clients.make_first_host() {
            Some(c) => (c.id, c.addr),
            None => return,
        };
        proof {
            lemma_addresses_keep(
                old(self).roster(),
                0,
                ClientInfo { is_host: true, ..old(self).roster()[0] },
            );
        }
        let ghost mid = out@;
        out.push(Dispatch { to: target_addrs, payload: MainPayloads::MakeHost { client_id: host_id } });
        let ghost mid2 = out@;
        if let Some(session_id) = &self.session_id {
            let mut to: Vec<NetAddress> = Vec::new();
            to.push(host_addr);
            out.push(Dispatch { to, payload: MainPayloads::SessionDetails { session_id: session_id.clone() } });
        }
        let ghost mid3 = out@;
        self.send_delegations(except, out);
        proof {
            let ghost s = old(self).roster();
            assert(sent(mid2) =~= sent(mid).push(
                (addresses(s), MainPayloadsView::MakeHost { client_id: s[0].id }),
            ));
            assert(sent(mid3) =~= sent(mid2) + session_notice(old(self).session(), s[0].addr));
            assert(sent(out@) =~= sent(old(out)@) + host_round(
                s,
                old(self).session(),
                except,
                old(self).delegation_map(),
            ));
        }
    }

    /// Tells the client `incoming` about the others and the delegations, and the
    /// others about it.
    fn send_new_connected_client_info(&self, incoming: &ClientInfo, out: &mut Vec<Dispatch>)
        ensures
            sent(final(out)@) == sent(old(out)@) + welcome_round(
                self.roster(),
                *incoming,
                self.delegation_map(),
            ),
    {
        let all = self.clients.all();
        let mut i: usize = 0;
        while i < all.len()
            invariant
                i <= all.len(),
                all@ == self.roster(),
                sent(out@) == sent(old(out)@) + roster_for(all@.take(i as int), *incoming),
            decreases all.len() - i,
        {
            proof {
                let post = all@.take(i + 1);
                assert(post.drop_last() =~= all@.take(i as int));
                assert(post.last() == all@[i as int]);
            }
            let other = &all[i];
            if other.id != incoming.id {
                let mut to: Vec<NetAddress> = Vec::new();
                to.push(incoming.addr);
                let ghost before = out@;
                out.push(Dispatch { to, payload: other.into_connected_payload() });
                proof {
                    assert(sent(out@) =~= sent(before).push(
                        (seq![incoming.addr], announcement(*other)),
                    ));
                }
            }
            proof {
                assert(sent(out@) =~= sent(old(out)@) + roster_for(all@.take(i + 1), *incoming));
            }
            i = i + 1;
        }
        assert(all@.take(i as int) =~= all@);
        let mut to: Vec<NetAddress> = Vec::new();
        to.push(incoming.addr);
        let delegations = *self.clients.delegations();
        let ghost before = out@;
        out.push(Dispatch { to, payload: MainPayloads::ControlDelegations { delegations } });
        let others = self.clients.all_addresses_except(&incoming.addr);
        out.push(Dispatch { to: others, payload: incoming.into_connected_payload() });
        proof {
            assert(sent(out@) =~= sent(before) + seq![
                (seq![incoming.addr], MainPayloadsView::ControlDelegations { delegations: self.delegation_map() }),
                (addresses_except(self.roster(), incoming.addr), announcement(*incoming)),
            ]);
        }
    }

    fn version_text(&self) -> (res: String)
        ensures
            res@ == text_or_empty(self.required_version()),
    {
        match &self.metadata.version {
            Some(v) => v.clone(),
            None => String::new(),
        }
    }

    fn session_text(&self) -> (res: String)
        ensures
            res@ == text_or_empty(self.session()),
    {
        match &self.session_id {
            Some(s) => s.clone(),
            None => String::new(),
        }
    }

    fn on_hello_received(
        &mut self,
        session_id: &String,
        version: &String,
        addr: NetAddress,
        out: &mut Vec<Dispatch>,
    )
        requires
            old(self).wf(),
        ensures
            final(self).wf(),
            hello_step(
                *old(self),
                *final(self),
                sent(old(out)@),
                sent(final(out)@),
                session_id@,
                version@,
                addr,
            ),
    {
        // Multiple hello payloads might've been sent
        if self.clients.get_id_for(addr).is_some() {
            return;
        }
        if !self.is_valid_session_id(session_id) {
            let mut to: Vec<NetAddress> = Vec::new();
            to.push(addr);
            out.push(Dispatch { to, payload: MainPayloads::InvalidSession });
            proof {
                assert(sent(out@) =~= sent(old(out)@).push(
                    (seq![addr], MainPayloadsView::InvalidSession),
                ));
            }
            return;
        }
        if !self.is_valid_version(version) {
            let mut to: Vec<NetAddress> = Vec::new();
            to.push(addr);
            out.push(Dispatch {
                to,
                payload: MainPayloads::InvalidVersion { server_version: self.version_text() },
            });
            proof {
                assert(sent(out@) =~= sent(old(out)@).push(
                    (
                        seq![addr],
                        MainPayloadsView::InvalidVersion {
                            server_version: text_or_empty(self.required_version()),
                        },
                    ),
                ));
            }
            return;
        }
        let mut to: Vec<NetAddress> = Vec::new();
        to.push(addr);
        out.push(Dispatch {
            to,
            payload: MainPayloads::Hello {
                session_id: self.session_text(),
                version: self.version_text(),
            },
        });
        // Passes all checks, register client
        self.clients.add(addr, None);
        proof {
            assert(sent(out@) =~= sent(old(out)@).push(
                (
                    seq![addr],
                    MainPayloadsView::Hello {
                        session_id: text_or_empty(old(self).session()),
                        version: text_or_empty(old(self).required_version()),
                    },
                ),
            ));
        }
    }

    /// Stores the client's name, welcomes it with its id, makes a host if there
    /// is none, and exchanges the roster between the client and the others.
    fn on_name_received(&mut self, name: &String, addr: NetAddress, out: &mut Vec<Dispatch>)
        requires
            old(self).wf(),
        ensures
            final(self).wf(),
            name_step(*old(self), *final(self), sent(old(out)@), sent(final(out)@), *name, addr),
    {
        let id = match self.clients.get_id_for(addr) {
            Some(id) => id,
            None => return,
        };
        let ghost p = addr_position(old(self).roster(), addr);
        let ghost named = old(self).roster().update(p, ClientInfo { name: *name, ..old(self).roster()[p] });
        proof {
            lemma_addr_position(old(self).roster(), addr);
            lemma_unique_position(old(self).roster(), id, p);
        }
        self.clients.set_name(&id, name.clone());
        proof {
            lemma_host_position_keep(old(self).roster(), p, ClientInfo { name: *name, ..old(self).roster()[p] });
            assert(self.roster() == named);
        }
        let mut to: Vec<NetAddress> = Vec::new();
        to.push(addr);
        out.push(Dispatch { to, payload: MainPayloads::Welcome { client_id: id, name: name.clone() } });
        let ghost after_welcome = out@;
        proof {
            assert(sent(after_welcome) =~= sent(old(out)@).push(
                (seq![addr], MainPayloadsView::Welcome { client_id: id, name: name@ }),
            ));
        }
        let has_host = self.clients.get_host().is_some();
        if !has_host {
            self.set_next_host(Some(addr), out);
        }
        let ghost after_host = out@;
        proof {
            lemma_unique_position(self.roster(), id, p);
        }
        let incoming = self.clients.get(&id).unwrap();
        self.send_new_connected_client_info(incoming, out);
        proof {
            if has_host {
                assert(sent(out@) =~= sent(after_welcome) + welcome_round(
                    named,
                    named[p],
                    old(self).delegation_map(),
                ));
            } else {
                assert(sent(out@) =~= sent(after_welcome) + host_round(
                    named,
                    old(self).session(),
                    Some(addr),
                    old(self).delegation_map(),
                ) + welcome_round(
                    with_first_host(named),
                    with_first_host(named)[p],
                    filled_with(old(self).delegation_map(), named[0].id),
                ));
            }
        }
    }

    /// Keeps the session id obtained from the rendezvous server and accepts clients again.
    fn on_session_received(&mut self, session_id: &String)
        requires
            old(self).wf(),
        ensures
            final(self).wf(),
            session_step(*old(self), *final(self), Seq::empty(), Seq::empty(), session_id@),
    {
        self.session_id = Some(session_id.clone());
        self.can_accept_clients = true;
    }

    /// Checks that the client at `addr` holds the delegation it is handing to
    /// `to`; if so, applies the transfer and broadcasts the delegations.
    fn on_transfer_control_received(
        &mut self,
        delegation: &ControlSurfaces,
        to: &ClientId,
        addr: NetAddress,
        out: &mut Vec<Dispatch>,
    )
        requires
            old(self).wf(),
        ensures
            final(self).wf(),
            transfer_step(*old(self), *final(self), sent(old(out)@), sent(final(out)@), *delegation, *to, addr),
    {
        let has_delegation = match self.clients.get_id_for(addr) {
            Some(sender) => match self.clients.get_current_delegated_client(delegation) {
                Some(current) => *current == sender,
                None => false,
            },
            None => false,
        };
        if !has_delegation {
            return;
        }
        self.clients.delegate(*delegation, *to);
        self.send_delegations(None, out);
    }

    /// Handles a payload from `addr`.
    pub fn process_payload(&mut self, payload: MainPayloads, addr: NetAddress, out: &mut Vec<Dispatch>)
        requires
            old(self).wf(),
        ensures
            final(self).wf(),
            payload_step(*old(self), *final(self), sent(old(out)@), sent(final(out)@), payload, addr),
    {
        let ghost original = payload;
        match payload {
            MainPayloads::Hello { session_id, version } => {
                self.on_hello_received(&session_id, &version, addr, out);
            },
            MainPayloads::Name { name } => {
                self.on_name_received(&name, addr, out);
            },
            MainPayloads::SessionDetails { session_id } => {
                self.on_session_received(&session_id);
            },
            MainPayloads::TransferControl { delegation, to } => {
                self.on_transfer_control_received(&delegation, &to, addr, out);
            },
            MainPayloads::Update { client_id, is_reliable, time_bits, changed } => {
                let to = self.clients.all_addresses_except(&addr);
                out.push(Dispatch {
                    to,
                    payload: MainPayloads::Update { client_id, is_reliable, time_bits, changed },
                });
                proof {
                    assert(sent(out@) =~= sent(old(out)@).push(
                        (addresses_except(self.roster(), addr), original@),
                    ));
                }
            },
            _ => {},
        }
    }

    /// Requests a session id from the rendezvous server; until it arrives, only the
    /// rendezvous server is listened to.
    pub fn request_session(&mut self, out: &mut Vec<Dispatch>) -> (res: Result<(), ServerError>)
        requires
            old(self).wf(),
        ensures
            final(self).wf(),
            match old(self).rendezvous() {
                None => {
                    &&& res == Err::<(), ServerError>(ServerError::NoRendezvousServer)
                    &&& final(self).unchanged(&*old(self))
                    &&& final(out)@ == old(out)@
                },
                Some(r) => {
                    &&& res is Ok
                    &&& final(self).roster() == old(self).roster()
                    &&& final(self).delegation_map() == old(self).delegation_map()
                    &&& final(self).session() == old(self).session()
                    &&& final(self).same_settings(&*old(self))
                    &&& !final(self).accepting()
                    &&& sent(final(out)@) == sent(old(out)@).push(
                        (seq![r], MainPayloadsView::RequestSession { self_hosted: true }),
                    )
                },
            },
    {
        let rendezvous_server = match self.metadata.rendezvous_server {
            Some(a) => a,
            None => return Err(ServerError::NoRendezvousServer),
        };
        let mut to: Vec<NetAddress> = Vec::new();
        to.push(rendezvous_server);
        out.push(Dispatch { to, payload: MainPayloads::RequestSession { self_hosted: true } });
        proof {
            assert(sent(out@) =~= sent(old(out)@).push(
                (seq![rendezvous_server], MainPayloadsView::RequestSession { self_hosted: true }),
            ));
        }
        self.can_accept_clients = false;
        Ok(())
    }

    /// The session id received from the rendezvous server, if any.
    pub fn session_id(&self) -> (res: Option<&String>)
        ensures
            match res {
                Some(s) => self.session() == Some(s@),
                None => self.session() is None,
            },
    {
        self.session_id.as_ref()
    }

    /// A connection was lost: the first client at `addr` is removed, the first
    /// remaining client is made host, and the others are told.
    fn on_client_connection_lost(&mut self, addr: NetAddress, out: &mut Vec<Dispatch>)
        requires
            old(self).wf(),
        ensures
            final(self).wf(),
            lost_step(*old(self), *final(self), sent(old(out)@), sent(final(out)@), addr),
    {
        proof {
            lemma_addr_position(old(self).roster(), addr);
        }
        let client = match self.clients.remove_from_addr(&addr) {
            Some(c) => c,
            None => return,
        };
        self.set_next_host(None, out);
        let ghost before = out@;
        let to = self.clients.all_addresses();
        out.push(Dispatch { to, payload: MainPayloads::ClientRemoved { client_id: client.id } });
        proof {
            let rest = old(self).roster().remove(addr_position(old(self).roster(), addr));
            if rest.len() > 0 {
                lemma_addresses_keep(rest, 0, ClientInfo { is_host: true, ..rest[0] });
            }
            let removal = (addresses(rest), MainPayloadsView::ClientRemoved { client_id: client.id });
            assert(sent(out@) =~= sent(before).push(removal));
            if rest.len() > 0 {
                let d = delegations_after_removal(
                    old(self).delegation_map(),
                    client.id,
                    rest,
                );
                assert(sent(out@) =~= sent(old(out)@) + host_round(rest, old(self).session(), None, d)
                    + seq![removal]);
            }
        }
    }

    /// Handles a payload from `addr`, unless the server is waiting for its session
    /// id and the payload is not from the rendezvous server.
    fn on_payload_received(&mut self, payload: MainPayloads, addr: NetAddress, out: &mut Vec<Dispatch>)
        requires
            old(self).wf(),
        ensures
            final(self).wf(),
            received_step(*old(self), *final(self), sent(old(out)@), sent(final(out)@), payload, addr),
    {
        let is_rendezvous_server = match self.metadata.rendezvous_server {
            Some(r) => r == addr,
            None => false,
        };
        if !is_rendezvous_server && !self.can_accept_clients {
            return;
        }
        self.process_payload(payload, addr, out)
    }

    /// Handles transport messages in order.
    pub fn process_messages(&mut self, messages: Vec<Message<MainPayloads>>, out: &mut Vec<Dispatch>)
        requires
            old(self).wf(),
        ensures
            final(self).wf(),
            messages_step(*old(self), *final(self), sent(old(out)@), sent(final(out)@), messages@),
    {
        let mut rest = messages;
        let ghost all = rest@;
        let ghost mut done: int = 0;
        while rest.len() > 0
            invariant
                self.wf(),
                0 <= done <= all.len(),
                rest@ == all.subrange(done, all.len() as int),
                messages_step(*old(self), *self, sent(old(out)@), sent(out@), all.take(done)),
            decreases rest.len(),
        {
            let ghost mid = *self;
            let ghost mid_sent = sent(out@);
            let message = rest.remove(0);
            match message {
                Message::NewConnection(_) => {},
                Message::LostConnection(addr) => {
                    self.on_client_connection_lost(addr, out);
                },
                Message::Payload(payload, addr) => {
                    self.on_payload_received(payload, addr, out);
                },
            }
            proof {
                let next = all.take(done + 1);
                assert(next.drop_last() =~= all.take(done));
                assert(next.last() == message);
                assert(message_step(mid, *self, mid_sent, sent(out@), next.last()));
                done = done + 1;
            }
        }
        assert(all.take(done) =~= all);
    }
}

} // verus!