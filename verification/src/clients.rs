use vstd::prelude::*;

use crate::control::{
    filled_with, without_client, ClientId, ControlDelegationsMap, ControlSurfaces,
};
use crate::main_payloads::MainPayloads;
use crate::net_address::NetAddress;

verus! {

/// What the session server knows of one connected client.
#[derive(Debug)]
pub struct ClientInfo {
    pub name: String,
    pub addr: NetAddress,
    pub is_observer: bool,
    pub is_host: bool,
    pub id: ClientId,
}

/// `c` is the record of a client that has just said hello from `addr` under `id`.
pub open spec fn is_fresh_client(c: ClientInfo, addr: NetAddress, id: ClientId) -> bool {
    &&& c.name@ == Seq::<char>::empty()
    &&& c.addr == addr
    &&& c.id == id
    &&& !c.is_observer
    &&& !c.is_host
}

impl ClientInfo {
    pub fn new(addr: NetAddress, id: ClientId) -> (res: Self)
        ensures
            is_fresh_client(res, addr, id),
    {
        ClientInfo { name: String::new(), addr, id, is_observer: false, is_host: false }
    }

    /// The payload that announces this client to the others.
    pub fn into_connected_payload(&self) -> (res: MainPayloads)
        ensures
            res matches MainPayloads::ClientAdded { client_id, is_observer, is_host, name } && {
                &&& client_id == self.id
                &&& is_observer == self.is_observer
                &&& is_host == self.is_host
                &&& name == self.name
            },
    {
        MainPayloads::ClientAdded {
            client_id: self.id,
            is_observer: self.is_observer,
            is_host: self.is_host,
            name: self.name.clone(),
        }
    }
}

/// Which client commands which control surface.
#[derive(Debug)]
pub struct ControlDelegations {
    map: ControlDelegationsMap,
}

impl View for ControlDelegations {
    type V = Map<ControlSurfaces, ClientId>;

    closed spec fn view(&self) -> Map<ControlSurfaces, ClientId> {
        self.map@
    }
}

impl ControlDelegations {
    pub fn new() -> (res: Self)
        ensures
            res@ == Map::<ControlSurfaces, ClientId>::empty(),
    {
        ControlDelegations { map: ControlDelegationsMap::new() }
    }

    pub fn delegate(&mut self, control: ControlSurfaces, to: ClientId)
        ensures
            final(self)@ == old(self)@.insert(control, to),
    {
        self.map.insert(control, to);
    }

    /// Gives every surface that nobody commands to `client`.
    pub fn set_empty_control_delegations_to(&mut self, client: ClientId)
        ensures
            final(self)@ == filled_with(old(self)@, client),
    {
        self.map.fill_empty(client);
    }

    /// Takes every surface away from `to`.
    pub fn remove_delegations(&mut self, to: &ClientId)
        ensures
            final(self)@ == without_client(old(self)@, *to),
    {
        self.map.remove_client(*to);
    }

    pub fn get_current_delegated_client(&self, control: &ControlSurfaces) -> (res: Option<&ClientId>)
        ensures
            res == if self@.contains_key(*control) {
                Some(&self@[*control])
            } else {
                None
            },
    {
        self.map.get(control)
    }

    pub fn inner(&self) -> (res: &ControlDelegationsMap)
        ensures
            res@ == self@,
    {
        &self.map
    }
}

/// No two clients share an id.
pub open spec fn unique_ids(s: Seq<ClientInfo>) -> bool {
    forall|i: int, j: int| 0 <= i < s.len() && 0 <= j < s.len() && i != j ==> s[i].id != s[j].id
}

/// Where the client with `id` stands in `s`, or -1.
#[verifier::opaque]
pub open spec fn id_position(s: Seq<ClientInfo>, id: ClientId) -> int {
    if exists|i: int| 0 <= i < s.len() && s[i].id == id {
        choose|i: int| 0 <= i < s.len() && s[i].id == id
    } else {
        -1
    }
}

/// `i` is the first place in `s` where `addr` occurs.
pub open spec fn first_at_addr(s: Seq<ClientInfo>, addr: NetAddress, i: int) -> bool {
    &&& 0 <= i < s.len()
    &&& s[i].addr == addr
    &&& forall|j: int| 0 <= j < i ==> s[j].addr != addr
}

/// `i` is the first place in `s` where a host stands.
pub open spec fn first_host_at(s: Seq<ClientInfo>, i: int) -> bool {
    &&& 0 <= i < s.len()
    &&& s[i].is_host
    &&& forall|j: int| 0 <= j < i ==> !s[j].is_host
}

/// Where the first client connected from `addr` stands in `s`, or -1.
#[verifier::opaque]
pub open spec fn addr_position(s: Seq<ClientInfo>, addr: NetAddress) -> int {
    if exists|i: int| first_at_addr(s, addr, i) {
        choose|i: int| first_at_addr(s, addr, i)
    } else {
        -1
    }
}

/// Where the first host stands in `s`, or -1.
#[verifier::opaque]
pub open spec fn host_position(s: Seq<ClientInfo>) -> int {
    if exists|i: int| first_host_at(s, i) {
        choose|i: int| first_host_at(s, i)
    } else {
        -1
    }
}

/// `id_position` finds a client with the id, and -1 only when there is none; with
/// unique ids, it finds the one client with the id.
pub proof fn lemma_id_position(s: Seq<ClientInfo>, id: ClientId)
    ensures
        -1 <= id_position(s, id) < s.len(),
        id_position(s, id) >= 0 ==> s[id_position(s, id)].id == id,
        id_position(s, id) < 0 ==> forall|i: int| 0 <= i < s.len() ==> s[i].id != id,
        unique_ids(s) ==> forall|i: int| 0 <= i < s.len() && s[i].id == id ==> id_position(s, id) == i,
{
    reveal(id_position);
}

/// With unique ids, the client with `id` at `i` is the one `id_position` finds.
pub proof fn lemma_unique_position(s: Seq<ClientInfo>, id: ClientId, i: int)
    requires
        unique_ids(s),
        0 <= i < s.len(),
        s[i].id == id,
    ensures
        id_position(s, id) == i,
{
    lemma_id_position(s, id);
}

/// `addr_position` finds the first client at `addr`, and -1 only when there is none.
pub proof fn lemma_addr_position(s: Seq<ClientInfo>, addr: NetAddress)
    ensures
        -1 <= addr_position(s, addr) < s.len(),
        addr_position(s, addr) >= 0 ==> first_at_addr(s, addr, addr_position(s, addr)),
        addr_position(s, addr) < 0 ==> forall|i: int| 0 <= i < s.len() ==> s[i].addr != addr,
        forall|i: int| first_at_addr(s, addr, i) ==> addr_position(s, addr) == i,
{
    reveal(addr_position);
    if exists|i: int| 0 <= i < s.len() && s[i].addr == addr {
        lemma_addr_min(s, addr, s.len() as int);
    }
    assert forall|i: int| first_at_addr(s, addr, i) implies addr_position(s, addr) == i by {
        let k = addr_position(s, addr);
        assert(first_at_addr(s, addr, k));
        if k < i {
            assert(s[k].addr != addr);
        } else if k > i {
            assert(s[i].addr != addr);
        }
    }
}

/// `host_position` finds the first host, and -1 only when there is none.
pub proof fn lemma_host_position(s: Seq<ClientInfo>)
    ensures
        -1 <= host_position(s) < s.len(),
        host_position(s) >= 0 ==> first_host_at(s, host_position(s)),
        host_position(s) < 0 ==> forall|i: int| 0 <= i < s.len() ==> !s[i].is_host,
        forall|i: int| first_host_at(s, i) ==> host_position(s) == i,
{
    reveal(host_position);
    if exists|i: int| 0 <= i < s.len() && s[i].is_host {
        lemma_host_min(s, s.len() as int);
    }
    assert forall|i: int| first_host_at(s, i) implies host_position(s) == i by {
        let k = host_position(s);
        assert(first_host_at(s, k));
        if k < i {
            assert(!s[k].is_host);
        } else if k > i {
            assert(!s[i].is_host);
        }
    }
}

proof fn lemma_addr_min(s: Seq<ClientInfo>, addr: NetAddress, n: int)
    requires
        0 <= n <= s.len(),
        exists|i: int| 0 <= i < n && s[i].addr == addr,
    ensures
        exists|i: int| first_at_addr(s, addr, i),
    decreases n,
{
    if exists|i: int| 0 <= i < n - 1 && s[i].addr == addr {
        lemma_addr_min(s, addr, n - 1);
    } else {
        assert(first_at_addr(s, addr, n - 1));
    }
}

proof fn lemma_host_min(s: Seq<ClientInfo>, n: int)
    requires
        0 <= n <= s.len(),
        exists|i: int| 0 <= i < n && s[i].is_host,
    ensures
        exists|i: int| first_host_at(s, i),
    decreases n,
{
    if exists|i: int| 0 <= i < n - 1 && s[i].is_host {
        lemma_host_min(s, n - 1);
    } else {
        assert(first_host_at(s, n - 1));
    }
}

/// The addresses of the clients in `s`, in order.
pub open spec fn addresses(s: Seq<ClientInfo>) -> Seq<NetAddress> {
    s.map_values(|c: ClientInfo| c.addr)
}

/// The addresses of the clients in `s` other than `addr`, in order.
pub open spec fn addresses_except(s: Seq<ClientInfo>, addr: NetAddress) -> Seq<NetAddress> {
    addresses(s).filter(|a: NetAddress| a != addr)
}

/// `new` is `old` after registering a fresh client at `addr` under `id`: the
/// client already registered under `id`, if any, is replaced in place, and the
/// client is appended otherwise.
pub open spec fn is_added(old: Seq<ClientInfo>, new: Seq<ClientInfo>, addr: NetAddress, id: ClientId) -> bool {
    let p = id_position(old, id);
    if p >= 0 {
        &&& new.len() == old.len()
        &&& is_fresh_client(new[p], addr, id)
        &&& forall|j: int| 0 <= j < old.len() && j != p ==> new[j] == old[j]
    } else {
        &&& new.len() == old.len() + 1
        &&& is_fresh_client(new[old.len() as int], addr, id)
        &&& forall|j: int| 0 <= j < old.len() ==> new[j] == old[j]
    }
}

/// `s` with its first client made host.
pub open spec fn with_first_host(s: Seq<ClientInfo>) -> Seq<ClientInfo> {
    s.update(0, ClientInfo { is_host: true, ..s[0] })
}

/// The delegations left after the client with `id` leaves: its surfaces are taken
/// away, then every free surface goes to the host among `rest`, if there is one.
pub open spec fn delegations_after_removal(
    d: Map<ControlSurfaces, ClientId>,
    id: ClientId,
    rest: Seq<ClientInfo>,
) -> Map<ControlSurfaces, ClientId> {
    if host_position(rest) >= 0 {
        filled_with(without_client(d, id), rest[host_position(rest)].id)
    } else {
        without_client(d, id)
    }
}

/// Changing fields other than the address keeps the address lists.
pub proof fn lemma_addresses_keep(s: Seq<ClientInfo>, p: int, c: ClientInfo)
    requires
        0 <= p < s.len(),
        c.addr == s[p].addr,
    ensures
        addresses(s.update(p, c)) == addresses(s),
        forall|a: NetAddress| addresses_except(s.update(p, c), a) == addresses_except(s, a),
{
    assert(addresses(s.update(p, c)) =~= addresses(s));
}

/// Changing a client other than in its host flag keeps the host where it was.
pub proof fn lemma_host_position_keep(s: Seq<ClientInfo>, p: int, c: ClientInfo)
    requires
        0 <= p < s.len(),
        c.is_host == s[p].is_host,
    ensures
        host_position(s.update(p, c)) == host_position(s),
{
    let t = s.update(p, c);
    lemma_host_position(s);
    lemma_host_position(t);
    let k = host_position(s);
    if k >= 0 {
        assert(first_host_at(t, k));
    } else {
        assert(forall|i: int| 0 <= i < t.len() ==> t[i].is_host == s[i].is_host);
    }
}

proof fn lemma_unique_remove(s: Seq<ClientInfo>, p: int)
    requires
        unique_ids(s),
        0 <= p < s.len(),
    ensures
        unique_ids(s.remove(p)),
{
    let r = s.remove(p);
    assert forall|i: int, j: int| 0 <= i < r.len() && 0 <= j < r.len() && i != j implies r[i].id
        != r[j].id by {
        let si = if i < p {
            i
        } else {
            i + 1
        };
        let sj = if j < p {
            j
        } else {
            j + 1
        };
        assert(r[i] == s[si]);
        assert(r[j] == s[sj]);
    }
}

pub proof fn lemma_unique_update(s: Seq<ClientInfo>, p: int, c: ClientInfo)
    requires
        unique_ids(s),
        0 <= p < s.len(),
        c.id == s[p].id,
    ensures
        unique_ids(s.update(p, c)),
{
    let r = s.update(p, c);
    assert forall|i: int, j: int| 0 <= i < r.len() && 0 <= j < r.len() && i != j implies r[i].id
        != r[j].id by {
        assert(r[i].id == s[i].id);
        assert(r[j].id == s[j].id);
    }
}

proof fn lemma_unique_push(s: Seq<ClientInfo>, c: ClientInfo)
    requires
        unique_ids(s),
        forall|i: int| 0 <= i < s.len() ==> s[i].id != c.id,
    ensures
        unique_ids(s.push(c)),
{
    let r = s.push(c);
    assert forall|i: int, j: int| 0 <= i < r.len() && 0 <= j < r.len() && i != j implies r[i].id
        != r[j].id by {
        if i < s.len() && j < s.len() {
            assert(r[i] == s[i] && r[j] == s[j]);
        }
    }
}

/// The clients connected to a session server, in the order they arrived, and
/// the delegation of the control surfaces among them.
pub struct Clients {
    client_map: Vec<ClientInfo>,
    control_delegations: ControlDelegations,
    id_incrementer: u32,
}

impl Clients {
    /// The connected clients, in the order they arrived.
    pub closed spec fn entries(&self) -> Seq<ClientInfo> {
        self.client_map@
    }

    /// Which client commands which surface.
    pub closed spec fn delegation_map(&self) -> Map<ControlSurfaces, ClientId> {
        self.control_delegations@
    }

    /// The id a client is given when none is requested.
    pub closed spec fn next_id(&self) -> ClientId {
        self.id_incrementer.wrapping_add(1)
    }

    /// No two clients share an id.
    pub open spec fn wf(&self) -> bool {
        unique_ids(self.entries())
    }

    pub fn new() -> (res: Self)
        ensures
            res.wf(),
            res.entries() == Seq::<ClientInfo>::empty(),
            res.delegation_map() == Map::<ControlSurfaces, ClientId>::empty(),
            res.next_id() == 1,
    {
        Clients { client_map: Vec::new(), control_delegations: ControlDelegations::new(), id_incrementer: 0 }
    }

    fn position_of(&self, id: ClientId) -> (res: Option<usize>)
        requires
            self.wf(),
        ensures
            match res {
                Some(i) => i < self.entries().len() && self.entries()[i as int].id == id
                    && id_position(self.entries(), id) == i,
                None => id_position(self.entries(), id) == -1 && forall|i: int|
                    0 <= i < self.entries().len() ==> self.entries()[i].id != id,
            },
    {
        let mut i: usize = 0;
        while i < self.client_map.len()
            invariant
                i <= self.client_map.len(),
                unique_ids(self.client_map@),
                forall|j: int| 0 <= j < i ==> self.client_map@[j].id != id,
            decreases self.client_map.len() - i,
        {
            if self.client_map[i].id == id {
                proof {
                    lemma_unique_position(self.client_map@, id, i as int);
                }
                return Some(i);
            }
            i = i + 1;
        }
        proof {
            lemma_id_position(self.client_map@, id);
        }
        None
    }

    fn position_of_addr(&self, addr: &NetAddress) -> (res: Option<usize>)
        ensures
            match res {
                Some(i) => i < self.entries().len() && addr_position(self.entries(), *addr) == i,
                None => addr_position(self.entries(), *addr) == -1,
            },
    {
        let mut i: usize = 0;
        while i < self.client_map.len()
            invariant
                i <= self.client_map.len(),
                forall|j: int| 0 <= j < i ==> self.client_map@[j].addr != *addr,
            decreases self.client_map.len() - i,
        {
            if self.client_map[i].addr == *addr {
                proof {
                    lemma_addr_position(self.client_map@, *addr);
                    assert(first_at_addr(self.client_map@, *addr, i as int));
                }
                return Some(i);
            }
            i = i + 1;
        }
        proof {
            lemma_addr_position(self.client_map@, *addr);
        }
        None
    }

    /// The addresses of every client other than `addr`.
    pub fn all_addresses_except(&self, addr: &NetAddress) -> (res: Vec<NetAddress>)
        ensures
            res@ == addresses_except(self.entries(), *addr),
    {
        let mut res: Vec<NetAddress> = Vec::new();
        let mut i: usize = 0;
        while i < self.client_map.len()
            invariant
                i <= self.client_map.len(),
                res@ == addresses_except(self.client_map@.take(i as int), *addr),
            decreases self.client_map.len() - i,
        {
            proof {
                let pre = self.client_map@.take(i as int);
                let post = self.client_map@.take(i + 1);
                assert(post =~= pre.push(self.client_map@[i as int]));
                assert(addresses(post) =~= addresses(pre).push(self.client_map@[i as int].addr));
                reveal_with_fuel(Seq::filter, 1);
                assert(addresses(post).drop_last() =~= addresses(pre));
            }
            let a = self.client_map[i].addr;
            if a != *addr {
                res.push(a);
            }
            i = i + 1;
        }
        assert(self.client_map@.take(i as int) =~= self.client_map@);
        res
    }

    /// The addresses of every client.
    pub fn all_addresses(&self) -> (res: Vec<NetAddress>)
        ensures
            res@ == addresses(self.entries()),
    {
        let mut res: Vec<NetAddress> = Vec::new();
        let mut i: usize = 0;
        while i < self.client_map.len()
            invariant
                i <= self.client_map.len(),
                res@ == addresses(self.client_map@.take(i as int)),
            decreases self.client_map.len() - i,
        {
            proof {
                let pre = self.client_map@.take(i as int);
                let post = self.client_map@.take(i + 1);
                assert(post =~= pre.push(self.client_map@[i as int]));
                assert(addresses(post) =~= addresses(pre).push(self.client_map@[i as int].addr));
            }
            res.push(self.client_map[i].addr);
            i = i + 1;
        }
        assert(self.client_map@.take(i as int) =~= self.client_map@);
        res
    }

    pub fn get_address_for(&self, client: &ClientId) -> (res: Option<NetAddress>)
        requires
            self.wf(),
        ensures
            res == if id_position(self.entries(), *client) >= 0 {
                Some(self.entries()[id_position(self.entries(), *client)].addr)
            } else {
                None
            },
    {
        match self.position_of(*client) {
            Some(i) => Some(self.client_map[i].addr),
            None => None,
        }
    }

    pub fn get(&self, client: &ClientId) -> (res: Option<&ClientInfo>)
        requires
            self.wf(),
        ensures
            res == if id_position(self.entries(), *client) >= 0 {
                Some(&self.entries()[id_position(self.entries(), *client)])
            } else {
                None
            },
    {
        match self.position_of(*client) {
            Some(i) => Some(&self.client_map[i]),
            None => None,
        }
    }

    /// Registers a client at `addr` under `id`, or under `next_id()` when none is
    /// given; a client already registered under that id is replaced in place.
    pub fn add(&mut self, addr: NetAddress, id: Option<ClientId>) -> (res: u32)
        requires
            old(self).wf(),
        ensures
            final(self).wf(),
            res == match id {
                Some(i) => i,
                None => old(self).next_id(),
            },
            final(self).next_id() == old(self).next_id(),
            final(self).delegation_map() == old(self).delegation_map(),
            is_added(old(self).entries(), final(self).entries(), addr, res),
    {
        let id = match id {
            Some(i) => i,
            None => self.id_incrementer.wrapping_add(1),
        };
        let info = ClientInfo::new(addr, id);
        match self.position_of(id) {
            Some(i) => {
                proof {
                    lemma_unique_update(self.client_map@, i as int, info);
                }
                self.client_map.set(i, info);
            },
            None => {
                proof {
                    lemma_unique_push(self.client_map@, info);
                }
                self.client_map.push(info);
            },
        }
        id
    }

    /// Removes the client with `id`, takes its surfaces away and gives every free
    /// surface to the host, if there is one.
    pub fn remove(&mut self, id: &ClientId) -> (res: Option<ClientInfo>)
        requires
            old(self).wf(),
        ensures
            final(self).wf(),
            final(self).next_id() == old(self).next_id(),
            ({
                let p = id_position(old(self).entries(), *id);
                &&& final(self).entries() == if p >= 0 {
                    old(self).entries().remove(p)
                } else {
                    old(self).entries()
                }
                &&& res == if p >= 0 {
                    Some(old(self).entries()[p])
                } else {
                    None
                }
            }),
            final(self).delegation_map() == delegations_after_removal(
                old(self).delegation_map(),
                *id,
                final(self).entries(),
            ),
    {
        let removed = match self.position_of(*id) {
            Some(i) => {
                proof {
                    lemma_unique_remove(self.client_map@, i as int);
                }
                Some(self.client_map.remove(i))
            },
            None => None,
        };
        self.control_delegations.remove_delegations(id);
        let host_id = match self.get_host() {
            Some(host) => Some(host.id),
            None => None,
        };
        if let Some(host_id) = host_id {
            self.control_delegations.set_empty_control_delegations_to(host_id);
        }
        removed
    }

    /// Removes the first client connected from `addr`, as `remove` does: the
    /// client whose connection was lost, which the server then announces as
    /// removed to everyone left.
    pub fn remove_from_addr(&mut self, addr: &NetAddress) -> (res: Option<ClientInfo>)
        requires
            old(self).wf(),
        ensures
            final(self).wf(),
            final(self).next_id() == old(self).next_id(),
            ({
                let p = addr_position(old(self).entries(), *addr);
                if p >= 0 {
                    &&& final(self).entries() == old(self).entries().remove(p)
                    &&& res == Some(old(self).entries()[p])
                    &&& final(self).delegation_map() == delegations_after_removal(
                        old(self).delegation_map(),
                        old(self).entries()[p].id,
                        final(self).entries(),
                    )
                } else {
                    &&& final(self).entries() == old(self).entries()
                    &&& res is None
                    &&& final(self).delegation_map() == old(self).delegation_map()
                }
            }),
    {
        match self.position_of_addr(addr) {
            Some(i) => {
                let id = self.client_map[i].id;
                proof {
                    lemma_unique_position(self.client_map@, id, i as int);
                }
                self.remove(&id)
            },
            None => None,
        }
    }

    pub fn all(&self) -> (res: &Vec<ClientInfo>)
        ensures
            res@ == self.entries(),
    {
        &self.client_map
    }

    pub fn len(&self) -> (n: usize)
        ensures
            n == self.entries().len(),
    {
        self.client_map.len()
    }

    /// Marks the client with `client` as observing or not; `None` when there is no such client.
    pub fn make_observer(&mut self, client: &ClientId, observing: bool) -> (res: Option<()>)
        requires
            old(self).wf(),
        ensures
            final(self).wf(),
            final(self).next_id() == old(self).next_id(),
            final(self).delegation_map() == old(self).delegation_map(),
            ({
                let p = id_position(old(self).entries(), *client);
                if p >= 0 {
                    &&& res is Some
                    &&& final(self).entries() == old(self).entries().update(
                        p,
                        ClientInfo { is_observer: observing, ..old(self).entries()[p] },
                    )
                } else {
                    &&& res is None
                    &&& final(self).entries() == old(self).entries()
                }
            }),
    {
        let i = match self.position_of(*client) {
            Some(i) => i,
            None => return None,
        };
        let mut info = self.client_map.remove(i);
        info.is_observer = observing;
        self.client_map.insert(i, info);
        proof {
            lemma_unique_update(
                old(self).client_map@,
                i as int,
                ClientInfo { is_observer: observing, ..old(self).client_map@[i as int] },
            );
            assert(self.client_map@ =~= old(self).client_map@.update(
                i as int,
                ClientInfo { is_observer: observing, ..old(self).client_map@[i as int] },
            ));
        }
        Some(())
    }

    /// Makes the first client the host and gives it every surface nobody commands.
    pub fn make_first_host(&mut self) -> (res: Option<&ClientInfo>)
        requires
            old(self).wf(),
        ensures
            final(self).wf(),
            final(self).next_id() == old(self).next_id(),
            old(self).entries().len() == 0 ==> {
                &&& res is None
                &&& final(self).entries() == old(self).entries()
                &&& final(self).delegation_map() == old(self).delegation_map()
            },
            old(self).entries().len() > 0 ==> {
                let first = old(self).entries()[0];
                &&& final(self).entries() == with_first_host(old(self).entries())
                &&& final(self).delegation_map() == filled_with(old(self).delegation_map(), first.id)
                &&& res == Some(&final(self).entries()[0])
            },
    {
        if self.client_map.len() == 0 {
            return None;
        }
        let mut info = self.client_map.remove(0);
        info.is_host = true;
        let id = info.id;
        self.client_map.insert(0, info);
        proof {
            lemma_unique_update(
                old(self).client_map@,
                0,
                ClientInfo { is_host: true, ..old(self).client_map@[0] },
            );
            assert(self.client_map@ =~= old(self).client_map@.update(
                0,
                ClientInfo { is_host: true, ..old(self).client_map@[0] },
            ));
        }
        self.control_delegations.set_empty_control_delegations_to(id);
        Some(&self.client_map[0])
    }

    /// Stores the name of the client with `client`; the result is always `None`.
    pub fn set_name(&mut self, client: &ClientId, name: String) -> (res: Option<()>)
        requires
            old(self).wf(),
        ensures
            final(self).wf(),
            final(self).next_id() == old(self).next_id(),
            final(self).delegation_map() == old(self).delegation_map(),
            res is None,
            ({
                let p = id_position(old(self).entries(), *client);
                if p >= 0 {
                    final(self).entries() == old(self).entries().update(
                        p,
                        ClientInfo { name: name, ..old(self).entries()[p] },
                    )
                } else {
                    final(self).entries() == old(self).entries()
                }
            }),
    {
        let i = match self.position_of(*client) {
            Some(i) => i,
            None => return None,
        };
        let mut info = self.client_map.remove(i);
        info.name = name;
        self.client_map.insert(i, info);
        proof {
            lemma_unique_update(
                old(self).client_map@,
                i as int,
                ClientInfo { name: name, ..old(self).client_map@[i as int] },
            );
            assert(self.client_map@ =~= old(self).client_map@.update(
                i as int,
                ClientInfo { name: name, ..old(self).client_map@[i as int] },
            ));
        }
        None
    }

    /// The first client that is a host.
    pub fn get_host(&self) -> (res: Option<&ClientInfo>)
        ensures
            res == if host_position(self.entries()) >= 0 {
                Some(&self.entries()[host_position(self.entries())])
            } else {
                None
            },
    {
        let mut i: usize = 0;
        while i < self.client_map.len()
            invariant
                i <= self.client_map.len(),
                forall|j: int| 0 <= j < i ==> !self.client_map@[j].is_host,
            decreases self.client_map.len() - i,
        {
            if self.client_map[i].is_host {
                proof {
                    lemma_host_position(self.client_map@);
                    assert(first_host_at(self.client_map@, i as int));
                }
                return Some(&self.client_map[i]);
            }
            i = i + 1;
        }
        proof {
            lemma_host_position(self.client_map@);
        }
        None
    }

    /// The id of the first client connected from `addr`.
    pub fn get_id_for(&self, addr: NetAddress) -> (res: Option<ClientId>)
        ensures
            res == if addr_position(self.entries(), addr) >= 0 {
                Some(self.entries()[addr_position(self.entries(), addr)].id)
            } else {
                None
            },
    {
        match self.position_of_addr(&addr) {
            Some(i) => Some(self.client_map[i].id),
            None => None,
        }
    }

    pub fn delegate(&mut self, control: ControlSurfaces, to: ClientId)
        ensures
            final(self).entries() == old(self).entries(),
            final(self).next_id() == old(self).next_id(),
            final(self).wf() == old(self).wf(),
            final(self).delegation_map() == old(self).delegation_map().insert(control, to),
    {
        self.control_delegations.delegate(control, to);
    }

    pub fn delegations(&self) -> (res: &ControlDelegationsMap)
        ensures
            res@ == self.delegation_map(),
    {
        self.control_delegations.inner()
    }

    pub fn get_current_delegated_client(&self, control: &ControlSurfaces) -> (res: Option<&ClientId>)
        ensures
            res == if self.delegation_map().contains_key(*control) {
                Some(&self.delegation_map()[*control])
            } else {
                None
            },
    {
        self.control_delegations.get_current_delegated_client(control)
    }
}

} // verus!
