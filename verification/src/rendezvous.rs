use bimap::BiHashMap;
use std::time::{Instant, SystemTime, UNIX_EPOCH};
use vstd::prelude::*;

use crate::assoc::{
    insert_pair, key_position, lemma_key_position, lemma_lookup_insert,
    lemma_same_keys, lookup, remove_key, unique_keys, AssocList, IpKey,
};
use crate::clock::{elapsed_secs, instant_now};
use crate::hosted::{ServerInfo, Servers};
use crate::net_address::NetAddress;
use crate::payloads::{Payloads, PayloadsView};
use crate::random_ids::{get_random_id, is_random_id, SESSION_ID_LENGTH};
use crate::transfer::{actions, push_send_to, send_to, TransferAction, TransferActionView};

verus! {

/// An endpoint as a tuple of integers, by which the hosting table is keyed.
pub type AddrKey = (u128, u16, bool);

pub open spec fn addr_key(a: NetAddress) -> AddrKey {
    (a.ip, a.port, a.is_v6)
}

fn make_addr_key(a: NetAddress) -> (res: AddrKey)
    ensures
        res == addr_key(a),
{
    (a.ip, a.port, a.is_v6)
}

#[verifier::external_type_specification]
#[verifier::external_body]
#[verifier::reject_recursive_types(L)]
#[verifier::reject_recursive_types(R)]
#[verifier::reject_recursive_types(LS)]
#[verifier::reject_recursive_types(RS)]
pub struct ExBiHashMap<L, R, LS, RS>(BiHashMap<L, R, LS, RS>);

/// The table of hosting endpoints and their session ids.
pub type HostingTable = BiHashMap<AddrKey, String>;

/// The pairs a hosting table holds: each hosting endpoint with its session id.
pub uninterp spec fn hosting_pairs(m: HostingTable) -> Map<AddrKey, Seq<char>>;

/// `m` after `bimap`'s `insert` of `(k, v)`: every pair with the left value
/// `k` or the right value `v` gives way to the new pair.
pub open spec fn bimap_inserted(m: Map<AddrKey, Seq<char>>, k: AddrKey, v: Seq<char>) -> Map<AddrKey, Seq<char>> {
    Map::new(|x: AddrKey| m.dom().contains(x) && x != k && m[x] != v, |x: AddrKey| m[x]).insert(k, v)
}

/// `m` without the pairs whose right value is `v`.
pub open spec fn bimap_without_right(m: Map<AddrKey, Seq<char>>, v: Seq<char>) -> Map<AddrKey, Seq<char>> {
    Map::new(|x: AddrKey| m.dom().contains(x) && m[x] != v, |x: AddrKey| m[x])
}

/// An empty table made with `BiHashMap::new`.
#[verifier::external_body]
fn bimap_new() -> (res: HostingTable)
    ensures
        hosting_pairs(res).is_empty(),
{
    BiHashMap::new()
}

/// `BiHashMap::insert`: the pair `(k, v)` goes in, and any pair with the left
/// value `k` or the right value `v` leaves; what was overwritten is dropped.
#[verifier::external_body]
fn bimap_insert(m: &mut HostingTable, k: AddrKey, v: String)
    ensures
        hosting_pairs(*final(m)) == bimap_inserted(hosting_pairs(*old(m)), k, v@),
{
    m.insert(k, v);
}

/// `BiHashMap::contains_left`: whether a pair has the left value `k`.
#[verifier::external_body]
fn bimap_contains_left(m: &HostingTable, k: &AddrKey) -> (res: bool)
    ensures
        res == hosting_pairs(*m).dom().contains(*k),
{
    m.contains_left(k)
}

/// `BiHashMap::get_by_left`: the right value paired with `k`, copied.
#[verifier::external_body]
fn bimap_get_by_left(m: &HostingTable, k: &AddrKey) -> (res: Option<String>)
    ensures
        match res {
            Some(v) => hosting_pairs(*m).dom().contains(*k) && v@ == hosting_pairs(*m)[*k],
            None => !hosting_pairs(*m).dom().contains(*k),
        },
{
    m.get_by_left(k).cloned()
}

/// `BiHashMap::remove_by_right`: the pair with the right value `v` leaves;
/// the pair removed is dropped.
#[verifier::external_body]
fn bimap_remove_by_right(m: &mut HostingTable, v: &String)
    ensures
        hosting_pairs(*final(m)) == bimap_without_right(hosting_pairs(*old(m)), v@),
{
    m.remove_by_right(v);
}

/// `BiHashMap::len`: how many pairs the table holds.
#[verifier::external_body]
fn bimap_len(m: &HostingTable) -> (res: usize)
    ensures
        res == hosting_pairs(*m).len(),
{
    m.len()
}

/// Where a self-hosted session's host can be reached.
pub struct SessionInfo {
    pub hoster_addr: NetAddress,
    pub hoster_endpoints: Vec<NetAddress>,
}

impl SessionInfo {
    pub fn new(hoster_addr: NetAddress, hoster_endpoints: Vec<NetAddress>) -> (res: Self)
        ensures
            res.hoster_addr == hoster_addr,
            res.hoster_endpoints@ == hoster_endpoints@,
    {
        SessionInfo { hoster_addr, hoster_endpoints }
    }
}

/// The self-hosted sessions the rendezvous server knows: who hosts which
/// session, which session each client joined, and how to reach each host.
pub struct Sessions {
    hosting_sessions: HostingTable,
    connected_sessions: AssocList<NetAddress, String>,
    session_info: AssocList<String, SessionInfo>,
}

/// The endpoints a party can be reached at: its local endpoint if known, then
/// the address it was seen from.
pub open spec fn endpoints_of(local_endpoint: Option<NetAddress>, addr: NetAddress) -> Seq<NetAddress> {
    match local_endpoint {
        Some(l) => seq![l, addr],
        None => seq![addr],
    }
}

fn make_endpoints(local_endpoint: Option<NetAddress>, addr: NetAddress) -> (res: Vec<NetAddress>)
    ensures
        res@ == endpoints_of(local_endpoint, addr),
{
    let mut res: Vec<NetAddress> = Vec::new();
    if let Some(l) = local_endpoint {
        res.push(l);
    }
    res.push(addr);
    assert(res@ =~= endpoints_of(local_endpoint, addr));
    res
}

impl Sessions {
    /// Each hosting endpoint with its session id.
    pub closed spec fn hosting(&self) -> Map<AddrKey, Seq<char>> {
        hosting_pairs(self.hosting_sessions)
    }

    /// The session each client joined.
    pub closed spec fn joined(&self) -> Seq<(NetAddress, String)> {
        self.connected_sessions.pairs()
    }

    /// How to reach the host of each session.
    pub closed spec fn infos(&self) -> Seq<(Seq<char>, SessionInfo)> {
        self.session_info.pairs()
    }

    pub open spec fn wf(&self) -> bool {
        &&& unique_keys(self.joined())
        &&& unique_keys(self.infos())
    }

    pub fn new() -> (res: Self)
        ensures
            res.wf(),
            res.hosting() == Map::<AddrKey, Seq<char>>::empty(),
            res.joined() == Seq::<(NetAddress, String)>::empty(),
            res.infos() == Seq::<(Seq<char>, SessionInfo)>::empty(),
    {
        Sessions {
            hosting_sessions: bimap_new(),
            connected_sessions: AssocList::new(),
            session_info: AssocList::new(),
        }
    }

    /// Opens a session hosted at `addr`, reachable at `endpoints`, under a new
    /// random id, which is returned.
    pub fn map_session_id_to_socket_info(&mut self, addr: NetAddress, endpoints: Vec<NetAddress>) -> (id: String)
        requires
            old(self).wf(),
        ensures
            final(self).wf(),
            is_random_id(id@, SESSION_ID_LENGTH as nat),
            final(self).hosting() == bimap_inserted(old(self).hosting(), addr_key(addr), id@),
            final(self).joined() == old(self).joined(),
            ({
                let p = key_position(final(self).infos(), id@);
                &&& p >= 0
                &&& final(self).infos() == insert_pair(old(self).infos(), id@, final(self).infos()[p].1)
                &&& final(self).infos()[p].1.hoster_addr == addr
                &&& final(self).infos()[p].1.hoster_endpoints@ == endpoints@
            }),
    {
        let id = get_random_id(SESSION_ID_LENGTH);
        // Point the session id to the hosting address
        bimap_insert(&mut self.hosting_sessions, make_addr_key(addr), id.clone());
        // Point the session id to all possible connectable endpoints
        let info = SessionInfo::new(addr, endpoints);
        let ghost iv = info;
        let ghost before = self.infos();
        self.session_info.insert(id.clone(), info);
        proof {
            lemma_key_position(before, id@);
            lemma_key_position(self.infos(), id@);
            let q = key_position(before, id@);
            let idx = if q >= 0 {
                q
            } else {
                before.len() as int
            };
            assert(self.infos()[idx] == (id@, iv));
            assert(key_position(self.infos(), id@) == idx);
        }
        id
    }

    pub fn get_session_connection_info(&self, session_id: &String) -> (res: Option<&SessionInfo>)
        requires
            self.wf(),
        ensures
            match lookup(self.infos(), session_id@) {
                Some(v) => res == Some(&v),
                None => res is None,
            },
    {
        self.session_info.get(session_id)
    }

    pub fn add_client_to_session(&mut self, session_id: String, addr: NetAddress)
        requires
            old(self).wf(),
        ensures
            final(self).wf(),
            final(self).joined() == insert_pair(old(self).joined(), addr, session_id),
            final(self).hosting() == old(self).hosting(),
            final(self).infos() == old(self).infos(),
    {
        self.connected_sessions.insert(addr, session_id);
    }

    pub fn remove_client_from_session(&mut self, addr: &NetAddress) -> (res: Option<String>)
        requires
            old(self).wf(),
        ensures
            final(self).wf(),
            final(self).joined() == remove_key(old(self).joined(), *addr),
            res == lookup(old(self).joined(), *addr),
            final(self).hosting() == old(self).hosting(),
            final(self).infos() == old(self).infos(),
    {
        self.connected_sessions.remove(addr)
    }

    pub fn socket_is_hosting(&self, socket: &NetAddress) -> (res: bool)
        ensures
            res == self.hosting().dom().contains(addr_key(*socket)),
    {
        bimap_contains_left(&self.hosting_sessions, &make_addr_key(*socket))
    }

    /// Closes the session `session_id`: its host, its clients and how to
    /// reach it are forgotten.
    pub fn close_session(&mut self, session_id: &String)
        requires
            old(self).wf(),
        ensures
            final(self).wf(),
            final(self).hosting() == bimap_without_right(old(self).hosting(), session_id@),
            final(self).joined() == old(self).joined().filter(
                |e: (NetAddress, String)| e.1@ != session_id@,
            ),
            final(self).infos() == remove_key(old(self).infos(), session_id@),
    {
        bimap_remove_by_right(&mut self.hosting_sessions, session_id);
        let ghost h = self.hosting();
        let ghost all = self.joined();
        let mut i: usize = 0;
        let ghost mut j: int = 0;
        while i < self.connected_sessions.len()
            invariant
                0 <= j <= all.len(),
                i == all.take(j).filter(|e: (NetAddress, String)| e.1@ != session_id@).len(),
                self.joined() == all.take(j).filter(|e: (NetAddress, String)| e.1@ != session_id@) + all.subrange(j, all.len() as int),
                self.connected_sessions.wf(),
                self.session_info == old(self).session_info,
                self.hosting() == h,
            decreases self.joined().len() - i,
        {
            assert(self.joined()[i as int] == all[j]);
            proof {
                reveal_with_fuel(Seq::filter, 1);
                assert(all.take(j + 1).drop_last() =~= all.take(j));
                assert(all.take(j + 1).last() == all[j]);
            }
            if *self.connected_sessions.value_at(i) == *session_id {
                self.connected_sessions.remove_at(i);
                proof {
                    assert(self.joined() =~= all.take(j + 1).filter(|e: (NetAddress, String)| e.1@ != session_id@) + all.subrange(
                        j + 1,
                        all.len() as int,
                    ));
                }
            } else {
                i = i + 1;
                proof {
                    assert(self.joined() =~= all.take(j + 1).filter(|e: (NetAddress, String)| e.1@ != session_id@) + all.subrange(
                        j + 1,
                        all.len() as int,
                    ));
                }
            }
            proof {
                j = j + 1;
            }
        }
        proof {
            if j < all.len() {
                assert(self.joined().len() > i);
            }
            assert(all.take(j) =~= all);
            assert(self.joined() =~= all.filter(|e: (NetAddress, String)| e.1@ != session_id@));
        }
        self.session_info.remove(session_id);
    }

    /// Closes the session hosted at `addr`, if any, and returns its id.
    pub fn close_session_by_addr(&mut self, addr: &NetAddress) -> (res: Option<String>)
        requires
            old(self).wf(),
        ensures
            final(self).wf(),
            match res {
                Some(id) => {
                    &&& old(self).hosting().dom().contains(addr_key(*addr))
                    &&& id@ == old(self).hosting()[addr_key(*addr)]
                    &&& final(self).hosting() == bimap_without_right(old(self).hosting(), id@)
                    &&& final(self).joined() == old(self).joined().filter(
                        |e: (NetAddress, String)| e.1@ != id@,
                    )
                    &&& final(self).infos() == remove_key(old(self).infos(), id@)
                },
                None => {
                    &&& !old(self).hosting().dom().contains(addr_key(*addr))
                    &&& final(self).hosting() == old(self).hosting()
                    &&& final(self).joined() == old(self).joined()
                    &&& final(self).infos() == old(self).infos()
                },
            },
    {
        match bimap_get_by_left(&self.hosting_sessions, &make_addr_key(*addr)) {
            Some(session_id) => {
                self.close_session(&session_id);
                Some(session_id)
            },
            None => None,
        }
    }

    pub fn get_session_count(&self) -> (res: usize)
        ensures
            res == self.hosting().len(),
    {
        bimap_len(&self.hosting_sessions)
    }

    pub fn get_user_count(&self) -> (res: usize)
        ensures
            res == self.joined().len(),
    {
        self.connected_sessions.len()
    }
}

/// How many requests an IP address may make in an hour before it is ignored.
pub const MAX_REQUESTS_PER_HOUR: u32 = 300;

/// The time since the Unix epoch in nanoseconds, by `std::time::SystemTime`
/// and `Duration::as_nanos`; none when the clock reads before the epoch. It
/// depends on the clock, so nothing is promised of it.
#[verifier::external_body]
fn unix_nanos() -> Option<u128> {
    match SystemTime::now().duration_since(UNIX_EPOCH) {
        Ok(d) => Some(d.as_nanos()),
        Err(_) => None,
    }
}

/// The hour number of a time `nanos` nanoseconds after the epoch: the time
/// in seconds, fractions included, times 0.000277778, rounded down, and at
/// most the largest `u32`.
pub open spec fn hour_of_nanos(nanos: u128) -> u32 {
    let h = nanos * 277778 / 1_000_000_000_000_000_000;
    if h > u32::MAX {
        u32::MAX
    } else {
        h as u32
    }
}

pub fn hour_from_nanos(nanos: u128) -> (res: u32)
    ensures
        res == hour_of_nanos(nanos),
{
    match nanos.checked_mul(277778) {
        Some(p) => {
            let h: u128 = p / 1_000_000_000_000_000_000;
            if h > u32::MAX as u128 {
                u32::MAX
            } else {
                h as u32
            }
        },
        None => {
            assert(nanos * 277778 / 1_000_000_000_000_000_000 > u32::MAX) by (nonlinear_arith)
                requires
                    nanos * 277778 > u128::MAX,
            ;
            u32::MAX
        },
    }
}

/// The current hour number, by the clock: see `hour_of_nanos`; a clock that
/// reads before the epoch counts as hour 0.
pub fn get_system_hour() -> (res: u32)
    ensures
        exists|nanos: u128| res == #[trigger] hour_of_nanos(nanos),
{
    match unix_nanos() {
        Some(nanos) => hour_from_nanos(nanos),
        None => {
            assert(hour_of_nanos(0) == 0);
            0
        },
    }
}

/// How many requests came from an address in the hour it counts.
pub struct CounterInfo {
    pub count: u32,
    pub hour: u32,
    last_request: Instant,
}

/// Request counts and short random names per IP address.
pub struct Counters {
    ip_ids: AssocList<IpKey, String>,
    ip_request_count: AssocList<IpKey, CounterInfo>,
    last_hour: u32,
}

impl Counters {
    pub closed spec fn ids(&self) -> Seq<(IpKey, String)> {
        self.ip_ids.pairs()
    }

    /// The count and hour kept for each address.
    pub closed spec fn counts(&self) -> Seq<(IpKey, (u32, u32))> {
        self.ip_request_count.pairs().map_values(|e: (IpKey, CounterInfo)| (e.0, (e.1.count, e.1.hour)))
    }

    /// The hour the counters were made in.
    pub closed spec fn start_hour(&self) -> u32 {
        self.last_hour
    }

    pub open spec fn wf(&self) -> bool {
        &&& unique_keys(self.ids())
        &&& unique_keys(self.counts())
    }

    proof fn lemma_counts(&self)
        ensures
            self.counts().len() == self.ip_request_count.pairs().len(),
            forall|i: int|
                0 <= i < self.counts().len() ==> #[trigger] self.counts()[i] == (
                    self.ip_request_count.pairs()[i].0,
                    (self.ip_request_count.pairs()[i].1.count, self.ip_request_count.pairs()[i].1.hour),
                ),
            unique_keys(self.counts()) == self.ip_request_count.wf(),
            self.ip_request_count.wf() ==> forall|k: IpKey| #[trigger] key_position(self.counts(), k)
                == key_position(self.ip_request_count.pairs(), k),
    {
        let c = self.ip_request_count.pairs();
        if self.ip_request_count.wf() {
            assert forall|k: IpKey| #[trigger] key_position(self.counts(), k) == key_position(c, k) by {
                lemma_same_keys(c, self.counts(), k);
            }
        }
        if unique_keys(self.counts()) != unique_keys(c) {
            if unique_keys(c) {
                let (i, j) = choose|i: int, j: int|
                    0 <= i < c.len() && 0 <= j < c.len() && i != j && self.counts()[i].0 == self.counts()[j].0;
                assert(c[i].0 == c[j].0);
            } else {
                let (i, j) = choose|i: int, j: int| 0 <= i < c.len() && 0 <= j < c.len() && i != j && c[i].0 == c[j].0;
                assert(self.counts()[i].0 == self.counts()[j].0);
            }
        }
    }

    /// Counters that start counting in `hour`.
    pub fn new_at(hour: u32) -> (res: Self)
        ensures
            res.wf(),
            res.ids().len() == 0,
            res.counts().len() == 0,
            res.start_hour() == hour,
    {
        let res = Counters { ip_ids: AssocList::new(), ip_request_count: AssocList::new(), last_hour: hour };
        proof {
            res.lemma_counts();
        }
        res
    }

    /// Counters that start counting in the current hour, by the clock.
    pub fn new() -> (res: Self)
        ensures
            res.wf(),
            res.ids().len() == 0,
            res.counts().len() == 0,
            exists|nanos: u128| res.start_hour() == #[trigger] hour_of_nanos(nanos),
    {
        let hour = get_system_hour();
        Counters::new_at(hour)
    }

    /// The short name of `addr`; one is drawn at random the first time.
    pub fn get_id_for_addr(&mut self, addr: &IpKey) -> (res: String)
        requires
            old(self).wf(),
        ensures
            final(self).wf(),
            final(self).counts() == old(self).counts(),
            final(self).start_hour() == old(self).start_hour(),
            match lookup(old(self).ids(), *addr) {
                Some(id) => res == id && final(self).ids() == old(self).ids(),
                None => is_random_id(res@, 5) && final(self).ids() == insert_pair(old(self).ids(), *addr, res),
            },
    {
        match self.ip_ids.get(addr) {
            Some(id) => id.clone(),
            None => {
                let id = get_random_id(5);
                self.ip_ids.insert(*addr, id.clone());
                proof {
                    self.lemma_counts();
                }
                id
            },
        }
    }

    /// Counts a request from `addr` in hour `hour`: a new address starts at
    /// one; a known one is reset to zero in `hour` when its count is not from
    /// the hour the counters started in, and is otherwise counted.
    pub fn increment_request_counter_at(&mut self, addr: IpKey, hour: u32)
        requires
            old(self).wf(),
            match lookup(old(self).counts(), addr) {
                Some(c) => c.1 == old(self).start_hour() ==> c.0 < u32::MAX,
                None => true,
            },
        ensures
            final(self).wf(),
            final(self).ids() == old(self).ids(),
            final(self).start_hour() == old(self).start_hour(),
            final(self).counts() == counter_step(old(self).counts(), addr, old(self).start_hour(), hour),
    {
        proof {
            self.lemma_counts();
            lemma_key_position(self.ip_request_count.pairs(), addr);
            lemma_key_position(self.counts(), addr);
        }
        let ghost before = self.ip_request_count.pairs();
        match self.ip_request_count.position(&addr) {
            Some(i) => {
                let c = self.ip_request_count.value_at(i);
                proof {
                    assert(key_position(self.counts(), addr) == i);
                    assert(self.counts()[i as int] == (addr, (c.count, c.hour)));
                }
                let (count, h) = if c.hour != self.last_hour {
                    (0u32, hour)
                } else {
                    (c.count + 1, c.hour)
                };
                self.ip_request_count.replace_at(i, CounterInfo { count, hour: h, last_request: instant_now() });
                proof {
                    self.lemma_counts();
                    assert(self.counts() =~= old(self).counts().update(i as int, (addr, (count, h))));
                }
            },
            None => {
                self.ip_request_count.insert(addr, CounterInfo { count: 1, hour, last_request: instant_now() });
                proof {
                    self.lemma_counts();
                    assert(self.counts() =~= old(self).counts().push((addr, (1u32, hour))));
                }
            },
        }
    }

    /// Counts a request from `addr` in the current hour, by the clock: see
    /// `increment_request_counter_at`.
    pub fn increment_request_counter(&mut self, addr: IpKey)
        requires
            old(self).wf(),
            match lookup(old(self).counts(), addr) {
                Some(c) => c.1 == old(self).start_hour() ==> c.0 < u32::MAX,
                None => true,
            },
        ensures
            final(self).wf(),
            final(self).ids() == old(self).ids(),
            final(self).start_hour() == old(self).start_hour(),
            exists|hour: u32|
                final(self).counts() == #[trigger] counter_step(old(self).counts(), addr, old(self).start_hour(), hour),
    {
        let hour = get_system_hour();
        self.increment_request_counter_at(addr, hour);
        assert(self.counts() == counter_step(old(self).counts(), addr, old(self).start_hour(), hour));
    }

    /// How many requests `addr` made in the hour counted; 0 if none.
    pub fn get_request_count_for(&self, addr: &IpKey) -> (res: u32)
        requires
            self.wf(),
        ensures
            res == match lookup(self.counts(), *addr) {
                Some(c) => c.0,
                None => 0,
            },
    {
        proof {
            self.lemma_counts();
            lemma_key_position(self.ip_request_count.pairs(), *addr);
            lemma_key_position(self.counts(), *addr);
        }
        match self.ip_request_count.get(addr) {
            Some(c) => c.count,
            None => 0,
        }
    }

    /// The seconds since the last request from `addr`, by the clock; 0 for an
    /// address never seen.
    pub fn get_last_request_seconds(&self, addr: &IpKey) -> (res: u64)
        requires
            self.wf(),
        ensures
            lookup(self.counts(), *addr) is None ==> res == 0,
    {
        proof {
            self.lemma_counts();
            lemma_key_position(self.ip_request_count.pairs(), *addr);
            lemma_key_position(self.counts(), *addr);
        }
        match self.ip_request_count.get(addr) {
            Some(c) => elapsed_secs(&c.last_request),
            None => 0,
        }
    }

    /// Forgets the addresses whose count is zero.
    pub fn cleanup(&mut self)
        requires
            old(self).wf(),
        ensures
            final(self).wf(),
            final(self).counts() == old(self).counts().filter(|e: (IpKey, (u32, u32))| e.1.0 > 0),
            final(self).ids() == old(self).ids(),
            final(self).start_hour() == old(self).start_hour(),
    {
        proof {
            self.lemma_counts();
        }
        let ghost all = self.counts();
        let mut i: usize = 0;
        let ghost mut j: int = 0;
        while i < self.ip_request_count.len()
            invariant
                0 <= j <= all.len(),
                i == all.take(j).filter(|e: (IpKey, (u32, u32))| e.1.0 > 0).len(),
                self.counts() == all.take(j).filter(|e: (IpKey, (u32, u32))| e.1.0 > 0) + all.subrange(
                    j,
                    all.len() as int,
                ),
                self.ip_request_count.wf(),
                self.ip_ids == old(self).ip_ids,
                self.last_hour == old(self).last_hour,
            decreases self.counts().len() - i,
        {
            proof {
                self.lemma_counts();
                reveal_with_fuel(Seq::filter, 1);
                assert(all.take(j + 1).drop_last() =~= all.take(j));
                assert(all.take(j + 1).last() == all[j]);
            }
            assert(self.counts()[i as int] == all[j]);
            let ghost cur = self.counts();
            let ghost cur_pairs = self.ip_request_count.pairs();
            if self.ip_request_count.value_at(i).count == 0 {
                self.ip_request_count.remove_at(i);
                proof {
                    self.lemma_counts();
                    assert(self.ip_request_count.pairs() == cur_pairs.remove(i as int));
                    assert(self.counts() =~= cur.remove(i as int));
                    assert(self.counts() =~= all.take(j + 1).filter(|e: (IpKey, (u32, u32))| e.1.0 > 0)
                        + all.subrange(j + 1, all.len() as int));
                }
            } else {
                i = i + 1;
                proof {
                    assert(self.counts() =~= all.take(j + 1).filter(|e: (IpKey, (u32, u32))| e.1.0 > 0)
                        + all.subrange(j + 1, all.len() as int));
                }
            }
            proof {
                j = j + 1;
            }
        }
        proof {
            self.lemma_counts();
            if j < all.len() {
                assert(self.counts().len() > i);
            }
            assert(all.take(j) =~= all);
            assert(self.counts() =~= all.filter(|e: (IpKey, (u32, u32))| e.1.0 > 0));
        }
    }
}

/// The counts after a request from `addr` in hour `hour`, for counters that
/// started in hour `start`: a new address starts at one; a known one is reset
/// to zero in `hour` when its count is not from `start`, and is otherwise
/// counted.
pub open spec fn counter_step(counts: Seq<(IpKey, (u32, u32))>, addr: IpKey, start: u32, hour: u32) -> Seq<
    (IpKey, (u32, u32)),
> {
    insert_pair(
        counts,
        addr,
        match lookup(counts, addr) {
            Some(c) => if c.1 != start {
                (0u32, hour)
            } else {
                ((c.0 + 1) as u32, c.1)
            },
            None => (1u32, hour),
        },
    )
}

/// What the rendezvous server is told by its environment: how many clients
/// hosted sessions may hold, and the hosting server's address and name.
pub struct RendezvousConfig {
    pub max_client_connections: usize,
    pub hoster_addr: NetAddress,
    pub hoster_hostname: String,
}

/// `post` holds what `pre` held, with `addr` now mapped to a text equal to
/// `text`.
pub open spec fn inserted_text<K>(pre: Seq<(K, String)>, post: Seq<(K, String)>, k: K, text: Seq<char>) -> bool {
    let p = key_position(post, k);
    &&& p >= 0
    &&& post == insert_pair(pre, k, post[p].1)
    &&& post[p].1@ == text
}

/// Handles a message from `addr` at the rendezvous server: a client asking to
/// join a self-hosted session and its host are each told where to find the
/// other; a client asking to join a hosted session is sent to the hosting
/// server and waited for there; an unknown session is refused; a host asking
/// for a session gets a new one, and a client asking to be hosted gets one on
/// the hosting server unless it is full.
pub fn process_message(
    addr: NetAddress,
    message: Payloads,
    sessions: &mut Sessions,
    servers: &mut Servers,
    config: &RendezvousConfig,
    out: &mut Vec<TransferAction>,
)
    requires
        old(sessions).wf(),
        old(servers).wf(),
    ensures
        final(sessions).wf(),
        final(servers).wf(),
        rendezvous_effect(
            *old(sessions),
            *final(sessions),
            *old(servers),
            *final(servers),
            actions(old(out)@),
            actions(final(out)@),
            addr,
            message@,
            config.max_client_connections,
            config.hoster_addr,
            config.hoster_hostname@,
        ),
{
    let ghost before = actions(out@);
    match message {
        Payloads::RendezvousHandshake { session_id, local_endpoint } => {
            proof {
                lemma_key_position(sessions.infos(), session_id@);
            }
            let info = match sessions.get_session_connection_info(&session_id) {
                Some(info) => Some((info.hoster_addr, crate::payloads::copy_addresses(&info.hoster_endpoints))),
                None => None,
            };
            if let Some((hoster_addr, hoster_endpoints)) = info {
                let ghost found = lookup(old(sessions).infos(), session_id@).unwrap();
                let ghost peers = hoster_endpoints@;
                assert(peers == found.hoster_endpoints@);
                // Self-hosted session: tell the client where the host is...
                push_send_to(out, Payloads::AttemptConnection { peers: hoster_endpoints }, addr);
                // ...and the host where the client is
                push_send_to(
                    out,
                    Payloads::AttemptConnection { peers: make_endpoints(local_endpoint, addr) },
                    hoster_addr,
                );
                sessions.add_client_to_session(session_id, addr);
                proof {
                    lemma_key_position(old(sessions).joined(), addr);
                    lemma_key_position(sessions.joined(), addr);
                    let q = key_position(old(sessions).joined(), addr);
                    let idx = if q >= 0 {
                        q
                    } else {
                        old(sessions).joined().len() as int
                    };
                    assert(sessions.joined()[idx].0 == addr);
                    assert(key_position(sessions.joined(), addr) == idx);
                    assert(actions(out@) =~= before + seq![
                        send_to(PayloadsView::AttemptConnection { peers: found.hoster_endpoints@ }, addr),
                        send_to(
                            PayloadsView::AttemptConnection { peers: endpoints_of(local_endpoint, addr) },
                            found.hoster_addr,
                        ),
                    ]);
                }
            } else if servers.is_active(&session_id) {
                // Hosted session: the client goes to the hosting server
                let ghost sv = session_id@;
                servers.wait_for(addr.ip_key(), session_id);
                push_send_to(out, Payloads::AttemptHosterConnection { peer: config.hoster_addr }, addr);
                proof {
                    let u0 = old(servers).unknown();
                    let k = addr.ip_key_spec();
                    lemma_key_position(u0, k);
                    lemma_key_position(servers.unknown(), k);
                    let q = key_position(u0, k);
                    let idx = if q >= 0 {
                        q
                    } else {
                        u0.len() as int
                    };
                    assert(servers.unknown()[idx].0 == k);
                    assert(key_position(servers.unknown(), k) == idx);
                }
            } else {
                push_send_to(
                    out,
                    Payloads::ConnectionDenied { reason: String::from_str("Session not found.") },
                    addr,
                );
            }
        },
        Payloads::RequestHosting { self_hosted, local_endpoint } => {
            if self_hosted {
                let session_id = sessions.map_session_id_to_socket_info(addr, make_endpoints(local_endpoint, addr));
                push_send_to(out, Payloads::HostingReceived { session_id }, addr);
            } else {
                if servers.connected_count() >= config.max_client_connections {
                    push_send_to(
                        out,
                        Payloads::ConnectionDenied { reason: String::from_str("Server at capacity.") },
                        addr,
                    );
                    return;
                }
                let session_id = servers.reserve_server(config.hoster_hostname.clone(), addr);
                let ghost idv = session_id;
                proof {
                    lemma_lookup_insert(old(servers).active(), idv@, ServerInfo { hostname: config.hoster_hostname });
                }
                // Tell the client to handshake with the hosting server
                let mut peers: Vec<NetAddress> = Vec::new();
                peers.push(config.hoster_addr);
                let ghost pv = peers@;
                push_send_to(out, Payloads::AttemptConnection { peers }, addr);
                push_send_to(out, Payloads::HostingReceived { session_id }, addr);
                assert(pv =~= seq![config.hoster_addr]);
                assert(actions(out@) =~= before + seq![
                    send_to(PayloadsView::AttemptConnection { peers: seq![config.hoster_addr] }, addr),
                    send_to(PayloadsView::HostingReceived { session_id: idv@ }, addr),
                ]);
            }
        },
        _ => {},
    }
}

/// What a message from `addr` does at the rendezvous server: see
/// `process_message`.
pub open spec fn rendezvous_effect(
    pre_sessions: Sessions,
    post_sessions: Sessions,
    pre_servers: Servers,
    post_servers: Servers,
    before: Seq<TransferActionView>,
    after: Seq<TransferActionView>,
    addr: NetAddress,
    message: PayloadsView,
    max_client_connections: usize,
    hoster_addr: NetAddress,
    hoster_hostname: Seq<char>,
) -> bool {
    let sessions_same = post_sessions.hosting() == pre_sessions.hosting() && post_sessions.joined()
        == pre_sessions.joined() && post_sessions.infos() == pre_sessions.infos();
    let servers_same = post_servers.unknown() == pre_servers.unknown() && post_servers.connected()
        == pre_servers.connected() && post_servers.active() == pre_servers.active()
        && post_servers.states() == pre_servers.states();
    match message {
        PayloadsView::RendezvousHandshake { session_id, local_endpoint } => match lookup(
            pre_sessions.infos(),
            session_id,
        ) {
            Some(info) => {
                &&& servers_same
                &&& post_sessions.hosting() == pre_sessions.hosting()
                &&& post_sessions.infos() == pre_sessions.infos()
                &&& inserted_text(pre_sessions.joined(), post_sessions.joined(), addr, session_id)
                &&& after == before + seq![
                    send_to(PayloadsView::AttemptConnection { peers: info.hoster_endpoints@ }, addr),
                    send_to(
                        PayloadsView::AttemptConnection { peers: endpoints_of(local_endpoint, addr) },
                        info.hoster_addr,
                    ),
                ]
            },
            None => if lookup(pre_servers.active(), session_id) is Some {
                &&& sessions_same
                &&& inserted_text(pre_servers.unknown(), post_servers.unknown(), addr.ip_key_spec(), session_id)
                &&& post_servers.connected() == pre_servers.connected()
                &&& post_servers.active() == pre_servers.active()
                &&& post_servers.states() == pre_servers.states()
                &&& after == before.push(
                    send_to(PayloadsView::AttemptHosterConnection { peer: hoster_addr }, addr),
                )
            } else {
                &&& sessions_same
                &&& servers_same
                &&& after == before.push(
                    send_to(PayloadsView::ConnectionDenied { reason: "Session not found."@ }, addr),
                )
            },
        },
        PayloadsView::RequestHosting { self_hosted, local_endpoint } => if self_hosted {
            &&& servers_same
            &&& post_sessions.joined() == pre_sessions.joined()
            &&& exists|id: Seq<char>|
                {
                    &&& is_random_id(id, SESSION_ID_LENGTH as nat)
                    &&& post_sessions.hosting() == bimap_inserted(pre_sessions.hosting(), addr_key(addr), id)
                    &&& lookup(post_sessions.infos(), id) is Some
                    &&& post_sessions.infos() == insert_pair(
                        pre_sessions.infos(),
                        id,
                        lookup(post_sessions.infos(), id).unwrap(),
                    )
                    &&& lookup(post_sessions.infos(), id).unwrap().hoster_addr == addr
                    &&& lookup(post_sessions.infos(), id).unwrap().hoster_endpoints@ == endpoints_of(
                        local_endpoint,
                        addr,
                    )
                    &&& after == before.push(
                        send_to(PayloadsView::HostingReceived { session_id: id }, addr),
                    )
                }
        } else if pre_servers.connected().len() >= max_client_connections {
            &&& sessions_same
            &&& servers_same
            &&& after == before.push(
                send_to(PayloadsView::ConnectionDenied { reason: "Server at capacity."@ }, addr),
            )
        } else {
            &&& sessions_same
            &&& post_servers.unknown() == pre_servers.unknown()
            &&& exists|id: String|
                {
                    &&& is_random_id(id@, SESSION_ID_LENGTH as nat)
                    &&& post_servers.connected() == insert_pair(pre_servers.connected(), addr, id)
                    &&& lookup(post_servers.active(), id@) is Some
                    &&& lookup(post_servers.active(), id@).unwrap().hostname@ == hoster_hostname
                    &&& post_servers.active() == insert_pair(
                        pre_servers.active(),
                        id@,
                        lookup(post_servers.active(), id@).unwrap(),
                    )
                    &&& lookup(post_servers.states(), id@) is Some
                    &&& lookup(post_servers.states(), id@).unwrap().roster().len() == 0
                    &&& post_servers.states() == insert_pair(
                        pre_servers.states(),
                        id@,
                        lookup(post_servers.states(), id@).unwrap(),
                    )
                    &&& after == before + seq![
                        send_to(PayloadsView::AttemptConnection { peers: seq![hoster_addr] }, addr),
                        send_to(PayloadsView::HostingReceived { session_id: id@ }, addr),
                    ]
                }
        },
        _ => sessions_same && servers_same && after == before,
    }
}

/// The rendezvous server's own state: the self-hosted sessions and the
/// request counters.
pub struct Rendezvous {
    sessions: Sessions,
    counters: Counters,
}

impl Rendezvous {
    pub closed spec fn sessions(&self) -> Sessions {
        self.sessions
    }

    pub closed spec fn counters(&self) -> Counters {
        self.counters
    }

    pub open spec fn wf(&self) -> bool {
        self.sessions().wf() && self.counters().wf()
    }

    pub fn new() -> (res: Self)
        ensures
            res.wf(),
            res.sessions().joined().len() == 0,
            res.sessions().infos().len() == 0,
            res.counters().counts().len() == 0,
    {
        Rendezvous { sessions: Sessions::new(), counters: Counters::new() }
    }

    /// A message from `addr`: an address that made more than
    /// `MAX_REQUESTS_PER_HOUR` requests is ignored; otherwise the message is
    /// handled as `process_message` says and the request is counted.
    pub fn on_payload(
        &mut self,
        addr: NetAddress,
        message: Payloads,
        servers: &mut Servers,
        config: &RendezvousConfig,
        out: &mut Vec<TransferAction>,
    )
        requires
            old(self).wf(),
            old(servers).wf(),
        ensures
            final(self).wf(),
            final(servers).wf(),
            match lookup(old(self).counters().counts(), addr.ip_key_spec()) {
                Some(c) if c.0 > MAX_REQUESTS_PER_HOUR => {
                    &&& final(self).sessions() == old(self).sessions()
                    &&& final(self).counters() == old(self).counters()
                    &&& *final(servers) == *old(servers)
                    &&& actions(final(out)@) == actions(old(out)@)
                },
                _ => {
                    &&& rendezvous_effect(
                        old(self).sessions(),
                        final(self).sessions(),
                        *old(servers),
                        *final(servers),
                        actions(old(out)@),
                        actions(final(out)@),
                        addr,
                        message@,
                        config.max_client_connections,
                        config.hoster_addr,
                        config.hoster_hostname@,
                    )
                    &&& final(self).counters().ids() == old(self).counters().ids()
                    &&& exists|hour: u32|
                        final(self).counters().counts() == #[trigger] counter_step(
                            old(self).counters().counts(),
                            addr.ip_key_spec(),
                            old(self).counters().start_hour(),
                            hour,
                        )
                },
            },
    {
        let ip = addr.ip_key();
        // More than the allowed requests within the hour: probably malicious
        if self.counters.get_request_count_for(&ip) > MAX_REQUESTS_PER_HOUR {
            return;
        }
        process_message(addr, message, &mut self.sessions, servers, config, out);
        self.counters.increment_request_counter(ip);
    }

    /// The connection of `addr` closed: a host's session is closed, and a
    /// client leaves the session it joined; the id of the session concerned
    /// is returned, if any.
    pub fn on_connection_closed(&mut self, addr: NetAddress) -> (res: Option<String>)
        requires
            old(self).wf(),
        ensures
            final(self).wf(),
            final(self).counters() == old(self).counters(),
            if old(self).sessions().hosting().dom().contains(addr_key(addr)) {
                match res {
                    Some(id) => {
                        &&& id@ == old(self).sessions().hosting()[addr_key(addr)]
                        &&& final(self).sessions().hosting() == bimap_without_right(
                            old(self).sessions().hosting(),
                            id@,
                        )
                        &&& final(self).sessions().joined() == old(self).sessions().joined().filter(
                            |e: (NetAddress, String)| e.1@ != id@,
                        )
                        &&& final(self).sessions().infos() == remove_key(old(self).sessions().infos(), id@)
                    },
                    None => false,
                }
            } else {
                &&& res == lookup(old(self).sessions().joined(), addr)
                &&& final(self).sessions().joined() == remove_key(old(self).sessions().joined(), addr)
                &&& final(self).sessions().hosting() == old(self).sessions().hosting()
                &&& final(self).sessions().infos() == old(self).sessions().infos()
            },
    {
        if self.sessions.socket_is_hosting(&addr) {
            self.sessions.close_session_by_addr(&addr)
        } else {
            self.sessions.remove_client_from_session(&addr)
        }
    }

    /// The periodic upkeep: addresses with no requests counted are forgotten.
    pub fn upkeep(&mut self)
        requires
            old(self).wf(),
        ensures
            final(self).wf(),
            final(self).sessions() == old(self).sessions(),
            final(self).counters().counts() == old(self).counters().counts().filter(
                |e: (IpKey, (u32, u32))| e.1.0 > 0,
            ),
    {
        self.counters.cleanup();
    }

    /// How many clients joined self-hosted sessions, and how many such
    /// sessions there are.
    pub fn stats(&self) -> (res: (usize, usize))
        ensures
            res.0 == self.sessions().joined().len(),
            res.1 == self.sessions().hosting().len(),
    {
        (self.sessions.get_user_count(), self.sessions.get_session_count())
    }
}

} // verus!
