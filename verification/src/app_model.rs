use vstd::prelude::*;

use crate::assoc::{key_position, lemma_key_position, lemma_same_keys, unique_keys, AssocList, IpKey};
use crate::net_address::{match_ip_address_to_socket_addr, NetAddress};

verus! {

/// An aircraft definition file, by the name shown and its path.
#[derive(Debug)]
pub struct AircraftConfig {
    pub name: String,
    pub path: String,
}

/// How a session is reached: directly, through a relay, or on the cloud
/// server.
#[derive(Clone, Copy, Debug, PartialEq, Eq, Structural)]
pub enum ConnectionMethod {
    Direct,
    Relay,
    CloudServer,
}

/// The client failed, for the reason given.
#[derive(Debug)]
pub struct ClientFailEvent(pub String);

/// The named client is, or is no longer, observing.
#[derive(Debug)]
pub struct SetObservingEvent(pub String, pub bool);

/// The server failed, for the reason given.
#[derive(Debug)]
pub struct ServerFailEvent(pub String);

/// The user's settings.
#[derive(Debug)]
pub struct Settings {
    pub username: String,
    pub aircraft: String,
    pub instructor_mode: bool,
    pub streamer_mode: bool,
}

impl Settings {
    /// Empty names, with both modes off.
    pub fn new() -> (res: Self)
        ensures
            res.username@ == Seq::<char>::empty(),
            res.aircraft@ == Seq::<char>::empty(),
            !res.instructor_mode,
            !res.streamer_mode,
    {
        Settings {
            username: String::new(),
            aircraft: String::new(),
            instructor_mode: false,
            streamer_mode: false,
        }
    }
}

/// Whether the separator " - " starts at `i` in `s`.
pub open spec fn sep_at(s: Seq<char>, i: int) -> bool {
    &&& 0 <= i
    &&& i + 3 <= s.len()
    &&& s[i] == ' '
    &&& s[i + 1] == '-'
    &&& s[i + 2] == ' '
}

/// Whether `s` splits on " - " into exactly two parts, the first separator
/// standing at `p`: none comes before it, and none starts after it.
pub open spec fn splits_in_two_at(s: Seq<char>, p: int) -> bool {
    &&& sep_at(s, p)
    &&& forall|i: int| 0 <= i < p ==> !sep_at(s, i)
    &&& forall|i: int| p + 3 <= i ==> !sep_at(s, i)
}

/// The category and name a file stem gives: `{category} - {name}` when the
/// stem splits on " - " into exactly two parts, else `Other` and the stem.
pub open spec fn stem_parts(s: Seq<char>) -> (Seq<char>, Seq<char>) {
    if exists|p: int| splits_in_two_at(s, p) {
        let p = choose|p: int| splits_in_two_at(s, p);
        (s.subrange(0, p), s.subrange(p + 3, s.len() as int))
    } else {
        ("Other"@, s)
    }
}

proof fn lemma_split_point_unique(s: Seq<char>, p: int, q: int)
    requires
        splits_in_two_at(s, p),
        splits_in_two_at(s, q),
    ensures
        p == q,
{
    if p < q {
        assert(!sep_at(s, p));
    } else if q < p {
        assert(!sep_at(s, q));
    }
}

fn is_sep_at(s: &str, i: usize) -> (res: bool)
    requires
        i + 3 <= s@.len() <= usize::MAX,
    ensures
        res == sep_at(s@, i as int),
{
    s.get_char(i) == ' ' && s.get_char(i + 1) == '-' && s.get_char(i + 2) == ' '
}

/// Whether a file with extension `extension` is an aircraft definition: only
/// `.yaml` files are.
pub fn is_aircraft_definition(extension: Option<&str>) -> (res: bool)
    ensures
        res == (extension is Some && extension.unwrap()@ == "yaml"@),
{
    proof {
        reveal_strlit("yaml");
    }
    match extension {
        Some(e) => {
            let n = e.unicode_len();
            if n != 4 {
                return false;
            }
            let res = e.get_char(0) == 'y' && e.get_char(1) == 'a' && e.get_char(2) == 'm' && e.get_char(3) == 'l';
            if res {
                assert(e@ =~= "yaml"@);
            } else {
                assert(e@ != "yaml"@ ) by {
                    if e@ == "yaml"@ {
                        assert(e@[0] == 'y' && e@[1] == 'a' && e@[2] == 'm' && e@[3] == 'l');
                    }
                }
            }
            res
        },
        None => false,
    }
}

/// The category and the aircraft config of a definition file with stem
/// `file_stem` at `path`: see `stem_parts`.
pub fn aircraft_config_for(file_stem: &str, path: String) -> (res: (String, AircraftConfig))
    ensures
        res.0@ == stem_parts(file_stem@).0,
        res.1.name@ == stem_parts(file_stem@).1,
        res.1.path@ == path@,
{
    let len = file_stem.unicode_len();
    // The first separator
    let mut first: Option<usize> = None;
    let mut i: usize = 0;
    while len - i >= 3 && first.is_none()
        invariant
            len == file_stem@.len(),
            first is None ==> forall|j: int| 0 <= j < i ==> !sep_at(file_stem@, j),
            match first {
                Some(p) => sep_at(file_stem@, p as int) && forall|j: int| 0 <= j < p ==> !sep_at(file_stem@, j),
                None => true,
            },
            i <= len,
        decreases len - i + (if first is None {
            1int
        } else {
            0int
        }),
    {
        if is_sep_at(file_stem, i) {
            first = Some(i);
        } else {
            i = i + 1;
        }
    }
    let mut two = false;
    let mut at: usize = 0;
    if let Some(p) = first {
        // No separator may start after it
        let mut j: usize = p + 3;
        let mut more = false;
        while len - j >= 3 && !more
            invariant
                len == file_stem@.len(),
                p + 3 <= j <= len,
                !more ==> forall|k: int| p + 3 <= k < j ==> !sep_at(file_stem@, k),
                more ==> exists|k: int| p + 3 <= k && sep_at(file_stem@, k),
            decreases len - j + (if more {
                0int
            } else {
                1int
            }),
        {
            if is_sep_at(file_stem, j) {
                more = true;
            } else {
                j = j + 1;
            }
        }
        if !more {
            assert forall|k: int| p + 3 <= k implies !sep_at(file_stem@, k) by {
                if k >= j {
                    assert(!(k + 3 <= file_stem@.len()));
                }
            }
            two = true;
            at = p;
        }
    } else {
        assert forall|k: int| !sep_at(file_stem@, k) by {
            if 0 <= k && k + 3 <= file_stem@.len() {
                assert(k < i);
            }
        }
    }
    proof {
        if two {
            assert(splits_in_two_at(file_stem@, at as int));
            let c = choose|p: int| splits_in_two_at(file_stem@, p);
            lemma_split_point_unique(file_stem@, at as int, c);
        } else {
            if exists|p: int| splits_in_two_at(file_stem@, p) {
                let c = choose|p: int| splits_in_two_at(file_stem@, p);
                match first {
                    Some(p) => {
                        if c < p {
                            assert(!sep_at(file_stem@, c));
                        } else if c > p {
                            assert(!sep_at(file_stem@, p as int));
                        } else {
                            let k = choose|k: int| p + 3 <= k && sep_at(file_stem@, k);
                            assert(!sep_at(file_stem@, k));
                        }
                    },
                    None => {
                        assert(!sep_at(file_stem@, c));
                    },
                }
            }
        }
    }
    if two {
        let category = String::from_str(file_stem.substring_char(0, at));
        let name = String::from_str(file_stem.substring_char(at + 3, len));
        (category, AircraftConfig { name, path })
    } else {
        (String::from_str("Other"), AircraftConfig { name: String::from_str(file_stem), path })
    }
}

/// An aircraft config as its name and path.
pub open spec fn config_view(c: AircraftConfig) -> (Seq<char>, Seq<char>) {
    (c.name@, c.path@)
}

/// Aircraft configs filed by category, each config as its name and path.
pub open spec fn grouping(p: Seq<(Seq<char>, Vec<AircraftConfig>)>) -> Seq<(Seq<char>, Seq<(Seq<char>, Seq<char>)>)> {
    p.map_values(|e: (Seq<char>, Vec<AircraftConfig>)| (e.0, e.1@.map_values(|c: AircraftConfig| config_view(c))))
}

/// `g` with `item` added to the list of `category`, which starts a new list
/// at the end when it is new.
pub open spec fn filed(
    g: Seq<(Seq<char>, Seq<(Seq<char>, Seq<char>)>)>,
    category: Seq<char>,
    item: (Seq<char>, Seq<char>),
) -> Seq<(Seq<char>, Seq<(Seq<char>, Seq<char>)>)> {
    let p = key_position(g, category);
    if p >= 0 {
        g.update(p, (category, g[p].1.push(item)))
    } else {
        g.push((category, seq![item]))
    }
}

proof fn lemma_grouping_keys(p: Seq<(Seq<char>, Vec<AircraftConfig>)>, k: Seq<char>)
    requires
        unique_keys(p),
    ensures
        key_position(grouping(p), k) == key_position(p, k),
        grouping(p).len() == p.len(),
{
    assert forall|i: int| 0 <= i < p.len() implies p[i].0 == #[trigger] grouping(p)[i].0 by {}
    lemma_same_keys(p, grouping(p), k);
}

/// Files aircraft configs by category: `config` joins the list of `category`,
/// which starts a new list if it is new.
pub fn file_aircraft_config(
    groups: &mut AssocList<String, Vec<AircraftConfig>>,
    category: String,
    config: AircraftConfig,
)
    requires
        old(groups).wf(),
    ensures
        final(groups).wf(),
        ({
            let p = key_position(old(groups).pairs(), category@);
            if p >= 0 {
                &&& final(groups).pairs().len() == old(groups).pairs().len()
                &&& forall|i: int| 0 <= i < old(groups).pairs().len() && i != p ==> #[trigger] final(groups).pairs()[i] == old(groups).pairs()[i]
                &&& final(groups).pairs()[p].0 == category@
                &&& final(groups).pairs()[p].1@.len() == old(groups).pairs()[p].1@.len() + 1
                &&& final(groups).pairs()[p].1@.drop_last() == old(groups).pairs()[p].1@
                &&& final(groups).pairs()[p].1@.last() == config
            } else {
                &&& final(groups).pairs().len() == old(groups).pairs().len() + 1
                &&& final(groups).pairs().drop_last() == old(groups).pairs()
                &&& final(groups).pairs().last().0 == category@
                &&& final(groups).pairs().last().1@ == seq![config]
            }
        }),
        grouping(final(groups).pairs()) == filed(grouping(old(groups).pairs()), category@, config_view(config)),
{
    proof {
        lemma_grouping_keys(groups.pairs(), category@);
    }
    proof {
        lemma_key_position(groups.pairs(), category@);
    }
    match groups.position(&category) {
        Some(i) => {
            let ghost before = groups.pairs();
            let mut list = groups.replace_at(i, Vec::new());
            let ghost old_list = list@;
            list.push(config);
            groups.replace_at(i, list);
            assert(groups.pairs()[i as int].1@.drop_last() =~= old_list);
            proof {
                let g = grouping(before);
                assert(groups.pairs()[i as int].1@.map_values(|c: AircraftConfig| config_view(c)) =~= g[i as int].1.push(
                    config_view(config),
                ));
                assert(grouping(groups.pairs()) =~= g.update(i as int, (category@, g[i as int].1.push(config_view(config)))));
            }
        },
        None => {
            let ghost before = groups.pairs();
            let mut list: Vec<AircraftConfig> = Vec::new();
            list.push(config);
            groups.insert(category, list);
            assert(groups.pairs() == before.push((category@, groups.pairs().last().1)));
            assert(groups.pairs().drop_last() =~= before);
            assert(groups.pairs().last().1@ =~= seq![config]);
            proof {
                let g = grouping(before);
                assert(groups.pairs().last().1@.map_values(|c: AircraftConfig| config_view(c)) =~= seq![config_view(config)]);
                assert(grouping(groups.pairs()) =~= g.push((category@, seq![config_view(config)])));
            }
        },
    }
}

/// A file of the definitions directory: its stem, its extension if any, and
/// its path.
#[derive(Debug)]
pub struct DefinitionFile {
    pub stem: String,
    pub extension: Option<String>,
    pub path: String,
}

/// A file as its stem, extension and path.
pub open spec fn file_view(f: DefinitionFile) -> (Seq<char>, Option<Seq<char>>, Seq<char>) {
    (
        f.stem@,
        match f.extension {
            Some(e) => Some(e@),
            None => None,
        },
        f.path@,
    )
}

/// The aircraft configs of `files`, filed by category in the order the
/// files come: only `.yaml` files count, and each files its config as
/// `aircraft_config_for` splits its stem.
pub open spec fn listing(files: Seq<(Seq<char>, Option<Seq<char>>, Seq<char>)>) -> Seq<
    (Seq<char>, Seq<(Seq<char>, Seq<char>)>),
>
    decreases files.len(),
{
    if files.len() == 0 {
        Seq::empty()
    } else {
        let g = listing(files.drop_last());
        let f = files.last();
        if f.1 == Some("yaml"@) {
            filed(g, stem_parts(f.0).0, (stem_parts(f.0).1, f.2))
        } else {
            g
        }
    }
}

/// Lists the aircraft configs of a definitions directory's `files`: see
/// `listing`.
pub fn list_aircraft_configs(files: &Vec<DefinitionFile>) -> (res: AssocList<String, Vec<AircraftConfig>>)
    ensures
        res.wf(),
        grouping(res.pairs()) == listing(files@.map_values(|f: DefinitionFile| file_view(f))),
{
    let ghost all = files@.map_values(|f: DefinitionFile| file_view(f));
    let mut groups: AssocList<String, Vec<AircraftConfig>> = AssocList::new();
    let mut i: usize = 0;
    while i < files.len()
        invariant
            i <= files.len(),
            all == files@.map_values(|f: DefinitionFile| file_view(f)),
            groups.wf(),
            grouping(groups.pairs()) == listing(all.take(i as int)),
        decreases files.len() - i,
    {
        let f = &files[i];
        let extension = match &f.extension {
            Some(e) => Some(e.as_str()),
            None => None,
        };
        proof {
            assert(all.take(i as int + 1).drop_last() =~= all.take(i as int));
            assert(all.take(i as int + 1).last() == file_view(files@[i as int]));
        }
        if is_aircraft_definition(extension) {
            let (category, config) = aircraft_config_for(f.stem.as_str(), f.path.clone());
            file_aircraft_config(&mut groups, category, config);
        }
        i = i + 1;
    }
    assert(all.take(files.len() as int) =~= all);
    groups
}

/// The port a directly hosted server listens on when none is given.
pub const DEFAULT_PORT: u16 = 25071;

/// How the application starts hosting: as a client of the cloud relay (over
/// IPv4), as a server listening on `port` (asking the gateway to forward it
/// when `upnp`), or as a server reached through the rendezvous server's hole
/// punching.
#[derive(Clone, Copy, Debug, PartialEq, Eq, Structural)]
pub enum ServerStart {
    Relay,
    Direct { is_ipv6: bool, port: u16, upnp: bool },
    HolePunch { is_ipv6: bool },
}

/// How hosting starts for `method`: a direct server listens on `port`, or on
/// `DEFAULT_PORT` when none is given, with port forwarding asked for.
pub fn plan_server_start(method: ConnectionMethod, is_ipv6: bool, port: Option<u16>) -> (res: ServerStart)
    ensures
        res == match method {
            ConnectionMethod::Relay => ServerStart::Relay,
            ConnectionMethod::Direct => ServerStart::Direct {
                is_ipv6,
                port: match port {
                    Some(p) => p,
                    None => DEFAULT_PORT,
                },
                upnp: true,
            },
            ConnectionMethod::CloudServer => ServerStart::HolePunch { is_ipv6 },
        },
{
    let port = match port {
        Some(p) => p,
        None => DEFAULT_PORT,
    };
    match method {
        ConnectionMethod::Relay => ServerStart::Relay,
        ConnectionMethod::Direct => ServerStart::Direct { is_ipv6, port, upnp: true },
        ConnectionMethod::CloudServer => ServerStart::HolePunch { is_ipv6 },
    }
}

/// How a client starts: straight to a server's address, with the session id
/// as a password if any, or through the cloud server's hole punching.
#[derive(Debug)]
pub enum ClientStart {
    Direct { target: NetAddress, session_id: Option<String> },
    HolePunch { session_code: String, is_ipv6: bool },
}

/// How a client connecting with `method` starts; a direct connection goes to
/// `ip` (resolved from a hostname if one was given) at `port`. A relayed
/// client is started elsewhere, and a direct one needs both an address and a
/// port, and a cloud one a session id.
pub fn plan_client_start(
    method: ConnectionMethod,
    ip: Option<IpKey>,
    port: Option<u16>,
    session_id: Option<String>,
    is_ipv6: bool,
) -> (res: ClientStart)
    requires
        method != ConnectionMethod::Relay,
        method == ConnectionMethod::Direct ==> ip is Some && port is Some,
        method == ConnectionMethod::Direct ==> (!ip.unwrap().is_v6 ==> ip.unwrap().ip < 0x1_0000_0000),
        method == ConnectionMethod::CloudServer ==> session_id is Some,
    ensures
        match res {
            ClientStart::Direct { target, session_id: s } => {
                &&& method == ConnectionMethod::Direct
                &&& target == (NetAddress { ip: ip.unwrap().ip, port: port.unwrap(), is_v6: ip.unwrap().is_v6 })
                &&& s == session_id
            },
            ClientStart::HolePunch { session_code: s, is_ipv6: v6 } => {
                &&& method == ConnectionMethod::CloudServer
                &&& Some(s) == session_id
                &&& v6 == is_ipv6
            },
        },
{
    match method {
        ConnectionMethod::Direct => {
            let ip = ip.unwrap();
            ClientStart::Direct {
                target: match_ip_address_to_socket_addr(ip.ip, ip.is_v6, port.unwrap()),
                session_id,
            }
        },
        _ => ClientStart::HolePunch { session_code: session_id.unwrap(), is_ipv6 },
    }
}

} // verus!
