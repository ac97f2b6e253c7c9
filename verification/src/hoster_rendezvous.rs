use vstd::prelude::*;

use crate::handshake::{address_text_of, base64_decoded};
use crate::assoc::{insert_pair, key_position, lemma_key_position, lemma_lookup_insert, lookup, remove_key, unique_keys, AssocList};
use crate::main_payloads::{MainPayloads, MainPayloadsView};
use crate::net_address::NetAddress;
use crate::random_ids::{get_random_id, is_random_id};
use crate::single_server::{sent, Dispatch};

use vstd::utf8::{encode_utf8, encode_utf8_decode_utf8, encode_utf8_valid_utf8};

verus! {

/// The base64 text of the UTF-8 bytes of `text`.
pub uninterp spec fn base64_of_text(text: Seq<char>) -> Seq<char>;

/// Encodes the UTF-8 bytes of `text` with `base64::encode`; the result is the
/// one `base64_of_text` names. It also claims that `base64::decode` gives
/// those bytes back.
#[verifier::external_body]
fn base64_text(text: &str) -> (res: String)
    ensures
        res@ == base64_of_text(text@),
        base64_decoded(res@) == Some(encode_utf8(text@)),
{
    base64::encode(text)
}

/// An address as a session's clients receive it: the base64 text of its
/// written form `addr_text`, which decodes back to `addr_text`.
pub fn encode_ip(addr_text: &str) -> (res: String)
    ensures
        res@ == base64_of_text(addr_text@),
        address_text_of(res@) == Some(addr_text@),
{
    let res = base64_text(addr_text);
    proof {
        encode_utf8_valid_utf8(addr_text@);
        encode_utf8_decode_utf8(addr_text@);
    }
    res
}

/// How a self-hosted session's host is reached: its address, and its private
/// and public addresses as encoded text.
pub struct EncodedSessionAddress {
    pub hoster: NetAddress,
    pub private: String,
    pub public: String,
}

/// The sessions a rendezvous server knows: how each host is reached, and the
/// session each address takes part in.
pub struct Sessions {
    hosting_sessions: AssocList<String, EncodedSessionAddress>,
    connected_sessions: AssocList<NetAddress, String>,
}

impl Sessions {
    pub closed spec fn hosting(&self) -> Seq<(Seq<char>, EncodedSessionAddress)> {
        self.hosting_sessions.pairs()
    }

    pub closed spec fn connected(&self) -> Seq<(NetAddress, String)> {
        self.connected_sessions.pairs()
    }

    pub open spec fn wf(&self) -> bool {
        unique_keys(self.hosting()) && unique_keys(self.connected())
    }

    pub fn new() -> (res: Self)
        ensures
            res.wf(),
            res.hosting().len() == 0,
            res.connected().len() == 0,
    {
        Sessions { hosting_sessions: AssocList::new(), connected_sessions: AssocList::new() }
    }

    /// Opens a session hosted at `addr`, written `addr_text`, under a new
    /// random id of five letters, which is returned.
    pub fn map_session_id_to_socket_info(&mut self, addr: NetAddress, addr_text: &str) -> (id: String)
        requires
            old(self).wf(),
        ensures
            final(self).wf(),
            is_random_id(id@, 5),
            ({
                let p = key_position(final(self).hosting(), id@);
                let info = final(self).hosting()[p].1;
                &&& p >= 0
                &&& final(self).hosting() == insert_pair(old(self).hosting(), id@, info)
                &&& info.hoster == addr
                &&& info.private@ == base64_of_text(addr_text@)
                &&& info.public@ == base64_of_text(addr_text@)
            }),
            final(self).connected() == insert_pair(old(self).connected(), addr, id),
    {
        let id = get_random_id(5);
        let session_info = EncodedSessionAddress {
            hoster: addr,
            private: encode_ip(addr_text),
            public: encode_ip(addr_text),
        };
        let ghost info = session_info;
        let ghost before = self.hosting();
        // Point the session id to the hosting address
        self.hosting_sessions.insert(id.clone(), session_info);
        // Keep track of every address in the session
        self.connected_sessions.insert(addr, id.clone());
        proof {
            lemma_lookup_insert(before, id@, info);
        }
        id
    }

    pub fn get_info_for_session(&self, session_id: &String) -> (res: Option<&EncodedSessionAddress>)
        requires
            self.wf(),
        ensures
            match lookup(self.hosting(), session_id@) {
                Some(v) => res == Some(&v),
                None => res is None,
            },
    {
        self.hosting_sessions.get(session_id)
    }

    pub fn add_client_to_session(&mut self, session_id: String, addr: NetAddress)
        requires
            old(self).wf(),
        ensures
            final(self).wf(),
            final(self).connected() == insert_pair(old(self).connected(), addr, session_id),
            final(self).hosting() == old(self).hosting(),
    {
        self.connected_sessions.insert(addr, session_id);
    }

    pub fn remove_client_from_session(&mut self, addr: &NetAddress) -> (res: Option<String>)
        requires
            old(self).wf(),
        ensures
            final(self).wf(),
            final(self).connected() == remove_key(old(self).connected(), *addr),
            res == lookup(old(self).connected(), *addr),
            final(self).hosting() == old(self).hosting(),
    {
        self.connected_sessions.remove(addr)
    }

    /// Closes the session `session_id`: its host and every address in it are
    /// forgotten.
    pub fn close_session(&mut self, session_id: &String)
        requires
            old(self).wf(),
        ensures
            final(self).wf(),
            final(self).hosting() == remove_key(old(self).hosting(), session_id@),
            final(self).connected() == old(self).connected().filter(
                |e: (NetAddress, String)| e.1@ != session_id@,
            ),
    {
        self.hosting_sessions.remove(session_id);
        let ghost h = self.hosting();
        let ghost all = self.connected();
        let mut i: usize = 0;
        let ghost mut j: int = 0;
        while i < self.connected_sessions.len()
            invariant
                0 <= j <= all.len(),
                i == all.take(j).filter(|e: (NetAddress, String)| e.1@ != session_id@).len(),
                self.connected() == all.take(j).filter(|e: (NetAddress, String)| e.1@ != session_id@)
                    + all.subrange(j, all.len() as int),
                self.connected_sessions.wf(),
                self.hosting() == h,
            decreases self.connected().len() - i,
        {
            assert(self.connected()[i as int] == all[j]);
            proof {
                reveal_with_fuel(Seq::filter, 1);
                assert(all.take(j + 1).drop_last() =~= all.take(j));
                assert(all.take(j + 1).last() == all[j]);
            }
            if *self.connected_sessions.value_at(i) == *session_id {
                self.connected_sessions.remove_at(i);
                proof {
                    assert(self.connected() =~= all.take(j + 1).filter(
                        |e: (NetAddress, String)| e.1@ != session_id@,
                    ) + all.subrange(j + 1, all.len() as int));
                }
            } else {
                i = i + 1;
                proof {
                    assert(self.connected() =~= all.take(j + 1).filter(
                        |e: (NetAddress, String)| e.1@ != session_id@,
                    ) + all.subrange(j + 1, all.len() as int));
                }
            }
            proof {
                j = j + 1;
            }
        }
        proof {
            if j < all.len() {
                assert(self.connected().len() > i);
            }
            assert(all.take(j) =~= all);
        }
    }

    pub fn get_session_count(&self) -> (res: usize)
        ensures
            res == self.hosting().len(),
    {
        self.hosting_sessions.len()
    }

    pub fn get_user_count(&self) -> (res: usize)
        ensures
            res == self.connected().len(),
    {
        self.connected_sessions.len()
    }
}

/// The rendezvous server of the session hosting protocol.
pub struct RendezvousServer {
    sessions: Sessions,
}

impl RendezvousServer {
    pub closed spec fn sessions(&self) -> Sessions {
        self.sessions
    }

    pub fn new() -> (res: Self)
        ensures
            res.sessions().wf(),
            res.sessions().hosting().len() == 0,
            res.sessions().connected().len() == 0,
    {
        RendezvousServer { sessions: Sessions::new() }
    }

    /// Handles a message from `addr`, written `addr_text`: a hello naming a
    /// known session is answered with where its host is; a request for a
    /// self-hosted session opens one and answers with its id; everything else
    /// is ignored.
    pub fn process_payload(
        &mut self,
        addr: NetAddress,
        addr_text: &str,
        message: MainPayloads,
        out: &mut Vec<Dispatch>,
    )
        requires
            old(self).sessions().wf(),
        ensures
            final(self).sessions().wf(),
            match message@ {
                MainPayloadsView::Hello { session_id, .. } => {
                    &&& final(self).sessions() == old(self).sessions()
                    &&& sent(final(out)@) == match lookup(old(self).sessions().hosting(), session_id) {
                        Some(info) => sent(old(out)@).push(
                            (
                                seq![addr],
                                MainPayloadsView::AttemptConnection {
                                    public_ip: info.public@,
                                    local_ip: info.private@,
                                },
                            ),
                        ),
                        None => sent(old(out)@),
                    }
                },
                MainPayloadsView::RequestSession { self_hosted } => if self_hosted {
                    exists|id: String|
                        {
                            &&& is_random_id(id@, 5)
                            &&& final(self).sessions().connected() == insert_pair(
                                old(self).sessions().connected(),
                                addr,
                                id,
                            )
                            &&& lookup(final(self).sessions().hosting(), id@) is Some
                            &&& final(self).sessions().hosting() == insert_pair(
                                old(self).sessions().hosting(),
                                id@,
                                lookup(final(self).sessions().hosting(), id@).unwrap(),
                            )
                            &&& lookup(final(self).sessions().hosting(), id@).unwrap().hoster == addr
                            &&& sent(final(out)@) == sent(old(out)@).push(
                                (seq![addr], MainPayloadsView::SessionDetails { session_id: id@ }),
                            )
                        }
                } else {
                    final(self).sessions() == old(self).sessions() && sent(final(out)@) == sent(old(out)@)
                },
                _ => final(self).sessions() == old(self).sessions() && sent(final(out)@) == sent(old(out)@),
            },
    {
        match message {
            MainPayloads::Hello { session_id, .. } => {
                proof {
                    lemma_key_position(self.sessions.hosting(), session_id@);
                }
                if let Some(session_info) = self.sessions.get_info_for_session(&session_id) {
                    let payload = MainPayloads::AttemptConnection {
                        public_ip: session_info.public.clone(),
                        local_ip: session_info.private.clone(),
                    };
                    let mut to: Vec<NetAddress> = Vec::new();
                    to.push(addr);
                    out.push(Dispatch { to, payload });
                    assert(sent(out@) =~= sent(old(out)@).push((seq![addr], payload@)));
                }
            },
            MainPayloads::RequestSession { self_hosted } => {
                if self_hosted {
                    let session_id = self.sessions.map_session_id_to_socket_info(addr, addr_text);
                    let ghost idv = session_id;
                    let payload = MainPayloads::SessionDetails { session_id };
                    let mut to: Vec<NetAddress> = Vec::new();
                    to.push(addr);
                    out.push(Dispatch { to, payload });
                    assert(sent(out@) =~= sent(old(out)@).push(
                        (seq![addr], MainPayloadsView::SessionDetails { session_id: idv@ }),
                    ));
                }
            },
            _ => {},
        }
    }
}

} // verus!
