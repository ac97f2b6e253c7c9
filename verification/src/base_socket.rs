use vstd::prelude::*;

use crate::net_address::NetAddress;
use crate::single_server::Message;

verus! {

/// What the UDP transport reports, with a packet's payload already decoded:
/// `None` when it did not decode.
#[derive(Debug)]
pub enum SocketEvent<T> {
    Connect(NetAddress),
    Timeout(NetAddress),
    Packet(Option<T>, NetAddress),
    Other,
}

/// No address occurs twice in `s`.
pub open spec fn no_duplicates(s: Seq<NetAddress>) -> bool {
    forall|i: int, j: int| 0 <= i < s.len() && 0 <= j < s.len() && i != j ==> s[i] != s[j]
}

/// `s` without `addr`.
pub open spec fn without(s: Seq<NetAddress>, addr: NetAddress) -> Seq<NetAddress> {
    s.filter(|a: NetAddress| a != addr)
}

/// The addresses a transport is connected with, each once, in the order they
/// connected.
pub struct Connections {
    connections: Vec<NetAddress>,
}

impl Connections {
    pub closed spec fn members(&self) -> Seq<NetAddress> {
        self.connections@
    }

    pub open spec fn wf(&self) -> bool {
        no_duplicates(self.members())
    }

    pub fn new() -> (res: Self)
        ensures
            res.wf(),
            res.members() == Seq::<NetAddress>::empty(),
    {
        let res = Connections { connections: Vec::new() };
        assert(res.members() =~= Seq::<NetAddress>::empty());
        res
    }

    /// Whether `addr` is connected.
    pub fn contains(&self, addr: NetAddress) -> (res: bool)
        ensures
            res == self.members().contains(addr),
    {
        let mut i: usize = 0;
        while i < self.connections.len()
            invariant
                i <= self.members().len(),
                forall|j: int| 0 <= j < i ==> self.members()[j] != addr,
            decreases self.members().len() - i,
        {
            if self.connections[i] == addr {
                assert(self.members()[i as int] == addr);
                return true;
            }
            i = i + 1;
        }
        false
    }

    /// Records a transport event and says what it means to the server: a new
    /// connection is added and announced, a timed out one removed and
    /// announced as lost, a decoded payload handed over; nothing else is.
    pub fn on_event<T>(&mut self, event: SocketEvent<T>) -> (res: Option<Message<T>>)
        requires
            old(self).wf(),
        ensures
            final(self).wf(),
            match event {
                SocketEvent::Connect(a) => {
                    &&& final(self).members() == if old(self).members().contains(a) {
                        old(self).members()
                    } else {
                        old(self).members().push(a)
                    }
                    &&& res == Some(Message::<T>::NewConnection(a))
                },
                SocketEvent::Timeout(a) => {
                    &&& final(self).members() == without(old(self).members(), a)
                    &&& res == Some(Message::<T>::LostConnection(a))
                },
                SocketEvent::Packet(Some(p), a) => {
                    &&& final(self).members() == old(self).members()
                    &&& res == Some(Message::Payload(p, a))
                },
                _ => final(self).members() == old(self).members() && res is None,
            },
    {
        match event {
            SocketEvent::Connect(a) => {
                if !self.contains(a) {
                    self.connections.push(a);
                    proof {
                        assert forall|i: int, j: int|
                            0 <= i < self.members().len() && 0 <= j < self.members().len() && i != j implies
                            self.members()[i] != self.members()[j] by {
                            if i < old(self).members().len() && j < old(self).members().len() {
                                assert(self.members()[i] == old(self).members()[i]);
                                assert(self.members()[j] == old(self).members()[j]);
                            } else if i < old(self).members().len() {
                                assert(self.members()[i] == old(self).members()[i]);
                            } else {
                                assert(self.members()[j] == old(self).members()[j]);
                            }
                        }
                    }
                }
                Some(Message::NewConnection(a))
            },
            SocketEvent::Timeout(a) => {
                self.remove(a);
                Some(Message::LostConnection(a))
            },
            SocketEvent::Packet(Some(p), a) => Some(Message::Payload(p, a)),
            _ => None,
        }
    }

    /// Takes `addr` out.
    fn remove(&mut self, addr: NetAddress)
        requires
            old(self).wf(),
        ensures
            final(self).wf(),
            final(self).members() == without(old(self).members(), addr),
    {
        let ghost pre = self.members();
        let mut kept: Vec<NetAddress> = Vec::new();
        let mut i: usize = 0;
        while i < self.connections.len()
            invariant
                i <= pre.len(),
                self.members() == pre,
                no_duplicates(pre),
                kept@ == without(pre.take(i as int), addr),
            decreases pre.len() - i,
        {
            let a = self.connections[i];
            proof {
                assert(pre.take(i as int + 1) =~= pre.take(i as int).push(a));
                assert(without(pre.take(i as int).push(a), addr) =~= if a != addr {
                    without(pre.take(i as int), addr).push(a)
                } else {
                    without(pre.take(i as int), addr)
                }) by {
                    reveal_with_fuel(Seq::filter, 1);
                    assert(pre.take(i as int).push(a).drop_last() =~= pre.take(i as int));
                }
            }
            if a != addr {
                kept.push(a);
            }
            i = i + 1;
        }
        assert(pre.take(pre.len() as int) =~= pre);
        proof {
            lemma_without_unique(pre, addr);
        }
        self.connections = kept;
    }

    /// The connected addresses but `self_addr`.
    pub fn all_except(&self, self_addr: NetAddress) -> (res: Vec<NetAddress>)
        ensures
            res@ == without(self.members(), self_addr),
    {
        let ghost pre = self.members();
        let mut res: Vec<NetAddress> = Vec::new();
        let mut i: usize = 0;
        while i < self.connections.len()
            invariant
                i <= pre.len(),
                self.members() == pre,
                res@ == without(pre.take(i as int), self_addr),
            decreases pre.len() - i,
        {
            let a = self.connections[i];
            proof {
                assert(pre.take(i as int + 1) =~= pre.take(i as int).push(a));
                assert(without(pre.take(i as int).push(a), self_addr) =~= if a != self_addr {
                    without(pre.take(i as int), self_addr).push(a)
                } else {
                    without(pre.take(i as int), self_addr)
                }) by {
                    reveal_with_fuel(Seq::filter, 1);
                    assert(pre.take(i as int).push(a).drop_last() =~= pre.take(i as int));
                }
            }
            if a != self_addr {
                res.push(a);
            }
            i = i + 1;
        }
        assert(pre.take(pre.len() as int) =~= pre);
        res
    }
}

/// Leaving an address out keeps every address once, and keeps only
/// addresses that were there.
proof fn lemma_without_unique(s: Seq<NetAddress>, addr: NetAddress)
    requires
        no_duplicates(s),
    ensures
        no_duplicates(without(s, addr)),
        forall|i: int| 0 <= i < without(s, addr).len() ==> s.contains(#[trigger] without(s, addr)[i]),
    decreases s.len(),
{
    reveal_with_fuel(Seq::filter, 1);
    if s.len() > 0 {
        let r = s.drop_last();
        assert forall|i: int, j: int| 0 <= i < r.len() && 0 <= j < r.len() && i != j implies r[i] != r[j] by {
            assert(r[i] == s[i]);
            assert(r[j] == s[j]);
        }
        lemma_without_unique(r, addr);
        assert(s =~= r.push(s.last()));
        let w = without(r, addr);
        assert forall|i: int| 0 <= i < w.len() implies s.contains(w[i]) && w[i] != s.last() by {
            assert(r.contains(w[i]));
            let k = choose|k: int| 0 <= k < r.len() && r[k] == w[i];
            assert(s[k] == r[k]);
        }
        if s.last() != addr {
            assert(without(s, addr) =~= w.push(s.last()));
        } else {
            assert(without(s, addr) =~= w);
        }
    } else {
        assert(without(s, addr) =~= s);
    }
}

} // verus!
