use vstd::prelude::*;

use crate::net_address::NetAddress;

verus! {

/// A key that can be compared and copied by its view.
pub trait KeyEq: View + Sized {
    fn key_eq(&self, other: &Self) -> (res: bool)
        ensures
            res == (self@ == other@),
    ;

    fn key_clone(&self) -> (res: Self)
        ensures
            res@ == self@,
    ;
}

impl KeyEq for String {
    fn key_eq(&self, other: &Self) -> (res: bool) {
        *self == *other
    }

    fn key_clone(&self) -> (res: Self) {
        self.clone()
    }
}

impl View for NetAddress {
    type V = NetAddress;

    open spec fn view(&self) -> NetAddress {
        *self
    }
}

impl KeyEq for NetAddress {
    fn key_eq(&self, other: &Self) -> (res: bool) {
        *self == *other
    }

    fn key_clone(&self) -> (res: Self) {
        *self
    }
}

/// An IP address without a port: a 128-bit number and its family.
#[derive(Clone, Copy, Debug, PartialEq, Eq, Structural, Hash)]
pub struct IpKey {
    pub ip: u128,
    pub is_v6: bool,
}

impl View for IpKey {
    type V = IpKey;

    open spec fn view(&self) -> IpKey {
        *self
    }
}

impl KeyEq for IpKey {
    fn key_eq(&self, other: &Self) -> (res: bool) {
        *self == *other
    }

    fn key_clone(&self) -> (res: Self) {
        *self
    }
}

impl NetAddress {
    /// The IP address of this endpoint, without its port.
    pub open spec fn ip_key_spec(&self) -> IpKey {
        IpKey { ip: self.ip, is_v6: self.is_v6 }
    }

    pub fn ip_key(&self) -> (res: IpKey)
        ensures
            res == self.ip_key_spec(),
    {
        IpKey { ip: self.ip, is_v6: self.is_v6 }
    }
}

/// No key occurs twice in `s`.
pub open spec fn unique_keys<K, V>(s: Seq<(K, V)>) -> bool {
    forall|i: int, j: int| 0 <= i < s.len() && 0 <= j < s.len() && i != j ==> s[i].0 != s[j].0
}

/// Where `k` stands among the keys of `s`, or -1.
#[verifier::opaque]
pub open spec fn key_position<K, V>(s: Seq<(K, V)>, k: K) -> int {
    if exists|i: int| 0 <= i < s.len() && s[i].0 == k {
        choose|i: int| 0 <= i < s.len() && s[i].0 == k
    } else {
        -1
    }
}

pub proof fn lemma_key_position<K, V>(s: Seq<(K, V)>, k: K)
    ensures
        -1 <= key_position(s, k) < s.len(),
        key_position(s, k) >= 0 ==> s[key_position(s, k)].0 == k,
        key_position(s, k) < 0 ==> forall|i: int| 0 <= i < s.len() ==> s[i].0 != k,
        unique_keys(s) ==> forall|i: int| 0 <= i < s.len() && s[i].0 == k ==> key_position(s, k) == i,
{
    reveal(key_position);
}

/// Two lists with the same keys in the same order find each key at the same
/// place.
pub proof fn lemma_same_keys<K, V, W>(s: Seq<(K, V)>, t: Seq<(K, W)>, k: K)
    requires
        s.len() == t.len(),
        forall|i: int| 0 <= i < s.len() ==> s[i].0 == #[trigger] t[i].0,
        unique_keys(s),
    ensures
        unique_keys(t),
        key_position(s, k) == key_position(t, k),
{
    lemma_key_position(s, k);
    lemma_key_position(t, k);
    assert forall|i: int, j: int| 0 <= i < t.len() && 0 <= j < t.len() && i != j implies t[i].0 != t[j].0 by {
        assert(s[i].0 == t[i].0);
        assert(s[j].0 == t[j].0);
    }
    if key_position(s, k) >= 0 {
        let p = key_position(s, k);
        assert(t[p].0 == k);
    } else if key_position(t, k) >= 0 {
        let q = key_position(t, k);
        assert(s[q].0 == t[q].0);
    }
}

/// The value at `k` in `s`, if any.
pub open spec fn lookup<K, V>(s: Seq<(K, V)>, k: K) -> Option<V> {
    let p = key_position(s, k);
    if p >= 0 {
        Some(s[p].1)
    } else {
        None
    }
}

/// `s` with the value at `k` replaced, or with `(k, v)` added at the end.
pub open spec fn insert_pair<K, V>(s: Seq<(K, V)>, k: K, v: V) -> Seq<(K, V)> {
    let p = key_position(s, k);
    if p >= 0 {
        s.update(p, (k, v))
    } else {
        s.push((k, v))
    }
}

/// `s` without the entry at `k`.
pub open spec fn remove_key<K, V>(s: Seq<(K, V)>, k: K) -> Seq<(K, V)> {
    let p = key_position(s, k);
    if p >= 0 {
        s.remove(p)
    } else {
        s
    }
}

/// After an insertion the key holds the value inserted.
pub proof fn lemma_lookup_insert<K, V>(s: Seq<(K, V)>, k: K, v: V)
    requires
        unique_keys(s),
    ensures
        lookup(insert_pair(s, k, v), k) == Some(v),
        key_position(insert_pair(s, k, v), k) == if key_position(s, k) >= 0 {
            key_position(s, k)
        } else {
            s.len() as int
        },
{
    lemma_key_position(s, k);
    lemma_insert_pair_unique(s, k, v);
    let t = insert_pair(s, k, v);
    lemma_key_position(t, k);
    let idx = if key_position(s, k) >= 0 {
        key_position(s, k)
    } else {
        s.len() as int
    };
    assert(t[idx] == (k, v));
}

pub proof fn lemma_insert_pair_unique<K, V>(s: Seq<(K, V)>, k: K, v: V)
    requires
        unique_keys(s),
    ensures
        unique_keys(insert_pair(s, k, v)),
{
    lemma_key_position(s, k);
}

pub proof fn lemma_remove_key_unique<K, V>(s: Seq<(K, V)>, k: K)
    requires
        unique_keys(s),
    ensures
        unique_keys(remove_key(s, k)),
{
    lemma_key_position(s, k);
    let p = key_position(s, k);
    if p >= 0 {
        let r = s.remove(p);
        assert forall|i: int, j: int| 0 <= i < r.len() && 0 <= j < r.len() && i != j implies r[i].0
            != r[j].0 by {
            let a = if i < p {
                i
            } else {
                i + 1
            };
            let b = if j < p {
                j
            } else {
                j + 1
            };
            assert(r[i] == s[a]);
            assert(r[j] == s[b]);
        }
    }
}

/// Dropping entries keeps keys unique.
pub proof fn lemma_filter_unique<K, V>(s: Seq<(K, V)>, pred: spec_fn((K, V)) -> bool)
    requires
        unique_keys(s),
    ensures
        unique_keys(s.filter(pred)),
    decreases s.len(),
{
    reveal_with_fuel(Seq::filter, 1);
    if s.len() > 0 {
        let rest = s.drop_last();
        assert(unique_keys(rest));
        lemma_filter_unique(rest, pred);
        let f = rest.filter(pred);
        if pred(s.last()) {
            let g = f.push(s.last());
            assert(s.filter(pred) == g);
            assert forall|i: int, j: int| 0 <= i < g.len() && 0 <= j < g.len() && i != j implies g[i].0
                != g[j].0 by {
                if i < f.len() && j < f.len() {
                } else {
                    let k = if i < f.len() {
                        i
                    } else {
                        j
                    };
                    if k < f.len() {
                        rest.lemma_filter_contains_rev(pred, f[k]);
                        let m = choose|m: int| 0 <= m < rest.len() && rest[m] == f[k];
                        assert(s[m] == rest[m]);
                        assert(s[s.len() - 1] == s.last());
                    }
                }
            }
        } else {
            assert(s.filter(pred) == f);
        }
    }
}

/// A map kept as a list of pairs in the order their keys were first inserted;
/// no key occurs twice. Its keys are names, session ids and endpoints, which
/// `KeyEq` compares by value, so the contracts can say exactly what a lookup
/// finds; and where a server picks "the next" client, it is the first one
/// that joined.
pub struct AssocList<K, V> {
    entries: Vec<(K, V)>,
}

impl<K: KeyEq, V> AssocList<K, V> {
    /// The entries, keys by their views, in order.
    pub closed spec fn pairs(&self) -> Seq<(K::V, V)> {
        self.entries@.map_values(|e: (K, V)| (e.0@, e.1))
    }

    pub open spec fn wf(&self) -> bool {
        unique_keys(self.pairs())
    }

    pub fn new() -> (res: Self)
        ensures
            res.wf(),
            res.pairs() == Seq::<(K::V, V)>::empty(),
    {
        let res = AssocList { entries: Vec::new() };
        assert(res.pairs() =~= Seq::<(K::V, V)>::empty());
        res
    }

    pub fn len(&self) -> (res: usize)
        ensures
            res == self.pairs().len(),
    {
        self.entries.len()
    }

    pub fn is_empty(&self) -> (res: bool)
        ensures
            res == (self.pairs().len() == 0),
    {
        self.entries.len() == 0
    }

    /// Where `k` stands, if present.
    pub fn position(&self, k: &K) -> (res: Option<usize>)
        requires
            self.wf(),
        ensures
            match res {
                Some(i) => i < self.pairs().len() && key_position(self.pairs(), k@) == i,
                None => key_position(self.pairs(), k@) == -1,
            },
    {
        let mut i: usize = 0;
        while i < self.entries.len()
            invariant
                i <= self.entries.len(),
                self.wf(),
                forall|j: int| 0 <= j < i ==> self.pairs()[j].0 != k@,
            decreases self.entries.len() - i,
        {
            if self.entries[i].0.key_eq(k) {
                proof {
                    lemma_key_position(self.pairs(), k@);
                    assert(self.pairs()[i as int].0 == k@);
                }
                return Some(i);
            }
            i = i + 1;
        }
        proof {
            lemma_key_position(self.pairs(), k@);
            if key_position(self.pairs(), k@) >= 0 {
                assert(self.pairs()[key_position(self.pairs(), k@)].0 == k@);
            }
        }
        None
    }

    pub fn contains_key(&self, k: &K) -> (res: bool)
        requires
            self.wf(),
        ensures
            res == (lookup(self.pairs(), k@) is Some),
    {
        self.position(k).is_some()
    }

    /// The key at `i`.
    pub fn key_at(&self, i: usize) -> (res: &K)
        requires
            i < self.pairs().len(),
        ensures
            res@ == self.pairs()[i as int].0,
    {
        &self.entries[i].0
    }

    /// The value at `i`.
    pub fn value_at(&self, i: usize) -> (res: &V)
        requires
            i < self.pairs().len(),
        ensures
            *res == self.pairs()[i as int].1,
    {
        &self.entries[i].1
    }

    /// The value at `k`, if present.
    pub fn get(&self, k: &K) -> (res: Option<&V>)
        requires
            self.wf(),
        ensures
            match lookup(self.pairs(), k@) {
                Some(v) => res == Some(&v),
                None => res is None,
            },
    {
        match self.position(k) {
            Some(i) => Some(&self.entries[i].1),
            None => None,
        }
    }

    /// Replaces the value at `i`, returning the one it held.
    pub fn replace_at(&mut self, i: usize, v: V) -> (res: V)
        requires
            old(self).wf(),
            i < old(self).pairs().len(),
        ensures
            final(self).wf(),
            res == old(self).pairs()[i as int].1,
            final(self).pairs() == old(self).pairs().update(
                i as int,
                (old(self).pairs()[i as int].0, v),
            ),
    {
        let ghost before = self.pairs();
        let (k, old_v) = self.entries.remove(i);
        self.entries.insert(i, (k, v));
        proof {
            assert(self.pairs() =~= before.update(i as int, (before[i as int].0, v)));
            assert forall|a: int, b: int|
                0 <= a < self.pairs().len() && 0 <= b < self.pairs().len() && a != b implies self.pairs()[a].0
                != self.pairs()[b].0 by {
                assert(self.pairs()[a].0 == before[a].0);
                assert(self.pairs()[b].0 == before[b].0);
            }
        }
        old_v
    }

    /// Puts `v` at `k`, returning what was there.
    pub fn insert(&mut self, k: K, v: V) -> (res: Option<V>)
        requires
            old(self).wf(),
        ensures
            final(self).wf(),
            final(self).pairs() == insert_pair(old(self).pairs(), k@, v),
            res == lookup(old(self).pairs(), k@),
    {
        proof {
            lemma_key_position(self.pairs(), k@);
            lemma_insert_pair_unique(self.pairs(), k@, v);
        }
        match self.position(&k) {
            Some(i) => {
                let ghost kv = k@;
                let ghost before = self.pairs();
                let old_v = self.replace_at(i, v);
                assert(self.pairs() =~= before.update(i as int, (kv, v)));
                Some(old_v)
            },
            None => {
                let ghost before = self.pairs();
                let ghost kv = k@;
                self.entries.push((k, v));
                assert(self.pairs() =~= before.push((kv, v)));
                None
            },
        }
    }

    /// Removes the entry at `k`, returning its value.
    pub fn remove(&mut self, k: &K) -> (res: Option<V>)
        requires
            old(self).wf(),
        ensures
            final(self).wf(),
            final(self).pairs() == remove_key(old(self).pairs(), k@),
            res == lookup(old(self).pairs(), k@),
    {
        proof {
            lemma_key_position(self.pairs(), k@);
            lemma_remove_key_unique(self.pairs(), k@);
        }
        match self.position(k) {
            Some(i) => {
                let ghost before = self.pairs();
                let (_, v) = self.entries.remove(i);
                assert(self.pairs() =~= before.remove(i as int));
                Some(v)
            },
            None => None,
        }
    }

    /// Removes the entry at `i`, returning it.
    pub fn remove_at(&mut self, i: usize) -> (res: (K, V))
        requires
            old(self).wf(),
            i < old(self).pairs().len(),
        ensures
            final(self).wf(),
            final(self).pairs() == old(self).pairs().remove(i as int),
            (res.0@, res.1) == old(self).pairs()[i as int],
    {
        let ghost before = self.pairs();
        proof {
            lemma_key_position(before, before[i as int].0);
            lemma_remove_key_unique(before, before[i as int].0);
        }
        let e = self.entries.remove(i);
        assert(self.pairs() =~= before.remove(i as int));
        e
    }
}

} // verus!
