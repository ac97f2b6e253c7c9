use std::collections::HashMap;
use std::hash::Hash;
use vstd::prelude::*;
use vstd::std_specs::cmp::PartialEqSpec;
use vstd::std_specs::hash::obeys_key_model;

verus! {

broadcast use vstd::std_specs::hash::group_hash_axioms;

/// Remembers the last value stored under each id and tells whether a new value
/// differs from it.
pub struct DiffChecker<A, B> {
    values: HashMap<A, B>,
}

impl<A, B> View for DiffChecker<A, B> {
    type V = Map<A, B>;

    closed spec fn view(&self) -> Map<A, B> {
        self.values@
    }
}

impl<A: Eq + Hash, B: PartialEq> DiffChecker<A, B> {
    pub fn new() -> (res: Self)
        ensures
            res@ == Map::<A, B>::empty(),
    {
        DiffChecker { values: HashMap::new() }
    }

    /// Stores `value` under `id`, returning whether a value was already stored
    /// under `id` and compared unequal to `value`.
    pub fn add(&mut self, id: A, value: B) -> (did_change: bool)
        ensures
            obeys_key_model::<A>() ==> final(self)@ == old(self)@.insert(id, value),
            obeys_key_model::<A>() && !old(self)@.contains_key(id) ==> !did_change,
            obeys_key_model::<A>() && old(self)@.contains_key(id) ==> call_ensures(
                B::ne,
                (&old(self)@[id], &value),
                did_change,
            ),
            obeys_key_model::<A>() && old(self)@.contains_key(id) && B::obeys_eq_spec()
                ==> did_change == !old(self)@[id].eq_spec(&value),
    {
        let did_change = match self.values.get(&id) {
            Some(x) => x.ne(&value),
            None => false,
        };
        self.values.insert(id, value);
        did_change
    }

    /// Forgets every stored value.
    pub fn clear(&mut self)
        ensures
            final(self)@ == Map::<A, B>::empty(),
    {
        self.values.clear()
    }
}

} // verus!
