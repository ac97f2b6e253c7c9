use vstd::prelude::*;

verus! {

/// Identifies a connected client.
pub type ClientId = u32;

/// The groups of flight controls whose command can be handed from one client to another.
#[derive(Clone, Copy, Debug, PartialEq, Eq, Structural, Hash)]
pub enum ControlSurfaces {
    Yoke,
    Throttle,
    Rudder,
    Brakes,
}

/// How many `ControlSurfaces` there are.
pub const CONTROL_SURFACE_COUNT: usize = 4;

impl ControlSurfaces {
    /// The position of the surface in `all()`.
    pub open spec fn slot(self) -> int {
        match self {
            ControlSurfaces::Yoke => 0,
            ControlSurfaces::Throttle => 1,
            ControlSurfaces::Rudder => 2,
            ControlSurfaces::Brakes => 3,
        }
    }

    pub fn index(&self) -> (i: usize)
        ensures
            i == self.slot(),
            i < CONTROL_SURFACE_COUNT,
    {
        match self {
            ControlSurfaces::Yoke => 0,
            ControlSurfaces::Throttle => 1,
            ControlSurfaces::Rudder => 2,
            ControlSurfaces::Brakes => 3,
        }
    }

    /// Every surface, each once.
    pub fn all() -> (res: Vec<ControlSurfaces>)
        ensures
            res.len() == CONTROL_SURFACE_COUNT,
            forall|i: int| 0 <= i < res.len() ==> (#[trigger] res@[i]).slot() == i,
    {
        vec![
            ControlSurfaces::Yoke,
            ControlSurfaces::Throttle,
            ControlSurfaces::Rudder,
            ControlSurfaces::Brakes,
        ]
    }
}

/// The surface at position `i` of `ControlSurfaces::all()`.
pub open spec fn surface_at(i: int) -> ControlSurfaces {
    if i == 0 {
        ControlSurfaces::Yoke
    } else if i == 1 {
        ControlSurfaces::Throttle
    } else if i == 2 {
        ControlSurfaces::Rudder
    } else {
        ControlSurfaces::Brakes
    }
}

/// The delegations held in one slot per surface, as a map.
pub open spec fn slots_as_map(slots: Seq<Option<ClientId>>) -> Map<ControlSurfaces, ClientId> {
    Map::new(|s: ControlSurfaces| slots[s.slot()] is Some, |s: ControlSurfaces| slots[s.slot()]->0)
}

/// `m` without the entries whose value is `to`.
pub open spec fn without_client(m: Map<ControlSurfaces, ClientId>, to: ClientId) -> Map<
    ControlSurfaces,
    ClientId,
> {
    Map::new(|s: ControlSurfaces| m.contains_key(s) && m[s] != to, |s: ControlSurfaces| m[s])
}

/// `m` with every surface it lacks given to `client`.
pub open spec fn filled_with(m: Map<ControlSurfaces, ClientId>, client: ClientId) -> Map<
    ControlSurfaces,
    ClientId,
> {
    Map::new(
        |s: ControlSurfaces| true,
        |s: ControlSurfaces|
            if m.contains_key(s) {
                m[s]
            } else {
                client
            },
    )
}

/// Which client commands which surface.
#[derive(Clone, Copy, Debug)]
pub struct ControlDelegationsMap {
    slots: [Option<ClientId>; 4],
}

impl View for ControlDelegationsMap {
    type V = Map<ControlSurfaces, ClientId>;

    closed spec fn view(&self) -> Map<ControlSurfaces, ClientId> {
        slots_as_map(self.slots@)
    }
}

impl ControlDelegationsMap {
    pub fn new() -> (res: Self)
        ensures
            res@ == Map::<ControlSurfaces, ClientId>::empty(),
    {
        let res = ControlDelegationsMap { slots: [None, None, None, None] };
        assert(res@ =~= Map::<ControlSurfaces, ClientId>::empty());
        res
    }

    pub fn get(&self, control: &ControlSurfaces) -> (res: Option<&ClientId>)
        ensures
            res == if self@.contains_key(*control) {
                Some(&self@[*control])
            } else {
                None
            },
    {
        let i = control.index();
        match &self.slots[i] {
            Some(id) => Some(id),
            None => None,
        }
    }

    pub fn insert(&mut self, control: ControlSurfaces, to: ClientId)
        ensures
            final(self)@ == old(self)@.insert(control, to),
    {
        let i = control.index();
        self.slots[i] = Some(to);
        assert(self@ =~= old(self)@.insert(control, to));
    }

    /// The number of surfaces that are delegated.
    pub fn len(&self) -> (n: usize)
        ensures
            n == self@.dom().len(),
    {
        let mut n: usize = 0;
        let mut i: usize = 0;
        assert(self@.dom().filter(|s: ControlSurfaces| s.slot() < 0) =~= Set::<ControlSurfaces>::empty());
        while i < CONTROL_SURFACE_COUNT
            invariant
                i <= CONTROL_SURFACE_COUNT,
                n == self@.dom().filter(|s: ControlSurfaces| s.slot() < i).len(),
                n <= i,
            decreases CONTROL_SURFACE_COUNT - i,
        {
            proof {
                self.lemma_prefix_step(i as int);
            }
            if self.slots[i].is_some() {
                n = n + 1;
            }
            i = i + 1;
        }
        assert(self@.dom().filter(|s: ControlSurfaces| s.slot() < 4) =~= self@.dom());
        n
    }

    proof fn lemma_prefix_step(&self, i: int)
        requires
            0 <= i < 4,
        ensures
            self@.dom().filter(|s: ControlSurfaces| s.slot() < i).finite(),
            self@.dom().filter(|s: ControlSurfaces| s.slot() < i + 1).len() == self@.dom().filter(
                |s: ControlSurfaces| s.slot() < i,
            ).len() + if self.slots@[i] is Some {
                1int
            } else {
                0int
            },
    {
        let below = self@.dom().filter(|s: ControlSurfaces| s.slot() < i);
        let upto = self@.dom().filter(|s: ControlSurfaces| s.slot() < i + 1);
        let all = set![
            ControlSurfaces::Yoke,
            ControlSurfaces::Throttle,
            ControlSurfaces::Rudder,
            ControlSurfaces::Brakes,
        ];
        assert forall|s: ControlSurfaces| #[trigger] all.contains(s) by {
            match s {
                ControlSurfaces::Yoke => {},
                ControlSurfaces::Throttle => {},
                ControlSurfaces::Rudder => {},
                ControlSurfaces::Brakes => {},
            }
        }
        assert(below.subset_of(all));
        assert(upto.subset_of(all));
        vstd::set_lib::lemma_len_subset(below, all);
        if self.slots@[i] is Some {
            assert(surface_at(i).slot() == i);
            assert(upto =~= below.insert(surface_at(i)));
        } else {
            assert forall|s: ControlSurfaces| upto.contains(s) implies below.contains(s) by {
                if s.slot() == i {
                    assert(self.slots@[s.slot()] is Some);
                }
            }
            assert(upto =~= below);
        }
    }

    /// Drops every delegation held by `to`.
    pub fn remove_client(&mut self, to: ClientId)
        ensures
            final(self)@ == without_client(old(self)@, to),
    {
        let mut i: usize = 0;
        while i < CONTROL_SURFACE_COUNT
            invariant
                i <= CONTROL_SURFACE_COUNT,
                forall|k: int|
                    0 <= k < i ==> #[trigger] self.slots@[k] == if old(self).slots@[k] == Some(to) {
                        None
                    } else {
                        old(self).slots@[k]
                    },
                forall|k: int| i <= k < 4 ==> #[trigger] self.slots@[k] == old(self).slots@[k],
            decreases CONTROL_SURFACE_COUNT - i,
        {
            if self.slots[i] == Some(to) {
                self.slots[i] = None;
            }
            i = i + 1;
        }
        assert(self@ =~= without_client(old(self)@, to));
    }

    /// Gives every surface that nobody holds to `client`.
    pub fn fill_empty(&mut self, client: ClientId)
        ensures
            final(self)@ == filled_with(old(self)@, client),
    {
        let mut i: usize = 0;
        while i < CONTROL_SURFACE_COUNT
            invariant
                i <= CONTROL_SURFACE_COUNT,
                forall|k: int|
                    0 <= k < i ==> #[trigger] self.slots@[k] == match old(self).slots@[k] {
                        Some(c) => Some(c),
                        None => Some(client),
                    },
                forall|k: int| i <= k < 4 ==> #[trigger] self.slots@[k] == old(self).slots@[k],
            decreases CONTROL_SURFACE_COUNT - i,
        {
            if self.slots[i].is_none() {
                self.slots[i] = Some(client);
            }
            i = i + 1;
        }
        assert(self@ =~= filled_with(old(self)@, client));
    }
}

} // verus!
