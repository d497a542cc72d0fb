use vstd::prelude::*;

use crate::event::{instance_step, InstanceEvent};
use crate::record::{DiscoveredService, ServiceView};

verus! {

/// The models of a list of records.
pub open spec fn records_view(v: Seq<DiscoveredService>) -> Seq<ServiceView> {
    v.map_values(|r: DiscoveredService| r@)
}

/// No two records of the list share a `fullname`.
pub open spec fn fullnames_unique(s: Seq<ServiceView>) -> bool {
    forall|i: int, j: int| 0 <= i < j < s.len() ==> s[i].fullname != s[j].fullname
}

/// The list holds the records of the map, each once, in some order.
pub open spec fn lists_exactly(s: Seq<ServiceView>, m: Map<Seq<char>, ServiceView>) -> bool {
    &&& fullnames_unique(s)
    &&& forall|i: int|
        0 <= i < s.len() ==> #[trigger] m.contains_key(s[i].fullname) && m[s[i].fullname] == s[i]
    &&& forall|k: Seq<char>|
        #[trigger] m.contains_key(k) ==> exists|i: int| 0 <= i < s.len() && s[i].fullname == k
}

/// The store of discovered records, keyed by `fullname`.
pub struct Registry {
    services: Vec<DiscoveredService>,
    model: Ghost<Map<Seq<char>, ServiceView>>,
}

impl View for Registry {
    type V = Map<Seq<char>, ServiceView>;

    closed spec fn view(&self) -> Map<Seq<char>, ServiceView> {
        self.model@
    }
}

impl Registry {
    /// The stored records list the model exactly.
    pub closed spec fn wf(&self) -> bool {
        lists_exactly(records_view(self.services@), self.model@)
    }

    /// An empty registry.
    pub fn new() -> (r: Self)
        ensures
            r.wf(),
            r@ == Map::<Seq<char>, ServiceView>::empty(),
    {
        let r = Registry { services: Vec::new(), model: Ghost(Map::empty()) };
        assert(records_view(r.services@) =~= Seq::empty());
        r
    }

    /// Where the record under `name` is stored, if there is one.
    fn find(&self, name: &String) -> (r: Option<usize>)
        ensures
            match r {
                Some(i) => i < self.services@.len() && self.services@[i as int].fullname@ == name@,
                None => forall|i: int|
                    0 <= i < self.services@.len() ==> self.services@[i].fullname@ != name@,
            },
    {
        let mut i: usize = 0;
        while i < self.services.len()
            invariant
                i <= self.services@.len(),
                forall|m: int| 0 <= m < i ==> self.services@[m].fullname@ != name@,
            decreases self.services@.len() - i,
        {
            if self.services[i].fullname == *name {
                return Some(i);
            }
            i = i + 1;
        }
        None
    }

    /// Stores `record` under its `fullname`, replacing any record stored there.
    pub fn upsert(&mut self, record: DiscoveredService)
        requires
            old(self).wf(),
        ensures
            final(self).wf(),
            final(self)@ == old(self)@.insert(record.fullname@, record@),
    {
        let ghost k = record.fullname@;
        let ghost rv = record@;
        let ghost s0 = records_view(self.services@);
        let ghost m0 = self.model@;
        let found = self.find(&record.fullname);
        match found {
            Some(i) => {
                self.services.set(i, record);
                proof {
                    let s1 = records_view(self.services@);
                    assert(s1 =~= s0.update(i as int, rv));
                    assert(s0[i as int].fullname == k);
                    assert forall|a: int| 0 <= a < s1.len() implies #[trigger] s1[a].fullname
                        == s0[a].fullname by {}
                    assert(fullnames_unique(s1));
                    let m1 = m0.insert(k, rv);
                    assert forall|q: int| 0 <= q < s1.len() implies #[trigger] m1.contains_key(
                        s1[q].fullname,
                    ) && m1[s1[q].fullname] == s1[q] by {
                        if q != i {
                            assert(s0[q].fullname != s0[i as int].fullname);
                        }
                    }
                    assert forall|key: Seq<char>| #[trigger] m1.contains_key(key) implies exists|q: int|
                        0 <= q < s1.len() && s1[q].fullname == key by {
                        if key == k {
                            assert(s1[i as int].fullname == key);
                        } else {
                            let q = choose|q: int| 0 <= q < s0.len() && s0[q].fullname == key;
                            assert(s1[q].fullname == key);
                        }
                    }
                    self.model = Ghost(m1);
                }
            },
            None => {
                self.services.push(record);
                proof {
                    let s1 = records_view(self.services@);
                    assert(s1 =~= s0.push(rv));
                    let m1 = m0.insert(k, rv);
                    assert(!m0.contains_key(k)) by {
                        if m0.contains_key(k) {
                            let q = choose|q: int| 0 <= q < s0.len() && s0[q].fullname == k;
                            assert(s0[q].fullname == self.services@[q].fullname@);
                        }
                    }
                    assert forall|q: int| 0 <= q < s1.len() implies #[trigger] m1.contains_key(
                        s1[q].fullname,
                    ) && m1[s1[q].fullname] == s1[q] by {
                        if q < s0.len() {
                            assert(s1[q] == s0[q]);
                            assert(s0[q].fullname == self.services@[q].fullname@);
                        }
                    }
                    assert forall|key: Seq<char>| #[trigger] m1.contains_key(key) implies exists|q: int|
                        0 <= q < s1.len() && s1[q].fullname == key by {
                        if key == k {
                            assert(s1[s0.len() as int].fullname == key);
                        } else {
                            let q = choose|q: int| 0 <= q < s0.len() && s0[q].fullname == key;
                            assert(s1[q].fullname == key);
                        }
                    }
                    assert forall|a: int, b: int| 0 <= a < b < s1.len() implies s1[a].fullname
                        != s1[b].fullname by {
                        if b == s0.len() {
                            assert(s0[a].fullname == self.services@[a].fullname@);
                        }
                    }
                    self.model = Ghost(m1);
                }
            },
        }
    }

    /// Deletes the record under `fullname`; nothing happens when there is none.
    pub fn remove(&mut self, fullname: &String)
        requires
            old(self).wf(),
        ensures
            final(self).wf(),
            final(self)@ == old(self)@.remove(fullname@),
    {
        let ghost k = fullname@;
        let ghost s0 = records_view(self.services@);
        let ghost m0 = self.model@;
        let found = self.find(fullname);
        match found {
            Some(i) => {
                self.services.remove(i);
                proof {
                    let s1 = records_view(self.services@);
                    assert(s1 =~= s0.remove(i as int));
                    let m1 = m0.remove(k);
                    assert(s0[i as int].fullname == k);
                    assert forall|q: int| 0 <= q < s1.len() implies #[trigger] m1.contains_key(
                        s1[q].fullname,
                    ) && m1[s1[q].fullname] == s1[q] by {
                        if q < i {
                            assert(s1[q] == s0[q]);
                            assert(s0[q].fullname != s0[i as int].fullname);
                        } else {
                            assert(s1[q] == s0[q + 1]);
                            assert(s0[i as int].fullname != s0[q + 1].fullname);
                        }
                    }
                    assert forall|key: Seq<char>| #[trigger] m1.contains_key(key) implies exists|q: int|
                        0 <= q < s1.len() && s1[q].fullname == key by {
                        let q = choose|q: int| 0 <= q < s0.len() && s0[q].fullname == key;
                        if q < i {
                            assert(s1[q].fullname == key);
                        } else {
                            assert(s1[q - 1].fullname == key);
                        }
                    }
                    assert forall|a: int, b: int| 0 <= a < b < s1.len() implies s1[a].fullname
                        != s1[b].fullname by {
                        let a0 = if a < i { a } else { a + 1 };
                        let b0 = if b < i { b } else { b + 1 };
                        assert(s1[a] == s0[a0]);
                        assert(s1[b] == s0[b0]);
                    }
                    self.model = Ghost(m1);
                }
            },
            None => {
                proof {
                    assert(!m0.contains_key(k)) by {
                        if m0.contains_key(k) {
                            let q = choose|q: int| 0 <= q < s0.len() && s0[q].fullname == k;
                            assert(s0[q].fullname == self.services@[q].fullname@);
                        }
                    }
                    assert(m0.remove(k) =~= m0);
                }
            },
        }
    }

    /// A copy of every stored record, each once, in no particular order.
    pub fn snapshot(&self) -> (r: Vec<DiscoveredService>)
        requires
            self.wf(),
        ensures
            lists_exactly(records_view(r@), self@),
    {
        let mut out: Vec<DiscoveredService> = Vec::new();
        let mut i: usize = 0;
        while i < self.services.len()
            invariant
                i <= self.services@.len(),
                out@.len() == i,
                forall|m: int| 0 <= m < i ==> out@[m]@ == self.services@[m]@,
            decreases self.services@.len() - i,
        {
            out.push(self.services[i].copy_record());
            i = i + 1;
        }
        assert(records_view(out@) =~= records_view(self.services@));
        out
    }
}

} // verus!

verus! {

impl Registry {
    /// Applies one event of the stream of `service_type`'s instances, handled at time `now`:
    /// a resolution stores a fresh record, a removal deletes one, anything else is ignored.
    pub fn handle_event(&mut self, service_type: &String, ev: InstanceEvent, now: u64)
        requires
            old(self).wf(),
        ensures
            final(self).wf(),
            final(self)@ == instance_step(old(self)@, service_type@, ev@, now),
    {
        match ev {
            InstanceEvent::Resolved(info) => {
                let record = DiscoveredService::from_resolved(service_type.clone(), info, now);
                self.upsert(record);
            },
            InstanceEvent::Removed { fullname, .. } => {
                self.remove(&fullname);
            },
            InstanceEvent::Other => {},
        }
    }
}

} // verus!
