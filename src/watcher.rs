use vstd::prelude::*;

use crate::event::{type_step, TypeEvent};

verus! {

/// The view of an optional string.
pub open spec fn opt_view(o: Option<String>) -> Option<Seq<char>> {
    match o {
        Some(s) => Some(s@),
        None => None,
    }
}

/// The set of service types already being watched; it only grows.
pub struct TypeWatcher {
    known: Vec<String>,
}

impl View for TypeWatcher {
    type V = Set<Seq<char>>;

    closed spec fn view(&self) -> Set<Seq<char>> {
        Set::new(|t: Seq<char>| exists|i: int| 0 <= i < self.known@.len() && self.known@[i]@ == t)
    }
}

impl TypeWatcher {
    /// A watcher that knows no type yet.
    pub fn new() -> (r: Self)
        ensures
            r@ == Set::<Seq<char>>::empty(),
    {
        let r = TypeWatcher { known: Vec::new() };
        assert(r@ =~= Set::<Seq<char>>::empty());
        r
    }

    /// Whether `service_type` is already watched.
    pub fn is_known(&self, service_type: &String) -> (r: bool)
        ensures
            r == self@.contains(service_type@),
    {
        let mut i: usize = 0;
        while i < self.known.len()
            invariant
                i <= self.known@.len(),
                forall|m: int| 0 <= m < i ==> self.known@[m]@ != service_type@,
            decreases self.known@.len() - i,
        {
            if self.known[i] == *service_type {
                assert(self@.contains(self.known@[i as int]@));
                return true;
            }
            i = i + 1;
        }
        false
    }

    /// Handles one event of the type stream. A newly announced type is marked known and
    /// returned, to be watched; a type already known and any other event change nothing.
    pub fn on_event(&mut self, ev: TypeEvent) -> (r: Option<String>)
        ensures
            (final(self)@, opt_view(r)) == type_step(old(self)@, ev@),
    {
        match ev {
            TypeEvent::Found { fullname, .. } => {
                if self.is_known(&fullname) {
                    None
                } else {
                    let ghost before = self@;
                    let ghost old_known = self.known@;
                    self.known.push(fullname.clone());
                    proof {
                        assert forall|t: Seq<char>| self@.contains(t) <==> before.insert(
                            fullname@,
                        ).contains(t) by {
                            if before.contains(t) {
                                let i = choose|i: int|
                                    0 <= i < old_known.len() && old_known[i]@ == t;
                                assert(self.known@[i] == old_known[i]);
                            }
                            if self@.contains(t) && t != fullname@ {
                                let i = choose|i: int|
                                    0 <= i < self.known@.len() && self.known@[i]@ == t;
                                assert(i < old_known.len());
                                assert(self.known@[i] == old_known[i]);
                            }
                            if t == fullname@ {
                                assert(self.known@[old_known.len() as int]@ == t);
                            }
                        }
                        assert(self@ =~= before.insert(fullname@));
                    }
                    Some(fullname)
                }
            },
            TypeEvent::Other => None,
        }
    }
}

} // verus!
