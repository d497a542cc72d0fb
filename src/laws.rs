use vstd::prelude::*;

use crate::event::{
    instance_step, run_events, type_step, InstanceEventView, TypeEventView,
};
use crate::record::{resolved_record, ServiceView};

verus! {

/// The known types after the type watcher handled `events` in order, and the types it
/// started watching, in the order it started them.
pub open spec fn run_type_events(known: Set<Seq<char>>, events: Seq<TypeEventView>) -> (
    Set<Seq<char>>,
    Seq<Seq<char>>,
)
    decreases events.len(),
{
    if events.len() == 0 {
        (known, Seq::empty())
    } else {
        let prev = run_type_events(known, events.drop_last());
        let step = type_step(prev.0, events.last());
        match step.1 {
            Some(t) => (step.0, prev.1.push(t)),
            None => (step.0, prev.1),
        }
    }
}

/// After any sequence of resolution events for one `fullname`, the registry holds
/// exactly the record built from the last of them, stamped with the time at which
/// that one was handled; every other entry is as before.
pub proof fn lemma_last_resolve_wins(
    reg: Map<Seq<char>, ServiceView>,
    service_type: Seq<char>,
    events: Seq<(InstanceEventView, u64)>,
    fullname: Seq<char>,
)
    requires
        events.len() > 0,
        forall|i: int|
            0 <= i < events.len() ==> (#[trigger] events[i]).0 is Resolved
                && events[i].0->Resolved_0.fullname == fullname,
    ensures
        run_events(reg, service_type, events) == reg.insert(
            fullname,
            resolved_record(service_type, events.last().0->Resolved_0, events.last().1),
        ),
    decreases events.len(),
{
    let last = events.last();
    assert(events[events.len() - 1] == last);
    let rec = resolved_record(service_type, last.0->Resolved_0, last.1);
    assert(last.0->Resolved_0.fullname == fullname);
    assert(run_events(reg, service_type, events) == instance_step(
        run_events(reg, service_type, events.drop_last()),
        service_type,
        last.0,
        last.1,
    ));
    if events.len() == 1 {
        assert(events.drop_last() =~= Seq::<(InstanceEventView, u64)>::empty());
        assert(run_events(reg, service_type, events.drop_last()) == reg);
    } else {
        let prefix = events.drop_last();
        assert forall|i: int| 0 <= i < prefix.len() implies (#[trigger] prefix[i]).0 is Resolved
            && prefix[i].0->Resolved_0.fullname == fullname by {
            assert(prefix[i] == events[i]);
        }
        lemma_last_resolve_wins(reg, service_type, prefix, fullname);
        let before = run_events(reg, service_type, prefix);
        assert(before.insert(fullname, rec) =~= reg.insert(fullname, rec));
    }
}

/// A removal of a `fullname` that the registry does not hold leaves it unchanged.
pub proof fn lemma_remove_absent_is_noop(
    reg: Map<Seq<char>, ServiceView>,
    service_type: Seq<char>,
    removed_type: Seq<char>,
    fullname: Seq<char>,
    now: u64,
)
    requires
        !reg.contains_key(fullname),
    ensures
        instance_step(
            reg,
            service_type,
            InstanceEventView::Removed { service_type: removed_type, fullname },
            now,
        ) == reg,
{
    assert(reg.remove(fullname) =~= reg);
}

/// An announcement of a type that is already known changes nothing and starts no watcher.
pub proof fn lemma_known_type_is_noop(
    known: Set<Seq<char>>,
    service_type: Seq<char>,
    fullname: Seq<char>,
)
    requires
        known.contains(fullname),
    ensures
        type_step(known, TypeEventView::Found { service_type, fullname }) == (
            known,
            None::<Seq<char>>,
        ),
{
}

/// Two announcements of one type in a row start one watcher: the first marks the
/// type known, the second changes nothing.
pub proof fn lemma_repeated_type_starts_once(
    known: Set<Seq<char>>,
    first_type: Seq<char>,
    second_type: Seq<char>,
    fullname: Seq<char>,
)
    ensures
        ({
            let first = type_step(known, TypeEventView::Found { service_type: first_type, fullname });
            &&& first.0.contains(fullname)
            &&& type_step(first.0, TypeEventView::Found { service_type: second_type, fullname })
                == (first.0, None::<Seq<char>>)
        }),
{
}

/// Over any sequence of type events, the watcher starts each type at most once and
/// never one that was known before; the known types are the earlier ones and those started.
pub proof fn lemma_types_start_at_most_once(known: Set<Seq<char>>, events: Seq<TypeEventView>)
    ensures
        ({
            let (now_known, started) = run_type_events(known, events);
            &&& started.no_duplicates()
            &&& forall|i: int| 0 <= i < started.len() ==> !known.contains(#[trigger] started[i])
            &&& forall|t: Seq<char>|
                #[trigger] now_known.contains(t) <==> known.contains(t) || started.contains(t)
        }),
    decreases events.len(),
{
    if events.len() > 0 {
        lemma_types_start_at_most_once(known, events.drop_last());
        let prev = run_type_events(known, events.drop_last());
        let step = type_step(prev.0, events.last());
        match step.1 {
            Some(t) => {
                let started = prev.1.push(t);
                assert(!prev.0.contains(t));
                assert forall|i: int| 0 <= i < started.len() implies !known.contains(
                    #[trigger] started[i],
                ) by {
                    if i < prev.1.len() {
                        assert(started[i] == prev.1[i]);
                    }
                }
                assert forall|x: Seq<char>| started.contains(x) <==> prev.1.contains(x) || x == t by {
                    if started.contains(x) {
                        let i = choose|i: int| 0 <= i < started.len() && started[i] == x;
                        if i < prev.1.len() {
                            assert(prev.1[i] == x);
                        }
                    }
                    if prev.1.contains(x) {
                        let i = choose|i: int| 0 <= i < prev.1.len() && prev.1[i] == x;
                        assert(started[i] == x);
                    }
                    if x == t {
                        assert(started[prev.1.len() as int] == x);
                    }
                }
                assert forall|a: int, b: int|
                    0 <= a < started.len() && 0 <= b < started.len() && a != b implies started[a]
                    != started[b] by {
                    if a < prev.1.len() && b < prev.1.len() {
                        assert(started[a] == prev.1[a] && started[b] == prev.1[b]);
                    } else if a < prev.1.len() {
                        assert(prev.1.contains(started[a]));
                    } else if b < prev.1.len() {
                        assert(prev.1.contains(started[b]));
                    }
                }
            },
            None => {},
        }
    }
}

} // verus!
