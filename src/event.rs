use vstd::prelude::*;

use crate::record::{resolved_record, ResolvedService, ResolvedView, ServiceView};

verus! {

/// An event of the stream that enumerates service types.
#[derive(Clone, Debug)]
pub enum TypeEvent {
    /// A service type was announced; `fullname` names the type to watch.
    Found { service_type: String, fullname: String },
    /// Any other kind of event.
    Other,
}

/// The model of a type event.
pub enum TypeEventView {
    Found { service_type: Seq<char>, fullname: Seq<char> },
    Other,
}

impl View for TypeEvent {
    type V = TypeEventView;

    open spec fn view(&self) -> TypeEventView {
        match self {
            TypeEvent::Found { service_type, fullname } => TypeEventView::Found {
                service_type: service_type@,
                fullname: fullname@,
            },
            TypeEvent::Other => TypeEventView::Other,
        }
    }
}

/// An event of the stream of one service type's instances.
#[derive(Clone, Debug)]
pub enum InstanceEvent {
    /// An instance's connection details are known.
    Resolved(ResolvedService),
    /// An instance is no longer advertised.
    Removed { service_type: String, fullname: String },
    /// Any other kind of event.
    Other,
}

/// The model of an instance event.
pub enum InstanceEventView {
    Resolved(ResolvedView),
    Removed { service_type: Seq<char>, fullname: Seq<char> },
    Other,
}

impl View for InstanceEvent {
    type V = InstanceEventView;

    open spec fn view(&self) -> InstanceEventView {
        match self {
            InstanceEvent::Resolved(info) => InstanceEventView::Resolved(info@),
            InstanceEvent::Removed { service_type, fullname } => InstanceEventView::Removed {
                service_type: service_type@,
                fullname: fullname@,
            },
            InstanceEvent::Other => InstanceEventView::Other,
        }
    }
}

/// How the set of known types changes on an event, and which type, if any,
/// is to be watched from then on.
pub open spec fn type_step(known: Set<Seq<char>>, ev: TypeEventView) -> (
    Set<Seq<char>>,
    Option<Seq<char>>,
) {
    match ev {
        TypeEventView::Found { fullname, .. } => if known.contains(fullname) {
            (known, None)
        } else {
            (known.insert(fullname), Some(fullname))
        },
        TypeEventView::Other => (known, None),
    }
}

/// How the registry changes when the watcher of `service_type` handles an event at time `now`.
pub open spec fn instance_step(
    reg: Map<Seq<char>, ServiceView>,
    service_type: Seq<char>,
    ev: InstanceEventView,
    now: u64,
) -> Map<Seq<char>, ServiceView> {
    match ev {
        InstanceEventView::Resolved(info) => reg.insert(
            info.fullname,
            resolved_record(service_type, info, now),
        ),
        InstanceEventView::Removed { fullname, .. } => reg.remove(fullname),
        InstanceEventView::Other => reg,
    }
}

/// The registry after the watcher of `service_type` handled `events` in order,
/// each with the time at which it was handled.
pub open spec fn run_events(
    reg: Map<Seq<char>, ServiceView>,
    service_type: Seq<char>,
    events: Seq<(InstanceEventView, u64)>,
) -> Map<Seq<char>, ServiceView>
    decreases events.len(),
{
    if events.len() == 0 {
        reg
    } else {
        instance_step(
            run_events(reg, service_type, events.drop_last()),
            service_type,
            events.last().0,
            events.last().1,
        )
    }
}

} // verus!
