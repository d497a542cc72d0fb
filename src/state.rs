use std::sync::Arc;
use vstd::prelude::*;
use vstd::rwlock::{RwLock, RwLockPredicate};

use crate::event::InstanceEvent;
use crate::record::{DiscoveredService, ServiceView};
use crate::registry::{lists_exactly, records_view, Registry};

verus! {

/// What every registry guarded by a [`DiscoveryState`] satisfies.
pub struct RegistryInv {}

impl RwLockPredicate<Registry> for RegistryInv {
    open spec fn inv(self, r: Registry) -> bool {
        r.wf()
    }
}

/// The list is the content of some registry: no two of its records share a `fullname`.
pub open spec fn is_snapshot(s: Seq<ServiceView>) -> bool {
    exists|m: Map<Seq<char>, ServiceView>| #[trigger] lists_exactly(s, m)
}

/// The registry shared between the watchers that write it and the readers that
/// take snapshots of it. Each access holds the lock for the whole registry, so a
/// reader sees the state between two writes, never a record half replaced.
#[derive(Clone)]
pub struct DiscoveryState {
    services: Arc<RwLock<Registry, RegistryInv>>,
}

impl DiscoveryState {
    /// A shared registry with no records.
    pub fn new() -> (s: Self) {
        let reg = Registry::new();
        DiscoveryState { services: Arc::new(RwLock::new(reg, Ghost(RegistryInv {}))) }
    }

    /// A copy of all records at one moment between writes, each `fullname` once,
    /// in no particular order.
    pub fn get_services(&self) -> (r: Vec<DiscoveredService>)
        ensures
            is_snapshot(records_view(r@)),
    {
        let handle = self.services.acquire_read();
        let reg = handle.borrow();
        let r = reg.snapshot();
        assert(lists_exactly(records_view(r@), reg@));
        handle.release_read();
        r
    }

    /// Stores `service` under its `fullname`, replacing any record stored there.
    pub fn update_service(&self, service: DiscoveredService) {
        let (mut reg, handle) = self.services.acquire_write();
        reg.upsert(service);
        handle.release_write(reg);
    }

    /// Deletes the record under `fullname`, if there is one.
    pub fn remove_service(&self, fullname: &str) {
        let name = fullname.to_owned();
        let (mut reg, handle) = self.services.acquire_write();
        reg.remove(&name);
        handle.release_write(reg);
    }

    /// Applies one event of `service_type`'s instance stream, handled at time `now`.
    pub fn handle_event(&self, service_type: &String, ev: InstanceEvent, now: u64) {
        let (mut reg, handle) = self.services.acquire_write();
        reg.handle_event(service_type, ev, now);
        handle.release_write(reg);
    }
}

} // verus!
