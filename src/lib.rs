//! Discovery of zero-configuration network services: the records of discovered
//! instances, the registry that holds them by `fullname`, the shared registry that
//! watchers write and readers snapshot, and the decisions of the type and instance
//! watchers.
use vstd::prelude::*;

pub mod event;
pub mod laws;
pub mod record;
pub mod registry;
pub mod state;
pub mod watcher;

pub use event::{InstanceEvent, TypeEvent};
pub use record::{collect_attributes, DiscoveredService, ResolvedService};
pub use registry::Registry;
pub use state::DiscoveryState;
pub use watcher::TypeWatcher;

verus! {

} // verus!
