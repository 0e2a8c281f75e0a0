//! The backends of a session: resolution of logical resource names against the operator's table,
//! and routing of a session's calls to the backends that the names stand for.

pub mod backendset;
pub mod laws;
pub mod name_map;
pub mod names;
pub mod payload;
pub mod resources;
pub mod slots;
pub mod steps;
pub mod wire;

pub use backendset::{BackendSet, DrainTarget, Recorded};
pub use name_map::NameMap;
pub use resources::{
    resolve, ResolveError, ResolvedResources, ResourceBinding, ResourceTable,
    TenantResourceBinding,
};
pub use slots::AsyncDeps;
pub use steps::{CallStep, ConnectRequest, Invocation};
pub use wire::{BackendMetrics, EgressError, ErrorOwner, WireInit};
