//! Managed devices: lifecycle, registries, discovery, enrolment, sync groups
//! and the device drivers.

pub mod broadcaster;
pub mod cast;
pub mod discovery;
pub mod driver_registry;
pub mod enroll;
pub mod projection;
pub mod registry;
pub mod state_machine;
pub mod sync_drift;
pub mod sync_runtime;
pub mod zowietek;

pub use broadcaster::DeviceBroadcaster;
pub use discovery::{
    DiscoveredEndpoint, DiscoveredService, DiscoveryBrowser, DiscoveryDriverKind,
    DiscoveryInventory, NullBrowser, RawDiscoveredService, StaticBrowser,
};
pub use projection::{OutputTarget, SourceCandidate};
pub use registry::DeviceStatusRegistry;
pub use state_machine::{DeviceLifecycle, LifecycleEvent};
