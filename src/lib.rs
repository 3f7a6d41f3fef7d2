//! A pool of hot-pluggable block devices exposed as a sharded object store.
//!
//! The library holds the decisions: which path an object lives at, how device
//! records change on hotplug events, which devices a reconciliation pass may
//! mount, and which mounted device an upload is placed on. The process that
//! talks to the kernel, the database and the network hands it plain values.

pub mod device;
pub mod ids;
pub mod placement;
pub mod probe;
pub mod reconcile;
pub mod select;
pub mod store_laws;
pub mod text;

pub use device::{Device, DeviceTable};
pub use placement::{
    SegmentError, SegmentRole, ServerConfig, StorageError, StorageImpl, WriteSession,
};
