//! Synchronization of instances through a shared, versioned log.

pub mod engine;
pub mod git_engine;
pub mod operation;
pub mod order;
pub mod repository;
pub mod syncable;

pub use self::engine::SyncEngine;
pub use self::git_engine::GitSyncEngine;
pub use self::operation::{Commit, Operation, Round, Signature};
pub use self::repository::{Config, InstanceFile, Repository};
pub use self::syncable::{Syncable, UtcTimestamp};
