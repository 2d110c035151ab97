//! Synchronization core of a personal finance backend.
//!
//! Independent instances of one local data store exchange their changes
//! through a shared, version-controlled log. This crate holds the data
//! model of those changes, the boundary that a storage backend implements
//! to take part, the decisions of a synchronization round, and a buffer for
//! secrets that is erased when it is released.

pub mod crypto;
pub mod error;
pub mod location;
pub mod model;
pub mod storage;
pub mod sync;
