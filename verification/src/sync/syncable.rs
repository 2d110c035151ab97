//! What a storage backend offers to take part in synchronization.

use vstd::prelude::*;

use crate::error::Error;

verus! {

/// A moment in time, counted from 1970-01-01 00:00:00 UTC.
#[derive(Clone, Copy, Debug, PartialEq, Eq, Structural)]
pub struct UtcTimestamp {
    /// Whole seconds since the start of the count.
    pub seconds: i64,
    /// Nanoseconds into the second.
    pub nanoseconds: u32,
}

/// The synchronization interface of a storage backend.
///
/// An engine calls these methods in the course of a round. What they return
/// is the backend's own matter: the engine passes a failure on as it is and
/// makes no assumption about a diff.
pub trait Syncable {
    /// The changes of a store since some moment.
    type Diff;

    /// What the backend needs beside a diff to encode it.
    type Context;

    /// Creates the diff of the local changes that took effect after `base`.
    /// The store is only read.
    fn diff_since(&self, base: UtcTimestamp) -> Result<Self::Diff, Error>;

    /// Applies `diffs` to the local store one by one, in the order given.
    /// Where two diffs touch one entity the later one wins.
    fn merge_diffs(&self, diffs: Vec<Self::Diff>) -> Result<(), Error>;

    /// Encodes `diff`, tagged with the name of the instance it belongs to.
    fn serialize_diff(
        &self,
        diff: Self::Diff,
        instance: &str,
        context: &Self::Context,
    ) -> Result<Vec<u8>, Error>;

    /// Decodes the diff that the instance `instance` published as `bytes`.
    fn deserialize_diff(&self, instance: &str, bytes: &[u8]) -> Result<Self::Diff, Error>;
}

} // verus!
