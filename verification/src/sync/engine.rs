//! The protocol of synchronization, whatever carries it.

use vstd::prelude::*;

use crate::error::Error;
use crate::sync::operation::{Operation, Round};
use crate::sync::syncable::{Syncable, UtcTimestamp};

verus! {

/// Synchronization engine.
///
/// An engine decides; the transport acts. Each method returns the operations
/// that carry its decision out, and an engine that keeps a picture of the
/// transport's state leaves the picture as those operations will leave the
/// transport.
pub trait SyncEngine {
    /// The endpoint of the remote, where one is configured.
    spec fn remote(&self) -> Option<Seq<char>>;

    /// Runs one round for the instance `current_instance` on the log as it
    /// was last fetched: reads the diffs of the other instances, takes the
    /// local changes since `base`, hands the remote diffs to `syncable`, and
    /// publishes the local diff. `base` is the moment of the last round of
    /// this instance that succeeded.
    ///
    /// The engine stays as it is: what the log looks like after the round is
    /// the transport's to say, and the next round starts from a fresh look
    /// at it.
    fn perform_sync<S: Syncable>(
        &self,
        current_instance: &str,
        syncable: &S,
        context: &S::Context,
        base: UtcTimestamp,
    ) -> Round;

    /// Registers `remote` as the one remote. There can be only one: the call
    /// fails, and changes nothing, where a remote is configured.
    fn add_remote(&mut self, remote: &str) -> (operation: Result<Operation, Error>)
        ensures
            old(self).remote() is Some ==> operation is Err && operation->Err_0
                == Error::RemoteAlreadyExists && final(self).remote() == old(self).remote(),
            old(self).remote() is None ==> operation is Ok && final(self).remote() == Some(remote@),
    ;

    /// Deletes the configured remote.
    fn remove_remote(&mut self) -> (operation: Result<Operation, Error>)
        ensures
            operation is Ok ==> final(self).remote() is None,
            operation is Err ==> final(self).remote() == old(self).remote(),
    ;

    /// Removes the configured remote, then adds `remote`.
    fn change_remote(&mut self, remote: &str) -> (operations: Result<Vec<Operation>, Error>)
        ensures
            operations is Ok ==> final(self).remote() == Some(remote@),
            operations is Err ==> final(self).remote() is None,
    ;
}

} // verus!
