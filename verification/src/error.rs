//! The failures that an operation of this crate can report.

use vstd::prelude::*;

verus! {

/// Why an operation failed.
#[derive(Clone, Copy, Debug, PartialEq, Eq, Structural)]
pub enum Error {
    /// A filesystem operation failed.
    Io,
    /// The repository behind the transport could not be opened, cloned,
    /// initialized or committed to, or a remote could not be managed.
    Transport,
    /// Bytes are not the encoding of a diff or a changelog, or a value could
    /// not be encoded.
    Serialization,
    /// A remote was to be added while one is configured.
    RemoteAlreadyExists,
    /// The storage behind a `Syncable` failed.
    Storage,
}

} // verus!
