//! The place of the application's data, as the rest of the crate sees it.

use vstd::prelude::*;

use crate::error::Error;
use crate::location::store_path::StorePath;

verus! {

/// A place in the filesystem where the application keeps its data.
pub trait Location {
    /// The path of the place.
    fn root(&self) -> StorePath;

    /// Whether the place exists.
    fn is_present(&self) -> bool;

    /// Creates the place unless it exists.
    fn create_if_absent(&self) -> Result<(), Error>;
}

} // verus!
