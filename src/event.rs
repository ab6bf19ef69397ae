//! Progress of an install or a removal, as a worker reports it.
use vstd::prelude::*;

use crate::error::PackageManagerError;

verus! {

#[derive(Debug)]
pub enum Event {
    /// Waiting for the lock to be removed from the store.
    AwaitingUnlock,
    /// When the store has been unlocked.
    Unlocked,
    /// Creating the directory for the package to be installed in the store.
    AllocatingInStore,
    /// (number of bytes copied, number of bytes to copy in total)
    CopySrcProgress(u64, u64),
    /// The operation failed; nothing follows this event.
    Error(PackageManagerError),
}

} // verus!
