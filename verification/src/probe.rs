//! Filesystem presence probe used before opening the store and before
//! dispatching playback.

use vstd::prelude::*;

verus! {

/// Relies on std::path::Path::exists: whether something is present on
/// the filesystem at `path` at the moment of the call. The answer
/// depends on the state of the disk, so nothing is stated of it; every
/// caller states what it does for either answer.
#[verifier::external_body]
pub(crate) fn path_exists(path: &str) -> bool {
    std::path::Path::new(path).exists()
}

} // verus!
