//! Device discovery stub for Windows.

use crate::device::Device;
use crate::errors::DiscoveryError;
use vstd::prelude::*;

verus! {

/// Discovery is not implemented on Windows: the call always fails with
/// [`DiscoveryError::Unsupported`], so a caller can tell "no devices" from
/// "not implemented here".
pub fn get_removable_devices() -> (r: Result<Vec<Device>, DiscoveryError>)
    ensures
        r == Err::<Vec<Device>, DiscoveryError>(DiscoveryError::Unsupported),
{
    Err(DiscoveryError::Unsupported)
}

} // verus!
