//! Error kinds returned by the discovery, read and write pipelines.
//!
//! Cancellation is a distinct kind everywhere, so that a caller can render
//! "cancelled" rather than "failed". None of these carry OS error details;
//! the front end owns the mapping to user-visible messages.

use vstd::prelude::*;

verus! {

/// Failure of removable-device discovery.
#[derive(Clone, Copy, Debug, PartialEq, Eq, Structural)]
pub enum DiscoveryError {
    /// The root mount could not be mapped to a backing device.
    SystemDriveUnknown,
    /// Discovery is not implemented on this platform.
    Unsupported,
    /// The OS failed while the device list was being gathered.
    IoFailure,
}

/// Failure of the device-to-image read pipeline.
#[derive(Clone, Copy, Debug, PartialEq, Eq, Structural)]
pub enum ReadError {
    /// The source device could not be opened.
    DeviceOpenFailed,
    /// The device reports a size of zero bytes.
    ZeroSize,
    /// A read or write call failed.
    IoFailure,
    /// The cancellation flag was observed at a chunk boundary.
    Cancelled,
}

/// Failure of the image-to-device write pipeline.
#[derive(Clone, Copy, Debug, PartialEq, Eq, Structural)]
pub enum WriteError {
    /// The compressed image could not be decoded.
    DecompressFailed,
    /// The target device could not be opened.
    DeviceOpenFailed,
    /// A read or write call failed.
    IoFailure,
    /// The cancellation flag was observed at a chunk boundary.
    Cancelled,
    /// The digests of the image and of the written device differ.
    VerificationMismatch,
}

} // verus!
