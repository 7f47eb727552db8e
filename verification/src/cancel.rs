//! The process-wide cancellation flag.
//!
//! One flag is shared by reference between the operation and an external
//! signal source (for instance an interrupt handler). The pipelines only
//! read it, once per chunk; only the signal source sets it to "stop", and it
//! never resets during an operation. Reads and writes use sequentially
//! consistent atomic ordering, the only synchronization between the two
//! threads.
//!
//! Nothing is assumed about the value a read returns: another thread may
//! flip the flag at any moment, so every pipeline contract covers both
//! outcomes of every check.

use core::sync::atomic::AtomicBool;
use core::sync::atomic::Ordering;
use std::sync::Arc;
use vstd::prelude::*;

verus! {

/// A shared cancellation flag; clones are handles to the same flag.
#[derive(Clone)]
pub struct CancelFlag {
    inner: Arc<AtomicBool>,
}

impl CancelFlag {
    /// A fresh flag in the "keep running" state.
    pub fn new() -> CancelFlag {
        CancelFlag { inner: Arc::new(AtomicBool::new(true)) }
    }

    /// Asks the operation to stop at the next chunk boundary. Called by the
    /// signal source, never by the pipelines.
    pub fn request_stop(&self) {
        self.inner.store(false, Ordering::SeqCst);
    }

    /// True once a stop has been requested. The result is decided by the
    /// signal source's thread, so no caller may assume either outcome.
    pub fn should_stop(&self) -> bool {
        !self.inner.load(Ordering::SeqCst)
    }
}

} // verus!
