//! Cooperative cancellation token: a shared, monotonic-within-a-scan boolean,
//! set from outside an in-flight scan and polled at bounded checkpoints.
//! Nothing is assumed about what a poll returns — every stage of the pipeline
//! is verified for either answer.

use core::sync::atomic::{AtomicBool, Ordering};
use vstd::prelude::*;

verus! {

/// A scan-scoped cancellation signal, shared by reference with workers.
pub struct CancelToken {
    flag: AtomicBool,
}

impl CancelToken {
    /// A fresh, un-triggered token.
    pub fn new() -> CancelToken {
        CancelToken { flag: AtomicBool::new(false) }
    }

    /// Polls the token. The answer may differ between calls: a cancel
    /// request can arrive from another thread at any moment.
    pub fn is_cancelled(&self) -> bool {
        self.flag.load(Ordering::Relaxed)
    }

    /// Requests cancellation of the scan observing this token.
    pub fn request(&self) {
        self.flag.store(true, Ordering::Relaxed);
    }

    /// Re-arms the token at the start of a new scan.
    pub fn reset(&self) {
        self.flag.store(false, Ordering::Relaxed);
    }
}

} // verus!
