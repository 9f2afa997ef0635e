//! The one-shot cooperative cancellation flag. A token is created clear,
//! fresh for every engine invocation; the watchdog (or the engine itself,
//! once the deadline has elapsed) sets it exactly once, and it never goes
//! back to clear. Workers poll it between rows and stop when they see it
//! set. Clones share the one underlying flag.

use std::sync::Arc;
use std::sync::atomic::AtomicBool;
use std::sync::atomic::Ordering;
use vstd::prelude::*;

verus! {

/// A shared one-shot cancellation flag. What a read returns depends on the
/// other holders of the flag, so nothing is stated of it: callers must act
/// correctly whatever value comes back.
#[derive(Clone)]
pub struct CancellationToken {
    flag: Arc<AtomicBool>,
}

impl CancellationToken {
    /// A fresh token whose flag starts clear.
    pub fn new() -> CancellationToken {
        CancellationToken { flag: Arc::new(AtomicBool::new(false)) }
    }

    /// Set the flag. Setting it again changes nothing: the transition is
    /// one-directional, and every later read through any clone of this
    /// token returns true.
    pub fn cancel(&self) {
        self.flag.store(true, Ordering::Relaxed);
    }

    /// Read the flag without blocking. The result depends on what the
    /// other holders of the flag have done, so nothing is promised of it.
    pub fn is_cancelled(&self) -> bool {
        self.flag.load(Ordering::Relaxed)
    }
}

} // verus!
