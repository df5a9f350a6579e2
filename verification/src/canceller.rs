//! A flag, shared between clones, that asks long-running work to stop.
use std::ops::ControlFlow;
use std::sync::atomic::AtomicBool;
use std::sync::atomic::Ordering;
use std::sync::Arc;
use vstd::prelude::*;

verus! {

/// A shared cancellation flag.  Clones share one flag, so a cancel through any
/// clone is seen through all of them.
///
/// The flag is an atomic that other threads may set at any time, so no contract
/// here pins down what `status` reads.
#[derive(Clone, Debug, Default)]
pub struct Canceller(Arc<AtomicBool>);

impl Canceller {
    /// Sets the shared flag.
    pub fn cancel(&self) {
        self.0.store(true, Ordering::Relaxed);
    }

    /// `Break` once the shared flag has been set, else `Continue`.
    pub fn status(&self) -> ControlFlow<()> {
        if self.0.load(Ordering::Relaxed) {
            ControlFlow::Break(())
        } else {
            ControlFlow::Continue(())
        }
    }
}

} // verus!
