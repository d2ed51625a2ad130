//! A cancellation flag, cloned into every long-running operation.
use std::sync::atomic::{AtomicBool, Ordering};
use std::sync::Arc;
use vstd::prelude::*;

use crate::kernel::error::{Error, Result};

verus! {

/// A shared flag: clones see the same state, so a server can keep one half
/// and hand the other to the engine. Another holder may set it at any time,
/// so nothing is promised about what a read returns.
#[derive(Debug, Clone)]
pub struct Cancel(Arc<AtomicBool>);

/// What `check` answers for a flag read as `cancelled`.
pub fn cancelled_result(cancelled: bool) -> (r: Result<()>)
    ensures
        r is Ok <==> !cancelled,
        r is Err ==> r matches Err(Error::Cancelled),
{
    if cancelled {
        Err(Error::Cancelled)
    } else {
        Ok(())
    }
}

impl Cancel {
    pub fn new() -> Self {
        Cancel(Arc::new(AtomicBool::new(false)))
    }

    pub fn cancel(&self) {
        self.0.store(true, Ordering::SeqCst);
    }

    pub fn is_cancelled(&self) -> bool {
        self.0.load(Ordering::SeqCst)
    }

    /// `Err(Error::Cancelled)` once cancelled, so a loop can write
    /// `cancel.check()?`.
    pub fn check(&self) -> (r: Result<()>)
        ensures
            r is Err ==> r matches Err(Error::Cancelled),
    {
        cancelled_result(self.is_cancelled())
    }
}

} // verus!
