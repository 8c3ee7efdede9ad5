//! The shutdown coordinator: one shared flag, set once when an interrupt
//! arrives, read without blocking by every long-running loop before each
//! iteration or retry.

use vstd::prelude::*;

use core::sync::atomic::AtomicBool;
use core::sync::atomic::Ordering;
use std::sync::Arc;

verus! {

/// A non-blocking reader (and setter) of the shared shutdown flag. Clones
/// share the one flag. What a read returns depends on when the interrupt
/// arrives, so no contract constrains it; every loop is verified for either
/// answer.
#[derive(Clone)]
pub struct ShutdownHandle {
    flag: Arc<AtomicBool>,
}

impl ShutdownHandle {
    /// Whether shutdown has been requested.
    pub fn is_shutdown(&self) -> bool {
        self.flag.load(Ordering::Relaxed)
    }

    /// Requests shutdown; the flag only ever moves from clear to set.
    pub fn signal_shutdown(&self) {
        self.flag.store(true, Ordering::Relaxed);
    }
}

/// Owns the shutdown flag and hands out handles to it.
pub struct ShutdownService {
    handle: ShutdownHandle,
}

impl ShutdownService {
    /// A service whose flag starts clear.
    pub fn new() -> ShutdownService {
        ShutdownService { handle: ShutdownHandle { flag: Arc::new(AtomicBool::new(false)) } }
    }

    /// A handle sharing this service's flag.
    pub fn handle(&self) -> ShutdownHandle {
        self.handle.clone()
    }
}

} // verus!
