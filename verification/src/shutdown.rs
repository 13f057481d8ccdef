//! Coordinated shutdown: a flag shared by every background task and the
//! grace period granted before the process is torn down.
use std::sync::atomic::AtomicBool;
use std::sync::atomic::Ordering;
use std::sync::Arc;
use vstd::prelude::*;

verus! {

/// Grace period used when none is configured: thirty seconds.
pub const DEFAULT_SHUTDOWN_TIMEOUT_MS: u64 = 30_000;

/// Shared shutdown flag plus the grace period for a graceful stop.
///
/// The flag is an atomic shared with every task that received it from
/// `flag()`; any of them may raise it, so its value is not part of the
/// verified model. The grace period is.
pub struct ShutdownCoordinator {
    shutdown_requested: Arc<AtomicBool>,
    shutdown_timeout_ms: u64,
}

impl ShutdownCoordinator {
    /// The grace period this coordinator was built with, in milliseconds.
    pub closed spec fn timeout_ms(&self) -> nat {
        self.shutdown_timeout_ms as nat
    }

    /// A coordinator whose flag is lowered, with the default grace period.
    pub fn new() -> (c: Self)
        ensures
            c.timeout_ms() == DEFAULT_SHUTDOWN_TIMEOUT_MS,
    {
        ShutdownCoordinator {
            shutdown_requested: Arc::new(AtomicBool::new(false)),
            shutdown_timeout_ms: DEFAULT_SHUTDOWN_TIMEOUT_MS,
        }
    }

    /// A coordinator whose flag is lowered, with the given grace period.
    pub fn with_timeout(timeout_ms: u64) -> (c: Self)
        ensures
            c.timeout_ms() == timeout_ms,
    {
        ShutdownCoordinator {
            shutdown_requested: Arc::new(AtomicBool::new(false)),
            shutdown_timeout_ms: timeout_ms,
        }
    }

    /// The grace period, in milliseconds.
    pub fn shutdown_timeout_ms(&self) -> (ms: u64)
        ensures
            ms == self.timeout_ms(),
    {
        self.shutdown_timeout_ms
    }

    /// The drain window granted to live connections: a quarter of the
    /// grace period, but never more than five seconds.
    pub fn drain_window_ms(&self) -> (ms: u64)
        ensures
            ms == (if self.timeout_ms() / 4 < 5_000 { self.timeout_ms() / 4 } else { 5_000 }),
    {
        let quarter: u64 = self.shutdown_timeout_ms / 4;
        if quarter < 5_000 {
            quarter
        } else {
            5_000
        }
    }

    /// The shared flag this coordinator raises and reads.
    pub closed spec fn shared_flag(&self) -> Arc<AtomicBool> {
        self.shutdown_requested
    }

    /// Another handle on the same shared flag, for a background task.
    pub fn flag(&self) -> (f: Arc<AtomicBool>)
        ensures
            f == self.shared_flag(),
    {
        share_flag(&self.shutdown_requested)
    }

    /// Whether any holder of the flag has requested shutdown.
    pub fn is_shutdown_requested(&self) -> bool {
        self.shutdown_requested.load(Ordering::SeqCst)
    }

    /// Raise the shared flag; calling it again changes nothing.
    pub fn request_shutdown(&self) {
        self.shutdown_requested.store(true, Ordering::SeqCst);
    }
}

impl Default for ShutdownCoordinator {
    fn default() -> (c: Self)
        ensures
            c.timeout_ms() == DEFAULT_SHUTDOWN_TIMEOUT_MS,
    {
        Self::new()
    }
}

/// `Arc::clone`: a second handle on the same allocation, so the handle it
/// returns points at the very atomic it was given. The atomic's value is
/// not modelled.
#[verifier::external_body]
fn share_flag(flag: &Arc<AtomicBool>) -> (shared: Arc<AtomicBool>)
    ensures
        shared == *flag,
{
    Arc::clone(flag)
}

} // verus!
