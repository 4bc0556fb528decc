//! Caller-owned cancellation and the typed outcomes of process execution.
pub mod execution;
pub mod interactive;

use std::sync::atomic::AtomicBool;
use std::sync::Arc;

use vstd::prelude::*;

verus! {

/// A cancellation token shared by every clone; cancelling one cancels all.
#[derive(Clone)]
pub struct Cancellation {
    flag: Arc<AtomicBool>,
}

/// The operation was cancelled by its caller.
#[derive(Debug, Clone, Copy, PartialEq, Eq)]
pub struct Cancelled;

/// Process cleanup could not be verified; the checkout must be retained.
#[derive(Debug, Clone, Copy, PartialEq, Eq)]
pub struct CleanupIncomplete;

/// A process did not finish within the given number of seconds.
#[derive(Debug, Clone, Copy, PartialEq, Eq)]
pub struct TimedOut(pub u64);

/// The output stream a chunk of process output came from.
#[derive(Debug, Clone, Copy, PartialEq, Eq)]
pub enum Stream {
    Stdout,
    Stderr,
}

/// How a child's standard streams are connected.
#[derive(Debug, Clone, Copy, PartialEq, Eq)]
pub enum Mode {
    Inherit,
    Stream,
    /// Machine-readable queries fail rather than parse silently truncated data.
    Capture { limit: usize },
}

impl Cancellation {
    /// A token that has not been cancelled.
    pub fn new() -> (r: Self) {
        Cancellation { flag: Arc::new(AtomicBool::new(false)) }
    }

    /// Cancel this token and every clone of it.
    pub fn cancel(&self) {
        self.flag.store(true, std::sync::atomic::Ordering::Release);
    }

    /// Whether this token or a clone of it was cancelled. Another thread may
    /// cancel at any time, so nothing is promised of the value read.
    pub fn is_cancelled(&self) -> (r: bool) {
        self.flag.load(std::sync::atomic::Ordering::Acquire)
    }

    /// `Err(Cancelled)` once the token was cancelled, `Ok(())` before.
    pub fn check(&self) -> (r: Result<(), Cancelled>)
        ensures
            r is Err ==> r == Err::<(), Cancelled>(Cancelled),
    {
        check_flag(self.is_cancelled())
    }
}

/// What a cancellation check answers for the flag it read.
pub fn check_flag(cancelled: bool) -> (r: Result<(), Cancelled>)
    ensures
        r == (if cancelled {
            Err::<(), Cancelled>(Cancelled)
        } else {
            Ok(())
        }),
{
    if cancelled {
        Err(Cancelled)
    } else {
        Ok(())
    }
}

} // verus!
