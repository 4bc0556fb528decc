//! The outcome and events of interactive terminal sessions.
use vstd::prelude::*;

verus! {

/// How an interactive session's process ended.
#[derive(Debug, Clone, PartialEq, Eq)]
pub struct InteractiveExitStatus {
    pub code: u32,
    pub signal: Option<String>,
}

impl InteractiveExitStatus {
    /// Success: exit code 0 and no signal.
    pub fn success(&self) -> (r: bool)
        ensures
            r == (self.code == 0 && self.signal is None),
    {
        self.code == 0 && self.signal.is_none()
    }
}

/// Ordered terminal output and completion of one session.
#[derive(Debug, Clone, PartialEq, Eq)]
pub enum InteractiveSessionEvent {
    Output { process_id: u64, bytes: Vec<u8> },
    Exited { process_id: u64, status: InteractiveExitStatus, cancelled: bool },
    Failed { process_id: u64, diagnostic: String },
}

} // verus!
