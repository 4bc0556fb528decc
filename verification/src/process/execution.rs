//! The decisions of one bounded process execution. Spawning the process,
//! reading its pipes, watching the clock and stopping its process group are
//! the caller's part: it reports each of these as an event and performs the
//! action that `Execution::step` returns, until that action is `Finish`.
use vstd::prelude::*;

use crate::process::{Mode, Stream};

verus! {

/// How long after stopping a process its output pipes may stay open before
/// cleanup counts as failed, in seconds.
pub const CLEANUP_GRACE_SECONDS: u64 = 5;

/// The state of one execution.
pub struct Execution {
    /// The most bytes kept of each stream, when output is captured.
    pub capture_limit: Option<usize>,
    pub has_timeout: bool,
    pub stdout: Vec<u8>,
    pub stderr: Vec<u8>,
    /// Some captured output did not fit within the limit.
    pub overflow: bool,
    pub read_error: Option<String>,
    pub cancelled: bool,
    pub timed_out: bool,
    /// The exit code, once the process has exited (`None` inside: killed by a signal).
    pub exit: Option<Option<i32>>,
    /// Every output pipe has closed.
    pub closed: bool,
    /// The process group was told to stop.
    pub stopped: bool,
    pub cleanup_incomplete: bool,
    pub finished: bool,
}

pub struct ExecutionView {
    pub capture_limit: Option<usize>,
    pub has_timeout: bool,
    pub stdout: Seq<u8>,
    pub stderr: Seq<u8>,
    pub overflow: bool,
    pub read_error: Option<Seq<char>>,
    pub cancelled: bool,
    pub timed_out: bool,
    pub exit: Option<Option<i32>>,
    pub closed: bool,
    pub stopped: bool,
    pub cleanup_incomplete: bool,
    pub finished: bool,
}

impl View for Execution {
    type V = ExecutionView;

    open spec fn view(&self) -> ExecutionView {
        ExecutionView {
            capture_limit: self.capture_limit,
            has_timeout: self.has_timeout,
            stdout: self.stdout@,
            stderr: self.stderr@,
            overflow: self.overflow,
            read_error: crate::recipe::opt_str_view(self.read_error),
            cancelled: self.cancelled,
            timed_out: self.timed_out,
            exit: self.exit,
            closed: self.closed,
            stopped: self.stopped,
            cleanup_incomplete: self.cleanup_incomplete,
            finished: self.finished,
        }
    }
}

/// What happened since the last step.
pub enum ExecutionEvent {
    /// A chunk of output arrived.
    Output { stream: Stream, bytes: Vec<u8> },
    /// Reading an output pipe failed.
    ReadFailed(String),
    /// The process exited with this code (`None`: killed by a signal).
    Exited(Option<i32>),
    /// The caller's cancellation token was seen cancelled.
    CancelSeen,
    /// The timeout has elapsed.
    TimeUp,
    /// Every output pipe has closed.
    Closed,
    /// The cleanup grace period has passed since the process was stopped.
    CleanupOverdue,
    /// Stopping the process group failed.
    TerminateFailed,
}

pub enum ExecutionEventView {
    Output { stream: Stream, bytes: Seq<u8> },
    ReadFailed(Seq<char>),
    Exited(Option<i32>),
    CancelSeen,
    TimeUp,
    Closed,
    CleanupOverdue,
    TerminateFailed,
}

impl View for ExecutionEvent {
    type V = ExecutionEventView;

    open spec fn view(&self) -> ExecutionEventView {
        match self {
            ExecutionEvent::Output { stream, bytes } => ExecutionEventView::Output { stream: *stream, bytes: bytes@ },
            ExecutionEvent::ReadFailed(m) => ExecutionEventView::ReadFailed(m@),
            ExecutionEvent::Exited(c) => ExecutionEventView::Exited(*c),
            ExecutionEvent::CancelSeen => ExecutionEventView::CancelSeen,
            ExecutionEvent::TimeUp => ExecutionEventView::TimeUp,
            ExecutionEvent::Closed => ExecutionEventView::Closed,
            ExecutionEvent::CleanupOverdue => ExecutionEventView::CleanupOverdue,
            ExecutionEvent::TerminateFailed => ExecutionEventView::TerminateFailed,
        }
    }
}

/// The output of a process that ran to completion.
#[derive(Debug, Clone, PartialEq, Eq)]
pub struct Captured {
    pub code: Option<i32>,
    pub stdout: Vec<u8>,
    pub stderr: Vec<u8>,
}

pub struct CapturedView {
    pub code: Option<i32>,
    pub stdout: Seq<u8>,
    pub stderr: Seq<u8>,
}

/// Why an execution did not succeed, in the order they take precedence.
#[derive(Debug, Clone, PartialEq, Eq)]
pub enum ExecutionError {
    CleanupIncomplete,
    ReadFailed(String),
    Cancelled,
    TimedOut,
    CaptureLimitExceeded,
}

pub enum ExecutionErrorView {
    CleanupIncomplete,
    ReadFailed(Seq<char>),
    Cancelled,
    TimedOut,
    CaptureLimitExceeded,
}

impl ExecutionError {
    /// What an execution that ended so reports, for a command given
    /// `timeout_seconds` to finish.
    pub open spec fn spec_message(self, timeout_seconds: u64) -> Seq<char> {
        match self {
            ExecutionError::CleanupIncomplete => "process cleanup could not be verified; cancellation is not complete and the checkout must be retained"@,
            ExecutionError::ReadFailed(m) => "could not read process output or verify cleanup: "@ + m@,
            ExecutionError::Cancelled => "operation cancelled"@,
            ExecutionError::TimedOut => "process did not finish within "@ + crate::text::spec_decimal(
                timeout_seconds as nat,
            ) + " seconds"@,
            ExecutionError::CaptureLimitExceeded => "process output exceeded capture limit; streamed output remains available to the observer"@,
        }
    }

    pub fn message(&self, timeout_seconds: u64) -> (r: String)
        ensures
            r@ == self.spec_message(timeout_seconds),
    {
        match self {
            ExecutionError::CleanupIncomplete => "process cleanup could not be verified; cancellation is not complete and the checkout must be retained".to_string(),
            ExecutionError::ReadFailed(m) => crate::text::cat2("could not read process output or verify cleanup: ", m.as_str()),
            ExecutionError::Cancelled => "operation cancelled".to_string(),
            ExecutionError::TimedOut => {
                let n = crate::text::decimal(timeout_seconds);
                crate::text::cat3("process did not finish within ", n.as_str(), " seconds")
            },
            ExecutionError::CaptureLimitExceeded => "process output exceeded capture limit; streamed output remains available to the observer".to_string(),
        }
    }
}

impl View for ExecutionError {
    type V = ExecutionErrorView;

    open spec fn view(&self) -> ExecutionErrorView {
        match self {
            ExecutionError::CleanupIncomplete => ExecutionErrorView::CleanupIncomplete,
            ExecutionError::ReadFailed(m) => ExecutionErrorView::ReadFailed(m@),
            ExecutionError::Cancelled => ExecutionErrorView::Cancelled,
            ExecutionError::TimedOut => ExecutionErrorView::TimedOut,
            ExecutionError::CaptureLimitExceeded => ExecutionErrorView::CaptureLimitExceeded,
        }
    }
}

/// What the caller does next.
pub enum ExecutionAction {
    /// Stop the process and its process group.
    Terminate,
    /// Stop the output readers; the pipes will be reported closed.
    StopReaders,
    /// Wait for the next event.
    Continue,
    /// The execution is over with this result.
    Finish(Result<Captured, ExecutionError>),
}

pub enum ExecutionActionView {
    Terminate,
    StopReaders,
    Continue,
    Finish(Result<CapturedView, ExecutionErrorView>),
}

impl View for ExecutionAction {
    type V = ExecutionActionView;

    open spec fn view(&self) -> ExecutionActionView {
        match self {
            ExecutionAction::Terminate => ExecutionActionView::Terminate,
            ExecutionAction::StopReaders => ExecutionActionView::StopReaders,
            ExecutionAction::Continue => ExecutionActionView::Continue,
            ExecutionAction::Finish(Ok(c)) => ExecutionActionView::Finish(
                Ok(CapturedView { code: c.code, stdout: c.stdout@, stderr: c.stderr@ }),
            ),
            ExecutionAction::Finish(Err(e)) => ExecutionActionView::Finish(Err(e@)),
        }
    }
}

/// The diagnostic when output pipes outlive the stopped process.
pub open spec fn retained_pipes_message() -> Seq<char> {
    "descendant retained output pipes after process termination; cleanup could not be verified"@
}

/// A buffer within `limit` after a chunk: what fits of the chunk is appended.
pub open spec fn spec_keep(buffer: Seq<u8>, bytes: Seq<u8>, limit: usize) -> Seq<u8> {
    if bytes.len() <= limit - buffer.len() {
        buffer + bytes
    } else {
        buffer + bytes.subrange(0, limit - buffer.len())
    }
}

/// Captured buffers never exceed the limit, and nothing is kept without one.
pub open spec fn spec_well_formed(s: ExecutionView) -> bool {
    match s.capture_limit {
        Some(l) => s.stdout.len() <= l && s.stderr.len() <= l,
        None => s.stdout.len() == 0 && s.stderr.len() == 0,
    }
}

/// The result once the process has exited and its pipes are closed: cleanup
/// failure first, then a read error, cancellation, the timeout, and capture
/// overflow; otherwise the exit code and the captured output.
pub open spec fn spec_execution_result(s: ExecutionView) -> Result<CapturedView, ExecutionErrorView> {
    if s.cleanup_incomplete {
        Err(ExecutionErrorView::CleanupIncomplete)
    } else if s.read_error is Some {
        Err(ExecutionErrorView::ReadFailed(s.read_error->Some_0))
    } else if s.cancelled {
        Err(ExecutionErrorView::Cancelled)
    } else if s.timed_out {
        Err(ExecutionErrorView::TimedOut)
    } else if s.overflow {
        Err(ExecutionErrorView::CaptureLimitExceeded)
    } else {
        Ok(CapturedView { code: s.exit->Some_0, stdout: s.stdout, stderr: s.stderr })
    }
}

/// The finished state and its action.
pub open spec fn spec_finish(s: ExecutionView) -> (ExecutionView, ExecutionActionView) {
    (
        ExecutionView { finished: true, stdout: Seq::empty(), stderr: Seq::empty(), ..s },
        ExecutionActionView::Finish(spec_execution_result(s)),
    )
}

/// One step of an execution: the next state and action for an event.
pub open spec fn spec_execution_step(s: ExecutionView, e: ExecutionEventView) -> (
    ExecutionView,
    ExecutionActionView,
) {
    if s.finished {
        (s, ExecutionActionView::Continue)
    } else {
        match e {
            ExecutionEventView::Exited(code) => {
                let s1 = ExecutionView { exit: Some(code), ..s };
                if !s.stopped {
                    (ExecutionView { stopped: true, ..s1 }, ExecutionActionView::Terminate)
                } else if s.closed {
                    spec_finish(s1)
                } else {
                    (s1, ExecutionActionView::Continue)
                }
            },
            ExecutionEventView::CancelSeen => if !s.stopped && s.exit is None {
                (ExecutionView { stopped: true, cancelled: true, ..s }, ExecutionActionView::Terminate)
            } else {
                (s, ExecutionActionView::Continue)
            },
            ExecutionEventView::TimeUp => if !s.stopped && s.exit is None && s.has_timeout {
                (ExecutionView { stopped: true, timed_out: true, ..s }, ExecutionActionView::Terminate)
            } else {
                (s, ExecutionActionView::Continue)
            },
            ExecutionEventView::Output { stream, bytes } => match s.capture_limit {
                Some(l) => {
                    let buffer = match stream {
                        Stream::Stdout => s.stdout,
                        Stream::Stderr => s.stderr,
                    };
                    let over = s.overflow || bytes.len() > l - buffer.len();
                    let kept = spec_keep(buffer, bytes, l);
                    match stream {
                        Stream::Stdout => (
                            ExecutionView { stdout: kept, overflow: over, ..s },
                            ExecutionActionView::Continue,
                        ),
                        Stream::Stderr => (
                            ExecutionView { stderr: kept, overflow: over, ..s },
                            ExecutionActionView::Continue,
                        ),
                    }
                },
                None => (s, ExecutionActionView::Continue),
            },
            ExecutionEventView::ReadFailed(m) => (
                ExecutionView { read_error: Some(m), ..s },
                ExecutionActionView::Continue,
            ),
            ExecutionEventView::Closed => {
                let s1 = ExecutionView { closed: true, ..s };
                if s.exit is Some && s.stopped {
                    spec_finish(s1)
                } else {
                    (s1, ExecutionActionView::Continue)
                }
            },
            ExecutionEventView::CleanupOverdue => if s.stopped && !s.closed {
                (
                    ExecutionView {
                        cleanup_incomplete: true,
                        read_error: Some(retained_pipes_message()),
                        ..s
                    },
                    ExecutionActionView::StopReaders,
                )
            } else {
                (s, ExecutionActionView::Continue)
            },
            ExecutionEventView::TerminateFailed => (
                ExecutionView { finished: true, stdout: Seq::empty(), stderr: Seq::empty(), ..s },
                ExecutionActionView::Finish(Err(ExecutionErrorView::CleanupIncomplete)),
            ),
        }
    }
}

/// Append what fits of `bytes` within `limit`; whether some did not fit.
fn keep(buffer: &mut Vec<u8>, bytes: &Vec<u8>, limit: usize) -> (overflowed: bool)
    requires
        old(buffer).len() <= limit,
    ensures
        final(buffer)@ == spec_keep(old(buffer)@, bytes@, limit),
        overflowed == (bytes.len() > limit - old(buffer).len()),
{
    let room = limit - buffer.len();
    let take = if bytes.len() <= room {
        bytes.len()
    } else {
        room
    };
    let ghost start = buffer@;
    let mut i: usize = 0;
    while i < take
        invariant
            i <= take,
            take <= bytes.len(),
            take == (if bytes.len() <= limit - start.len() {
                bytes.len() as int
            } else {
                limit - start.len()
            }),
            buffer@ == start + bytes@.subrange(0, i as int),
        decreases take - i,
    {
        buffer.push(bytes[i]);
        assert(bytes@.subrange(0, i + 1) =~= bytes@.subrange(0, i as int).push(bytes@[i as int]));
        i = i + 1;
    }
    if bytes.len() <= room {
        assert(bytes@.subrange(0, bytes.len() as int) =~= bytes@);
    }
    bytes.len() > room
}

impl Execution {
    /// A new execution in `mode`; without pipes there is nothing to close.
    pub fn start(mode: Mode, has_timeout: bool) -> (r: Self)
        ensures
            r@ == (ExecutionView {
                capture_limit: match mode {
                    Mode::Capture { limit } => Some(limit),
                    _ => None,
                },
                has_timeout,
                stdout: Seq::empty(),
                stderr: Seq::empty(),
                overflow: false,
                read_error: None,
                cancelled: false,
                timed_out: false,
                exit: None,
                closed: mode is Inherit,
                stopped: false,
                cleanup_incomplete: false,
                finished: false,
            }),
    {
        let capture_limit = match mode {
            Mode::Capture { limit } => Some(limit),
            _ => None,
        };
        let closed = match mode {
            Mode::Inherit => true,
            _ => false,
        };
        Execution {
            capture_limit,
            has_timeout,
            stdout: Vec::new(),
            stderr: Vec::new(),
            overflow: false,
            read_error: None,
            cancelled: false,
            timed_out: false,
            exit: None,
            closed,
            stopped: false,
            cleanup_incomplete: false,
            finished: false,
        }
    }

    fn finish(self) -> (r: (Self, ExecutionAction))
        requires
            self.exit is Some,
        ensures
            (r.0@, r.1@) == spec_finish(self@),
    {
        let mut s = self;
        let result = if s.cleanup_incomplete {
            Err(ExecutionError::CleanupIncomplete)
        } else if s.read_error.is_some() {
            Err(ExecutionError::ReadFailed(s.read_error.clone().unwrap()))
        } else if s.cancelled {
            Err(ExecutionError::Cancelled)
        } else if s.timed_out {
            Err(ExecutionError::TimedOut)
        } else if s.overflow {
            Err(ExecutionError::CaptureLimitExceeded)
        } else {
            let mut stdout: Vec<u8> = Vec::new();
            let mut stderr: Vec<u8> = Vec::new();
            std::mem::swap(&mut stdout, &mut s.stdout);
            std::mem::swap(&mut stderr, &mut s.stderr);
            Ok(Captured { code: s.exit.unwrap(), stdout, stderr })
        };
        s.stdout = Vec::new();
        s.stderr = Vec::new();
        s.finished = true;
        (s, ExecutionAction::Finish(result))
    }

    /// One step: the next state and the action for `event`.
    pub fn step(self, event: ExecutionEvent) -> (r: (Self, ExecutionAction))
        requires
            spec_well_formed(self@),
        ensures
            (r.0@, r.1@) == spec_execution_step(self@, event@),
            spec_well_formed(r.0@),
    {
        let mut s = self;
        if s.finished {
            return (s, ExecutionAction::Continue);
        }
        match event {
            ExecutionEvent::Exited(code) => {
                s.exit = Some(code);
                if !s.stopped {
                    s.stopped = true;
                    (s, ExecutionAction::Terminate)
                } else if s.closed {
                    s.finish()
                } else {
                    (s, ExecutionAction::Continue)
                }
            },
            ExecutionEvent::CancelSeen => {
                if !s.stopped && s.exit.is_none() {
                    s.stopped = true;
                    s.cancelled = true;
                    (s, ExecutionAction::Terminate)
                } else {
                    (s, ExecutionAction::Continue)
                }
            },
            ExecutionEvent::TimeUp => {
                if !s.stopped && s.exit.is_none() && s.has_timeout {
                    s.stopped = true;
                    s.timed_out = true;
                    (s, ExecutionAction::Terminate)
                } else {
                    (s, ExecutionAction::Continue)
                }
            },
            ExecutionEvent::Output { stream, bytes } => {
                match s.capture_limit {
                    Some(limit) => {
                        let over = match stream {
                            Stream::Stdout => keep(&mut s.stdout, &bytes, limit),
                            Stream::Stderr => keep(&mut s.stderr, &bytes, limit),
                        };
                        s.overflow = s.overflow || over;
                        (s, ExecutionAction::Continue)
                    },
                    None => (s, ExecutionAction::Continue),
                }
            },
            ExecutionEvent::ReadFailed(message) => {
                s.read_error = Some(message);
                (s, ExecutionAction::Continue)
            },
            ExecutionEvent::Closed => {
                let ready = s.exit.is_some() && s.stopped;
                s.closed = true;
                if ready {
                    s.finish()
                } else {
                    (s, ExecutionAction::Continue)
                }
            },
            ExecutionEvent::CleanupOverdue => {
                if s.stopped && !s.closed {
                    s.cleanup_incomplete = true;
                    s.read_error = Some(
                        "descendant retained output pipes after process termination; cleanup could not be verified".to_string(),
                    );
                    (s, ExecutionAction::StopReaders)
                } else {
                    (s, ExecutionAction::Continue)
                }
            },
            ExecutionEvent::TerminateFailed => {
                s.stdout = Vec::new();
                s.stderr = Vec::new();
                s.finished = true;
                (s, ExecutionAction::Finish(Err(ExecutionError::CleanupIncomplete)))
            },
        }
    }
}

/// An execution finishes only after the process has exited and its pipes
/// have closed, unless stopping the process failed.
pub proof fn lemma_finish_needs_exit_and_close(s: ExecutionView, e: ExecutionEventView)
    requires
        !s.finished,
        spec_execution_step(s, e).1 is Finish,
        !(e is TerminateFailed),
    ensures
        spec_execution_step(s, e).0.exit is Some,
        spec_execution_step(s, e).0.closed,
{
}

/// A cancelled, timed-out or overflowed execution never ends in success.
pub proof fn lemma_interrupted_runs_fail(s: ExecutionView, e: ExecutionEventView)
    requires
        s.cancelled || s.timed_out || s.overflow || s.cleanup_incomplete,
        spec_execution_step(s, e).1 is Finish,
    ensures
        spec_execution_step(s, e).1->Finish_0 is Err,
{
}

/// Cancellation stops a running process exactly once: the first time it is
/// seen before the process exits, the process is terminated, and later
/// cancellations or timeouts change nothing.
pub proof fn lemma_stop_once(s: ExecutionView, e: ExecutionEventView)
    requires
        !s.finished,
        e is CancelSeen || e is TimeUp,
    ensures
        spec_execution_step(s, e).1 is Terminate <==> (!s.stopped && s.exit is None && (e is CancelSeen
            || s.has_timeout)),
        !(spec_execution_step(s, e).1 is Terminate) ==> spec_execution_step(s, e).0 == s,
{
}

} // verus!
