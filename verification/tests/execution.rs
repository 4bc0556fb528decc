use loadbot::process::execution::{Captured, Execution, ExecutionAction, ExecutionError, ExecutionEvent};
use loadbot::process::{Mode, Stream};

fn run(mut execution: Execution, events: Vec<ExecutionEvent>) -> (Execution, Vec<ExecutionAction>) {
    let mut actions = Vec::new();
    for event in events {
        let (next, action) = execution.step(event);
        execution = next;
        actions.push(action);
    }
    (execution, actions)
}

fn out(stream: Stream, text: &str) -> ExecutionEvent {
    ExecutionEvent::Output { stream, bytes: text.as_bytes().to_vec() }
}

fn result(actions: &[ExecutionAction]) -> Option<&Result<Captured, ExecutionError>> {
    match actions.last() {
        Some(ExecutionAction::Finish(result)) => Some(result),
        _ => None,
    }
}

#[test]
fn a_finished_process_yields_its_captured_output() {
    let (_, actions) = run(
        Execution::start(Mode::Capture { limit: 16 }, false),
        vec![out(Stream::Stdout, "hello"), out(Stream::Stderr, "warn"), ExecutionEvent::Exited(Some(0)), ExecutionEvent::Closed],
    );
    assert!(matches!(actions[2], ExecutionAction::Terminate));
    assert_eq!(
        result(&actions),
        Some(&Ok(Captured { code: Some(0), stdout: b"hello".to_vec(), stderr: b"warn".to_vec() }))
    );
}

#[test]
fn capture_keeps_at_most_the_limit_and_then_fails() {
    let (execution, _) = run(Execution::start(Mode::Capture { limit: 4 }, false), vec![out(Stream::Stdout, "abc"), out(Stream::Stdout, "def")]);
    assert_eq!(execution.stdout, b"abcd".to_vec());
    assert!(execution.overflow);
    let (_, actions) = run(execution, vec![ExecutionEvent::Exited(Some(0)), ExecutionEvent::Closed]);
    assert_eq!(result(&actions), Some(&Err(ExecutionError::CaptureLimitExceeded)));
}

#[test]
fn cancellation_and_timeout_stop_the_process_once() {
    let (_, actions) = run(
        Execution::start(Mode::Capture { limit: 8 }, true),
        vec![ExecutionEvent::CancelSeen, ExecutionEvent::TimeUp, ExecutionEvent::Closed, ExecutionEvent::Exited(None)],
    );
    assert!(matches!(actions[0], ExecutionAction::Terminate));
    assert!(matches!(actions[1], ExecutionAction::Continue));
    assert_eq!(result(&actions), Some(&Err(ExecutionError::Cancelled)));
    let (_, actions) = run(
        Execution::start(Mode::Stream, true),
        vec![ExecutionEvent::TimeUp, ExecutionEvent::Exited(None), ExecutionEvent::Closed],
    );
    assert_eq!(result(&actions), Some(&Err(ExecutionError::TimedOut)));
    let (_, actions) = run(Execution::start(Mode::Stream, false), vec![ExecutionEvent::TimeUp]);
    assert!(matches!(actions[0], ExecutionAction::Continue));
}

#[test]
fn retained_pipes_make_cleanup_incomplete_before_anything_else() {
    let (_, actions) = run(
        Execution::start(Mode::Capture { limit: 8 }, false),
        vec![
            ExecutionEvent::CancelSeen,
            ExecutionEvent::ReadFailed("broken".to_owned()),
            ExecutionEvent::Exited(Some(1)),
            ExecutionEvent::CleanupOverdue,
            ExecutionEvent::Closed,
        ],
    );
    assert!(matches!(actions[3], ExecutionAction::StopReaders));
    assert_eq!(result(&actions), Some(&Err(ExecutionError::CleanupIncomplete)));
    let (_, actions) = run(
        Execution::start(Mode::Capture { limit: 8 }, false),
        vec![ExecutionEvent::ReadFailed("broken".to_owned()), ExecutionEvent::CancelSeen, ExecutionEvent::Exited(None), ExecutionEvent::Closed],
    );
    assert_eq!(result(&actions), Some(&Err(ExecutionError::ReadFailed("broken".to_owned()))));
    let (_, actions) = run(Execution::start(Mode::Inherit, false), vec![ExecutionEvent::TerminateFailed, ExecutionEvent::Closed]);
    assert!(matches!(actions[0], ExecutionAction::Finish(Err(ExecutionError::CleanupIncomplete))));
    assert!(matches!(actions[1], ExecutionAction::Continue));
}

#[test]
fn a_process_without_pipes_finishes_when_it_exits() {
    let (execution, actions) = run(Execution::start(Mode::Inherit, false), vec![ExecutionEvent::Exited(Some(3))]);
    assert!(matches!(actions[0], ExecutionAction::Terminate));
    assert!(execution.closed);
    let (_, actions) = run(execution, vec![ExecutionEvent::Closed]);
    assert_eq!(result(&actions), Some(&Ok(Captured { code: Some(3), stdout: Vec::new(), stderr: Vec::new() })));
}

#[test]
fn execution_errors_read_as_the_process_failure() {
    assert_eq!(ExecutionError::TimedOut.message(300), "process did not finish within 300 seconds");
    assert_eq!(
        ExecutionError::ReadFailed("broken pipe".to_owned()).message(0),
        "could not read process output or verify cleanup: broken pipe"
    );
    assert_eq!(ExecutionError::Cancelled.message(5), "operation cancelled");
    assert_eq!(
        ExecutionError::CaptureLimitExceeded.message(5),
        "process output exceeded capture limit; streamed output remains available to the observer"
    );
    assert_eq!(
        ExecutionError::CleanupIncomplete.message(5),
        "process cleanup could not be verified; cancellation is not complete and the checkout must be retained"
    );
}
