use rbd::job::{JobState, TransitionError};

#[test]
fn test_pending_to_running() {
    assert_eq!(JobState::Pending.transition(&JobState::Running).unwrap(), JobState::Running);
}

#[test]
fn test_pending_to_cancelled() {
    assert_eq!(JobState::Pending.transition(&JobState::Cancelled).unwrap(), JobState::Cancelled);
}

#[test]
fn test_running_to_paused() {
    assert_eq!(JobState::Running.transition(&JobState::Paused).unwrap(), JobState::Paused);
}

#[test]
fn test_running_to_done() {
    assert_eq!(JobState::Running.transition(&JobState::Done).unwrap(), JobState::Done);
}

#[test]
fn test_running_to_cancelled() {
    assert_eq!(JobState::Running.transition(&JobState::Cancelled).unwrap(), JobState::Cancelled);
}

#[test]
fn test_running_to_failed() {
    let result = JobState::Running.transition(&JobState::Failed("oops".to_string()));
    assert!(result.is_ok());
    assert_eq!(result.unwrap(), JobState::Failed("oops".to_string()));
}

#[test]
fn test_paused_to_running() {
    assert_eq!(JobState::Paused.transition(&JobState::Running).unwrap(), JobState::Running);
}

#[test]
fn test_paused_to_cancelled() {
    assert_eq!(JobState::Paused.transition(&JobState::Cancelled).unwrap(), JobState::Cancelled);
}

#[test]
fn test_done_is_terminal() {
    assert!(JobState::Done.transition(&JobState::Running).is_err());
}

#[test]
fn test_cancelled_is_terminal() {
    assert!(JobState::Cancelled.transition(&JobState::Running).is_err());
}

#[test]
fn test_failed_is_terminal() {
    assert!(JobState::Failed("e".into()).transition(&JobState::Running).is_err());
}

#[test]
fn test_invalid_pending_to_done() {
    assert!(JobState::Pending.transition(&JobState::Done).is_err());
}

#[test]
fn test_invalid_pending_to_failed() {
    assert!(JobState::Pending.transition(&JobState::Failed("e".into())).is_err());
}

#[test]
fn test_is_terminal() {
    assert!(!JobState::Pending.is_terminal());
    assert!(!JobState::Running.is_terminal());
    assert!(!JobState::Paused.is_terminal());
    assert!(JobState::Done.is_terminal());
    assert!(JobState::Cancelled.is_terminal());
    assert!(JobState::Failed("e".into()).is_terminal());
}

#[test]
fn transition_error_messages() {
    let e = JobState::Done.transition(&JobState::Running).unwrap_err();
    assert_eq!(e, TransitionError::Terminal(JobState::Done));
    assert_eq!(e.message(), "Done is a terminal state");
    let e = JobState::Pending.transition(&JobState::Done).unwrap_err();
    assert_eq!(e.message(), "invalid transition: Pending -> Done");
    let e = JobState::Failed("x".into()).transition(&JobState::Done).unwrap_err();
    assert_eq!(e.message(), "Failed is a terminal state");
}
