use npu_sched::run::RunOutcome;
use npu_sched::supervise::{accepts, begin, step, RunAction, RunEvent, RunState};

fn go(state: RunState, event: RunEvent) -> (RunState, RunAction) {
    assert!(accepts(&state, &event));
    step(state, event)
}

fn started() -> RunState {
    let (state, action) = begin("ls".to_string(), 30);
    assert!(matches!(action, RunAction::Spawn { command } if command == "ls"));
    let (state, action) = go(state, RunEvent::Spawned);
    assert!(matches!(action, RunAction::Wait { timeout_secs: 30 }));
    state
}

#[test]
fn a_process_that_ends_has_its_outputs_read() {
    let (state, action) = go(started(), RunEvent::Exited { code: Some(3) });
    assert!(matches!(action, RunAction::ReadOutputs));
    let event = RunEvent::Outputs { stdout: "o".to_string(), stderr: "e".to_string() };
    let (state, action) = go(state, event);
    assert!(matches!(state, RunState::Ended));
    match action {
        RunAction::Finish { outcome: RunOutcome::Exited { code, stdout, stderr } } => {
            assert_eq!((code, stdout.as_str(), stderr.as_str()), (Some(3), "o", "e"));
        }
        _ => panic!(),
    }
}

#[test]
fn a_process_whose_time_is_up_is_killed_and_awaited() {
    let (state, action) = go(started(), RunEvent::TimeUp);
    assert!(matches!(action, RunAction::Kill));
    let (state, action) = go(state, RunEvent::Killed);
    assert!(matches!(action, RunAction::Reap));
    let (state, action) = go(state, RunEvent::Reaped);
    assert!(matches!(action, RunAction::ReadOutputs));
    let event = RunEvent::Outputs { stdout: "part\n".to_string(), stderr: "half".to_string() };
    let (state, action) = go(state, event);
    assert!(matches!(state, RunState::Ended));
    match action {
        RunAction::Finish { outcome: RunOutcome::TimedOut { stdout, stderr } } => {
            assert_eq!((stdout.as_str(), stderr.as_str()), ("part\n", "half"));
        }
        _ => panic!(),
    }
}

#[test]
fn failures_end_the_run() {
    let (state, _) = begin("ls".to_string(), 30);
    let (state, action) = go(state, RunEvent::SpawnFailed { error: "no".to_string() });
    assert!(matches!(state, RunState::Ended));
    match action {
        RunAction::Finish { outcome: RunOutcome::SpawnFailed { error } } => assert_eq!(error, "no"),
        _ => panic!(),
    }
    let (state, action) = go(started(), RunEvent::WaitFailed { error: "lost".to_string() });
    assert!(matches!(state, RunState::Ended));
    match action {
        RunAction::Finish { outcome: RunOutcome::WaitFailed { error } } => assert_eq!(error, "lost"),
        _ => panic!(),
    }
}

#[test]
fn other_events_cannot_happen() {
    let waiting = started();
    assert!(!accepts(&waiting, &RunEvent::Spawned));
    assert!(!accepts(&waiting, &RunEvent::Killed));
    let outputs = RunEvent::Outputs { stdout: String::new(), stderr: String::new() };
    assert!(!accepts(&waiting, &outputs));
    let (killing, _) = go(waiting, RunEvent::TimeUp);
    assert!(!accepts(&killing, &RunEvent::Exited { code: None }));
    assert!(!accepts(&killing, &RunEvent::Reaped));
    assert!(!accepts(&RunState::Ended, &RunEvent::TimeUp));
    let (fresh, _) = begin(String::new(), 1);
    assert!(!accepts(&fresh, &RunEvent::TimeUp));
}
