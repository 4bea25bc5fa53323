//! The supervision of a command's run: what to do next, given what has happened.

use vstd::prelude::*;
use crate::run::RunOutcome;

verus! {

/// Where the supervision of a run stands.
pub enum RunState {
    /// The process is being started; it then has the given time.
    Spawning { timeout_secs: u64 },
    /// The process runs and its time is not up.
    Waiting,
    /// The process has ended by itself, and its outputs are being read to their ends.
    Reading { code: Option<i32> },
    /// The process's time is up, and it is being killed.
    Killing,
    /// The process was killed, and its end is being awaited.
    Reaping,
    /// The process that was killed is gone, and its outputs are being read to their ends.
    ReadingPartial,
    /// The run is over.
    Ended,
}

/// What has happened.
pub enum RunEvent {
    /// The process was started.
    Spawned,
    /// The process could not be started.
    SpawnFailed { error: String },
    /// The process has ended by itself; one that a signal ended has no code.
    Exited { code: Option<i32> },
    /// Waiting for the process failed.
    WaitFailed { error: String },
    /// The process's time is up.
    TimeUp,
    /// The outputs of the process were read to their ends; this is what it wrote.
    Outputs { stdout: String, stderr: String },
    /// It was attempted to kill the process.
    Killed,
    /// The end of the process was awaited.
    Reaped,
}

/// What is to be done.
pub enum RunAction {
    /// Start a shell with the command.
    Spawn { command: String },
    /// Wait for the process to end, for no longer than the given time, and meanwhile read both of
    /// its outputs, so that it never has to wait for a reader.
    Wait { timeout_secs: u64 },
    /// Hand over what was read of both outputs of the process since it was started, once they
    /// have been read to their ends.
    ReadOutputs,
    /// Kill the process.
    Kill,
    /// Wait for the process to end.
    Reap,
    /// Nothing more: the run came to this.
    Finish { outcome: RunOutcome },
}

/// Whether an event can happen in a state.
pub open spec fn can_happen(state: RunState, event: RunEvent) -> bool {
    match state {
        RunState::Spawning { .. } => event is Spawned || event is SpawnFailed,
        RunState::Waiting => event is Exited || event is WaitFailed || event is TimeUp,
        RunState::Reading { .. } => event is Outputs,
        RunState::Killing => event is Killed,
        RunState::Reaping => event is Reaped,
        RunState::ReadingPartial => event is Outputs,
        RunState::Ended => false,
    }
}

/// The state after an event, and what is then to be done.
pub open spec fn stepped(state: RunState, event: RunEvent) -> (RunState, RunAction) {
    match (state, event) {
        (RunState::Spawning { timeout_secs }, RunEvent::Spawned) => (
            RunState::Waiting,
            RunAction::Wait { timeout_secs },
        ),
        (_, RunEvent::SpawnFailed { error }) => (
            RunState::Ended,
            RunAction::Finish { outcome: RunOutcome::SpawnFailed { error } },
        ),
        (_, RunEvent::WaitFailed { error }) => (
            RunState::Ended,
            RunAction::Finish { outcome: RunOutcome::WaitFailed { error } },
        ),
        (_, RunEvent::Exited { code }) => (RunState::Reading { code }, RunAction::ReadOutputs),
        (RunState::Reading { code }, RunEvent::Outputs { stdout, stderr }) => (
            RunState::Ended,
            RunAction::Finish { outcome: RunOutcome::Exited { code, stdout, stderr } },
        ),
        (_, RunEvent::TimeUp) => (RunState::Killing, RunAction::Kill),
        (_, RunEvent::Killed) => (RunState::Reaping, RunAction::Reap),
        (_, RunEvent::Reaped) => (RunState::ReadingPartial, RunAction::ReadOutputs),
        (RunState::ReadingPartial, RunEvent::Outputs { stdout, stderr }) => (
            RunState::Ended,
            RunAction::Finish { outcome: RunOutcome::TimedOut { stdout, stderr } },
        ),
        _ => arbitrary(),
    }
}

/// Begins a run: the command is to be started.
pub fn begin(command: String, timeout_secs: u64) -> (res: (RunState, RunAction))
    ensures
        res == (RunState::Spawning { timeout_secs }, RunAction::Spawn { command }),
{
    (RunState::Spawning { timeout_secs }, RunAction::Spawn { command })
}

/// Whether an event can happen in a state.
pub fn accepts(state: &RunState, event: &RunEvent) -> (res: bool)
    ensures
        res == can_happen(*state, *event),
{
    match (state, event) {
        (RunState::Spawning { .. }, RunEvent::Spawned) => true,
        (RunState::Spawning { .. }, RunEvent::SpawnFailed { .. }) => true,
        (RunState::Waiting, RunEvent::Exited { .. }) => true,
        (RunState::Waiting, RunEvent::WaitFailed { .. }) => true,
        (RunState::Waiting, RunEvent::TimeUp) => true,
        (RunState::Reading { .. }, RunEvent::Outputs { .. }) => true,
        (RunState::Killing, RunEvent::Killed) => true,
        (RunState::Reaping, RunEvent::Reaped) => true,
        (RunState::ReadingPartial, RunEvent::Outputs { .. }) => true,
        _ => false,
    }
}

/// Goes on after an event: the new state, and what is to be done. A process whose time is up is
/// killed and awaited, and then leaves both outputs as far as it wrote them.
pub fn step(state: RunState, event: RunEvent) -> (res: (RunState, RunAction))
    requires
        can_happen(state, event),
    ensures
        res == stepped(state, event),
{
    match event {
        RunEvent::Spawned => {
            let timeout_secs: u64 = match state {
                RunState::Spawning { timeout_secs } => timeout_secs,
                _ => 0,
            };
            (RunState::Waiting, RunAction::Wait { timeout_secs })
        },
        RunEvent::SpawnFailed { error } => (
            RunState::Ended,
            RunAction::Finish { outcome: RunOutcome::SpawnFailed { error } },
        ),
        RunEvent::Exited { code } => (RunState::Reading { code }, RunAction::ReadOutputs),
        RunEvent::WaitFailed { error } => (
            RunState::Ended,
            RunAction::Finish { outcome: RunOutcome::WaitFailed { error } },
        ),
        RunEvent::TimeUp => (RunState::Killing, RunAction::Kill),
        RunEvent::Outputs { stdout, stderr } => {
            let outcome = match state {
                RunState::Reading { code } => RunOutcome::Exited { code, stdout, stderr },
                _ => RunOutcome::TimedOut { stdout, stderr },
            };
            (RunState::Ended, RunAction::Finish { outcome })
        },
        RunEvent::Killed => (RunState::Reaping, RunAction::Reap),
        RunEvent::Reaped => (RunState::ReadingPartial, RunAction::ReadOutputs),
    }
}

/// The state after a sequence of events, if they can happen one after the other.
pub open spec fn state_after(timeout_secs: u64, events: Seq<RunEvent>) -> Option<RunState>
    decreases events.len(),
{
    if events.len() == 0 {
        Some(RunState::Spawning { timeout_secs })
    } else {
        match state_after(timeout_secs, events.drop_last()) {
            Some(state) if can_happen(state, events.last()) => Some(
                stepped(state, events.last()).0,
            ),
            _ => None,
        }
    }
}

/// What is to be done after a sequence of events that can happen one after the other.
pub open spec fn action_after(timeout_secs: u64, events: Seq<RunEvent>) -> RunAction
    recommends
        events.len() > 0,
{
    stepped(state_after(timeout_secs, events.drop_last())->0, events.last()).1
}

/// The events that lead to a state.
proof fn lemma_events(timeout_secs: u64, events: Seq<RunEvent>)
    ensures
        match state_after(timeout_secs, events) {
            Some(RunState::Spawning { timeout_secs: t }) => events.len() == 0 && t == timeout_secs,
            Some(RunState::Waiting) => events.len() == 1 && events[0] is Spawned,
            Some(RunState::Reading { code }) => {
                &&& events.len() == 2
                &&& events[0] is Spawned
                &&& events[1] == RunEvent::Exited { code }
            },
            Some(RunState::Killing) => {
                &&& events.len() == 2
                &&& events[0] is Spawned
                &&& events[1] is TimeUp
            },
            Some(RunState::Reaping) => {
                &&& events.len() == 3
                &&& events[0] is Spawned
                &&& events[1] is TimeUp
                &&& events[2] is Killed
            },
            Some(RunState::ReadingPartial) => {
                &&& events.len() == 4
                &&& events[0] is Spawned
                &&& events[1] is TimeUp
                &&& events[2] is Killed
                &&& events[3] is Reaped
            },
            _ => true,
        },
    decreases events.len(),
{
    if events.len() > 0 {
        lemma_events(timeout_secs, events.drop_last());
        assert(forall|i: int|
            0 <= i < events.len() - 1 ==> events.drop_last()[i] == #[trigger] events[i]);
    }
}

/// A run that is over took one of four ways: the process could not be started; waiting for it
/// failed; it ended by itself and its outputs were read; or its time was up, it was killed and
/// awaited, and what it had written to both outputs was read. The outcome is the one of the way.
pub proof fn law_run_is_over(timeout_secs: u64, events: Seq<RunEvent>)
    requires
        state_after(timeout_secs, events) == Some(RunState::Ended),
    ensures
        events.len() > 0,
        match events.last() {
            RunEvent::SpawnFailed { error } => {
                &&& events.len() == 1
                &&& action_after(timeout_secs, events) == RunAction::Finish {
                    outcome: RunOutcome::SpawnFailed { error },
                }
            },
            RunEvent::WaitFailed { error } => {
                &&& events.len() == 2
                &&& events[0] is Spawned
                &&& action_after(timeout_secs, events) == RunAction::Finish {
                    outcome: RunOutcome::WaitFailed { error },
                }
            },
            RunEvent::Outputs { stdout, stderr } => {
                ||| {
                    &&& events.len() == 3
                    &&& events[0] is Spawned
                    &&& events[1] is Exited
                    &&& action_after(timeout_secs, events) == RunAction::Finish {
                        outcome: RunOutcome::Exited {
                            code: events[1]->Exited_code,
                            stdout,
                            stderr,
                        },
                    }
                }
                ||| {
                    &&& events.len() == 5
                    &&& events[0] is Spawned
                    &&& events[1] is TimeUp
                    &&& events[2] is Killed
                    &&& events[3] is Reaped
                    &&& action_after(timeout_secs, events) == RunAction::Finish {
                        outcome: RunOutcome::TimedOut { stdout, stderr },
                    }
                }
            },
            _ => false,
        },
{
    lemma_events(timeout_secs, events.drop_last());
    assert(forall|i: int|
        0 <= i < events.len() - 1 ==> events.drop_last()[i] == #[trigger] events[i]);
}

/// A process is awaited for the time that was set, and it is killed exactly when that time is up.
pub proof fn law_kill_on_timeout(timeout_secs: u64, events: Seq<RunEvent>)
    requires
        events.len() > 0,
        state_after(timeout_secs, events) is Some,
    ensures
        action_after(timeout_secs, events) is Kill <==> events.last() is TimeUp,
        events.last() is Spawned ==> action_after(timeout_secs, events) == (RunAction::Wait {
            timeout_secs,
        }),
{
    lemma_events(timeout_secs, events.drop_last());
}

/// What can happen in each state.
pub proof fn law_events(t: u64, code: Option<i32>, event: RunEvent)
    ensures
        can_happen(RunState::Spawning { timeout_secs: t }, event) <==> event is Spawned
            || event is SpawnFailed,
        can_happen(RunState::Waiting, event) <==> event is Exited || event is WaitFailed
            || event is TimeUp,
        can_happen(RunState::Reading { code }, event) <==> event is Outputs,
        can_happen(RunState::Killing, event) <==> event is Killed,
        can_happen(RunState::Reaping, event) <==> event is Reaped,
        can_happen(RunState::ReadingPartial, event) <==> event is Outputs,
        !can_happen(RunState::Ended, event),
{
}

/// What each event calls for: a process that was started is awaited for its time; the outputs of
/// one that ended are read, with its code in mind; one whose time is up is killed, then awaited,
/// and then its outputs are read.
pub proof fn law_steps(t: u64, code: Option<i32>)
    ensures
        stepped(RunState::Spawning { timeout_secs: t }, RunEvent::Spawned) == (
            RunState::Waiting,
            RunAction::Wait { timeout_secs: t },
        ),
        stepped(RunState::Waiting, RunEvent::Exited { code }) == (
            RunState::Reading { code },
            RunAction::ReadOutputs,
        ),
        stepped(RunState::Waiting, RunEvent::TimeUp) == (RunState::Killing, RunAction::Kill),
        stepped(RunState::Killing, RunEvent::Killed) == (RunState::Reaping, RunAction::Reap),
        stepped(RunState::Reaping, RunEvent::Reaped) == (
            RunState::ReadingPartial,
            RunAction::ReadOutputs,
        ),
{
}

/// How a run ends: with the error that kept the process from being started or awaited, or with
/// what it wrote, and with its code where it ended by itself.
pub proof fn law_ends(
    t: u64,
    code: Option<i32>,
    error: String,
    stdout: String,
    stderr: String,
)
    ensures
        stepped(RunState::Spawning { timeout_secs: t }, RunEvent::SpawnFailed { error }) == (
            RunState::Ended,
            RunAction::Finish { outcome: RunOutcome::SpawnFailed { error } },
        ),
        stepped(RunState::Waiting, RunEvent::WaitFailed { error }) == (
            RunState::Ended,
            RunAction::Finish { outcome: RunOutcome::WaitFailed { error } },
        ),
        stepped(RunState::Reading { code }, RunEvent::Outputs { stdout, stderr }) == (
            RunState::Ended,
            RunAction::Finish { outcome: RunOutcome::Exited { code, stdout, stderr } },
        ),
        stepped(RunState::ReadingPartial, RunEvent::Outputs { stdout, stderr }) == (
            RunState::Ended,
            RunAction::Finish { outcome: RunOutcome::TimedOut { stdout, stderr } },
        ),
{
}

} // verus!
