use vstd::prelude::*;

use crate::text::chars_of;

verus! {

/// Number of runs of the tool that may be under way at once.
pub const MAX_CONCURRENT_RUNS: usize = 4;

/// Seconds allowed for handing the document to the tool.
pub const WRITE_TIMEOUT_SECS: u64 = 5;

/// Seconds allowed for the tool to finish, counted from its start.
pub const EXECUTION_TIMEOUT_SECS: u64 = 10;

/// Why a run of the tool failed.
#[derive(Debug, Clone, Copy, PartialEq, Eq, Structural)]
pub enum RunError {
    /// The tool could not be started.
    SpawnFailure,
    /// Handing over the document failed.
    WriteFailure,
    /// Handing over the document took too long.
    WriteTimeout,
    /// The tool took too long.
    ExecutionTimeout,
    /// Waiting for the tool failed.
    ProcessError,
}

/// Where a run of the tool stands.
#[derive(Debug, Clone, Copy, PartialEq, Eq, Structural)]
pub enum RunState {
    /// Waiting for a slot.
    Queued,
    /// Holding a slot, the process being started.
    Starting,
    /// Holding a slot, the document being written to the process.
    Writing,
    /// Holding a slot, waiting for the process to exit.
    Waiting,
    /// Over; the slot, if one was held, is given back.
    Done,
}

/// What happened since the last step.
#[derive(Debug, Clone, Copy, PartialEq, Eq, Structural)]
pub enum RunEvent {
    SlotGranted,
    Spawned,
    SpawnFailed,
    InputWritten,
    WriteFailed,
    WriteTimedOut,
    Exited,
    WaitFailed,
    WaitTimedOut,
}

/// What to do next.
#[derive(Debug, Clone, Copy, PartialEq, Eq, Structural)]
pub enum RunAction {
    /// Start the process.
    Spawn,
    /// Write the document to the process and close its input.
    WriteInput,
    /// Wait for the process to exit and collect its output.
    AwaitExit,
    /// Kill the process if `kill`, give the slot back, and report `failure`;
    /// without one, the output is to be parsed.
    Finish { kill: bool, failure: Option<RunError> },
}

/// The state holds a slot.
pub open spec fn holds_slot(s: RunState) -> bool {
    s == RunState::Starting || s == RunState::Writing || s == RunState::Waiting
}

/// The event can happen in the state.
pub open spec fn event_fits(s: RunState, e: RunEvent) -> bool {
    match s {
        RunState::Queued => e == RunEvent::SlotGranted,
        RunState::Starting => e == RunEvent::Spawned || e == RunEvent::SpawnFailed,
        RunState::Writing => e == RunEvent::InputWritten || e == RunEvent::WriteFailed || e
            == RunEvent::WriteTimedOut,
        RunState::Waiting => e == RunEvent::Exited || e == RunEvent::WaitFailed || e
            == RunEvent::WaitTimedOut,
        RunState::Done => false,
    }
}

/// The step of a run of the tool.
pub open spec fn run_step(s: RunState, e: RunEvent) -> (RunState, RunAction) {
    match e {
        RunEvent::SlotGranted => (RunState::Starting, RunAction::Spawn),
        RunEvent::Spawned => (RunState::Writing, RunAction::WriteInput),
        RunEvent::SpawnFailed => (
            RunState::Done,
            RunAction::Finish { kill: false, failure: Some(RunError::SpawnFailure) },
        ),
        RunEvent::InputWritten => (RunState::Waiting, RunAction::AwaitExit),
        RunEvent::WriteFailed => (
            RunState::Done,
            RunAction::Finish { kill: true, failure: Some(RunError::WriteFailure) },
        ),
        RunEvent::WriteTimedOut => (
            RunState::Done,
            RunAction::Finish { kill: true, failure: Some(RunError::WriteTimeout) },
        ),
        RunEvent::Exited => (RunState::Done, RunAction::Finish { kill: false, failure: None }),
        RunEvent::WaitFailed => (
            RunState::Done,
            RunAction::Finish { kill: false, failure: Some(RunError::ProcessError) },
        ),
        RunEvent::WaitTimedOut => (
            RunState::Done,
            RunAction::Finish { kill: true, failure: Some(RunError::ExecutionTimeout) },
        ),
    }
}

/// Decides the next state and action of a run of the tool: a slot is taken
/// before the process starts, the document is written, the exit awaited,
/// and any failure or timeout ends the run, killing a process that may
/// still live.
pub fn next_run_step(s: RunState, e: RunEvent) -> (r: (RunState, RunAction))
    requires
        event_fits(s, e),
    ensures
        r == run_step(s, e),
        r.1 is Finish <==> r.0 == RunState::Done,
        holds_slot(s) && !holds_slot(r.0) <==> r.1 is Finish,
        !holds_slot(s) ==> (holds_slot(r.0) <==> e == RunEvent::SlotGranted),
{
    match e {
        RunEvent::SlotGranted => (RunState::Starting, RunAction::Spawn),
        RunEvent::Spawned => (RunState::Writing, RunAction::WriteInput),
        RunEvent::SpawnFailed => (
            RunState::Done,
            RunAction::Finish { kill: false, failure: Some(RunError::SpawnFailure) },
        ),
        RunEvent::InputWritten => (RunState::Waiting, RunAction::AwaitExit),
        RunEvent::WriteFailed => (
            RunState::Done,
            RunAction::Finish { kill: true, failure: Some(RunError::WriteFailure) },
        ),
        RunEvent::WriteTimedOut => (
            RunState::Done,
            RunAction::Finish { kill: true, failure: Some(RunError::WriteTimeout) },
        ),
        RunEvent::Exited => (RunState::Done, RunAction::Finish { kill: false, failure: None }),
        RunEvent::WaitFailed => (
            RunState::Done,
            RunAction::Finish { kill: false, failure: Some(RunError::ProcessError) },
        ),
        RunEvent::WaitTimedOut => (
            RunState::Done,
            RunAction::Finish { kill: true, failure: Some(RunError::ExecutionTimeout) },
        ),
    }
}

/// The state after a sequence of events, from `Queued`, if every event fits.
pub open spec fn run_after(events: Seq<RunEvent>) -> Option<RunState>
    decreases events.len(),
{
    if events.len() == 0 {
        Some(RunState::Queued)
    } else {
        match run_after(events.drop_last()) {
            Some(s) => if event_fits(s, events.last()) {
                Some(run_step(s, events.last()).0)
            } else {
                None
            },
            None => None,
        }
    }
}

/// The number of `Finish` actions along a sequence of events from `Queued`.
pub open spec fn finishes(events: Seq<RunEvent>) -> int
    decreases events.len(),
{
    if events.len() == 0 {
        0
    } else {
        finishes(events.drop_last()) + match run_after(events.drop_last()) {
            Some(s) => if run_step(s, events.last()).1 is Finish {
                1int
            } else {
                0
            },
            None => 0,
        }
    }
}

/// Along any run, the slot is given back once, when the run ends, and never
/// before: a run that is queued or holds a slot has had no `Finish`, and a
/// run that is done has had exactly one.
pub proof fn lemma_slot_released_once(events: Seq<RunEvent>)
    requires
        run_after(events) is Some,
    ensures
        holds_slot(run_after(events)->0) ==> finishes(events) == 0,
        run_after(events)->0 == RunState::Queued ==> finishes(events) == 0,
        run_after(events)->0 == RunState::Done ==> finishes(events) == 1,
    decreases events.len(),
{
    if events.len() > 0 {
        let t = events.drop_last();
        lemma_slot_released_once(t);
    }
}

/// Looks like a path to a configuration file: absolute, relative to the
/// current directory, or ending in `.xml`.
pub open spec fn standard_is_path_spec(s: Seq<char>) -> bool {
    (s.len() >= 1 && s[0] == '/') || (s.len() >= 2 && s[0] == '.' && s[1] == '/') || (s.len() >= 4
        && s.subrange(s.len() - 4, s.len() as int) == seq!['.', 'x', 'm', 'l'])
}

/// Whether a coding standard names a configuration file, whose existence is
/// to be checked before use.
pub fn standard_is_path(standard: &str) -> (r: bool)
    ensures
        r == standard_is_path_spec(standard@),
{
    let c = chars_of(standard);
    let n = c.len();
    let abs = n >= 1 && c[0] == '/';
    let rel = n >= 2 && c[0] == '.' && c[1] == '/';
    let xml = n >= 4 && c[n - 4] == '.' && c[n - 3] == 'x' && c[n - 2] == 'm' && c[n - 1] == 'l';
    proof {
        if n >= 4 {
            assert(xml == (c@.subrange(n - 4, n as int) =~= seq!['.', 'x', 'm', 'l']));
        }
    }
    abs || rel || xml
}

/// Milliseconds the tool may still take, having run `elapsed_ms` since it
/// started: the execution deadline counts from the start, not from the end
/// of writing.
pub fn wait_budget_millis(elapsed_ms: u64) -> (r: u64)
    ensures
        r == (if elapsed_ms >= EXECUTION_TIMEOUT_SECS * 1000 {
            0
        } else {
            EXECUTION_TIMEOUT_SECS * 1000 - elapsed_ms
        }),
{
    let limit: u64 = EXECUTION_TIMEOUT_SECS * 1000;
    if elapsed_ms >= limit {
        0
    } else {
        limit - elapsed_ms
    }
}

/// How a run treats the configured coding standard.
#[derive(Debug, Clone, Copy, PartialEq, Eq, Structural)]
pub enum StandardUse {
    /// No standard is passed: the tool's default applies.
    Default,
    /// The standard is passed to the tool.
    Pass,
    /// The configuration file it names is gone: the tool's default applies
    /// to this run, and the standard is to be looked for again.
    Rediscover,
}

/// How a run treats `standard`, given whether a file of that name exists.
pub fn standard_use(standard: Option<&str>, file_exists: bool) -> (r: StandardUse)
    ensures
        r == (match standard {
            None => StandardUse::Default,
            Some(s) => if standard_is_path_spec(s@) && !file_exists {
                StandardUse::Rediscover
            } else {
                StandardUse::Pass
            },
        }),
{
    match standard {
        None => StandardUse::Default,
        Some(s) => {
            if standard_is_path(s) && !file_exists {
                StandardUse::Rediscover
            } else {
                StandardUse::Pass
            }
        },
    }
}

/// `a` followed by `b`, as a new string.
fn joined(a: &str, b: &str) -> (r: String)
    ensures
        r@ == a@ + b@,
{
    let mut s = String::from_str(a);
    s.append(b);
    s
}

/// Arguments of the tool: a JSON report, no colours, quiet, the standard if
/// one is given, the path the document is checked as if known, and `-` to
/// read the document from standard input.
pub open spec fn phpcs_args_spec(standard: Option<Seq<char>>, stdin_path: Option<Seq<char>>) -> Seq<
    Seq<char>,
> {
    let base = seq!["--report=json"@, "--no-colors"@, "-q"@];
    let with_standard = match standard {
        Some(s) => base.push("--standard="@ + s),
        None => base,
    };
    let with_path = match stdin_path {
        Some(p) => with_standard.push("--stdin-path="@ + p),
        None => with_standard,
    };
    with_path.push("-"@)
}

pub open spec fn opt_str(o: Option<&str>) -> Option<Seq<char>> {
    match o {
        Some(s) => Some(s@),
        None => None,
    }
}

/// The arguments to run the tool with.
pub fn phpcs_args(standard: Option<&str>, stdin_path: Option<&str>) -> (r: Vec<String>)
    ensures
        r@.map_values(|a: String| a@) == phpcs_args_spec(opt_str(standard), opt_str(stdin_path)),
{
    let mut v: Vec<String> = Vec::new();
    v.push(String::from_str("--report=json"));
    v.push(String::from_str("--no-colors"));
    v.push(String::from_str("-q"));
    match standard {
        Some(s) => v.push(joined("--standard=", s)),
        None => {},
    }
    match stdin_path {
        Some(p) => v.push(joined("--stdin-path=", p)),
        None => {},
    }
    v.push(String::from_str("-"));
    assert(v@.map_values(|a: String| a@) =~= phpcs_args_spec(opt_str(standard), opt_str(stdin_path)));
    v
}

} // verus!
