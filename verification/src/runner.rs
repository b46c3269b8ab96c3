//! Lifecycle of one scenario run. The state machine fixes the order of
//! topology start, setup, the timed measured phase and teardown; the action
//! plans fix what the interrupt handler and the normal exit path do, and in
//! which order. The surrounding application performs the actions and feeds
//! the events back.

use vstd::prelude::*;

verus! {

/// The phases of one scenario run, in protocol order. `Fatal` absorbs every
/// unrecoverable process error.
pub enum RunPhase {
    NotStarted,
    TopologyStarting,
    TopologyReady,
    SetupRunning,
    Measuring { start_ms: u64 },
    Measured { elapsed_ms: u64 },
    TopologyStopping { elapsed_ms: u64 },
    Done { elapsed_ms: u64 },
    Fatal,
}

/// What the surrounding application reports back to the state machine.
/// Timestamps come from a monotonic millisecond clock.
pub enum RunEvent {
    StartTopology,
    TopologyUp,
    BeginSetup,
    SetupComplete { now_ms: u64 },
    SetupFailed,
    MeasuredComplete { now_ms: u64 },
    BeginTeardown,
    TeardownComplete,
    TeardownFailed,
    ProcessError,
}

/// The transition relation. The timer starts at the timestamp of
/// `SetupComplete` and stops at the timestamp of `MeasuredComplete`; a
/// failed setup (a login failure) is fatal; any out-of-protocol event is an
/// unrecoverable error.
pub open spec fn spec_step(s: RunPhase, ev: RunEvent) -> RunPhase {
    match (s, ev) {
        (RunPhase::NotStarted, RunEvent::StartTopology) => RunPhase::TopologyStarting,
        (RunPhase::TopologyStarting, RunEvent::TopologyUp) => RunPhase::TopologyReady,
        (RunPhase::TopologyReady, RunEvent::BeginSetup) => RunPhase::SetupRunning,
        (RunPhase::SetupRunning, RunEvent::SetupComplete { now_ms }) => RunPhase::Measuring {
            start_ms: now_ms,
        },
        (
            RunPhase::Measuring { start_ms },
            RunEvent::MeasuredComplete { now_ms },
        ) => if now_ms >= start_ms {
            RunPhase::Measured { elapsed_ms: (now_ms - start_ms) as u64 }
        } else {
            RunPhase::Fatal
        },
        (RunPhase::Measured { elapsed_ms }, RunEvent::BeginTeardown) => RunPhase::TopologyStopping {
            elapsed_ms,
        },
        (RunPhase::TopologyStopping { elapsed_ms }, RunEvent::TeardownComplete) => RunPhase::Done {
            elapsed_ms,
        },
        _ => RunPhase::Fatal,
    }
}

/// Executable transition function, exactly `spec_step`.
pub fn step(s: RunPhase, ev: RunEvent) -> (r: RunPhase)
    ensures
        r == spec_step(s, ev),
{
    match (s, ev) {
        (RunPhase::NotStarted, RunEvent::StartTopology) => RunPhase::TopologyStarting,
        (RunPhase::TopologyStarting, RunEvent::TopologyUp) => RunPhase::TopologyReady,
        (RunPhase::TopologyReady, RunEvent::BeginSetup) => RunPhase::SetupRunning,
        (RunPhase::SetupRunning, RunEvent::SetupComplete { now_ms }) => RunPhase::Measuring {
            start_ms: now_ms,
        },
        (RunPhase::Measuring { start_ms }, RunEvent::MeasuredComplete { now_ms }) => {
            if now_ms >= start_ms {
                RunPhase::Measured { elapsed_ms: now_ms - start_ms }
            } else {
                RunPhase::Fatal
            }
        },
        (RunPhase::Measured { elapsed_ms }, RunEvent::BeginTeardown) => RunPhase::TopologyStopping {
            elapsed_ms,
        },
        (RunPhase::TopologyStopping { elapsed_ms }, RunEvent::TeardownComplete) => RunPhase::Done {
            elapsed_ms,
        },
        _ => RunPhase::Fatal,
    }
}

/// The reported duration is the distance between the timestamp taken
/// immediately before the measured phase and the one taken immediately after
/// it; however long setup ran, nothing of it enters the result.
pub proof fn lemma_timer_excludes_setup(setup_end_ms: u64, measure_end_ms: u64)
    requires
        setup_end_ms <= measure_end_ms,
    ensures
        spec_step(
            spec_step(RunPhase::SetupRunning, RunEvent::SetupComplete { now_ms: setup_end_ms }),
            RunEvent::MeasuredComplete { now_ms: measure_end_ms },
        ) == (RunPhase::Measured { elapsed_ms: (measure_end_ms - setup_end_ms) as u64 }),
{
}

/// The duration a run reports once its measured phase has ended.
pub open spec fn elapsed_of(s: RunPhase) -> u64 {
    match s {
        RunPhase::Measured { elapsed_ms } => elapsed_ms,
        RunPhase::TopologyStopping { elapsed_ms } => elapsed_ms,
        RunPhase::Done { elapsed_ms } => elapsed_ms,
        _ => 0,
    }
}

/// The state after a whole sequence of events, starting from `NotStarted`.
pub open spec fn run_trace(events: Seq<RunEvent>) -> RunPhase
    decreases events.len(),
{
    if events.len() == 0 {
        RunPhase::NotStarted
    } else {
        spec_step(run_trace(events.drop_last()), events.last())
    }
}

/// A run in the measuring phase has just received the setup-completion
/// timestamp it holds: nothing else produces that phase.
proof fn lemma_measuring_from_setup(events: Seq<RunEvent>)
    requires
        run_trace(events) is Measuring,
    ensures
        events.len() >= 1,
        events.last() == (RunEvent::SetupComplete {
            now_ms: run_trace(events)->Measuring_start_ms,
        }),
{
}

/// Through any sequence of events, a run whose measured phase has ended
/// reports exactly the distance between the timestamp that ended setup and
/// the timestamp that ended the measured phase — two adjacent events of the
/// trace. No other event of the run, however long setup or topology work
/// took, enters the result.
pub proof fn lemma_trace_elapsed(events: Seq<RunEvent>)
    requires
        run_trace(events) is Measured || run_trace(events) is TopologyStopping || run_trace(
            events,
        ) is Done,
    ensures
        exists|i: int|
            {
                &&& 0 <= i
                &&& i + 1 < events.len()
                &&& #[trigger] events[i] is SetupComplete
                &&& events[i + 1] is MeasuredComplete
                &&& events[i]->SetupComplete_now_ms <= events[i + 1]->MeasuredComplete_now_ms
                &&& elapsed_of(run_trace(events)) == events[i + 1]->MeasuredComplete_now_ms
                    - events[i]->SetupComplete_now_ms
            },
    decreases events.len(),
{
    let s = run_trace(events);
    let prev = run_trace(events.drop_last());
    if s is Measured {
        lemma_measuring_from_setup(events.drop_last());
        let i = events.len() - 2;
        assert(events.drop_last().last() == events[i]);
        assert(events[i] is SetupComplete);
        assert(events[i + 1] is MeasuredComplete);
        assert({
            &&& 0 <= i
            &&& i + 1 < events.len()
            &&& events[i] is SetupComplete
            &&& events[i + 1] is MeasuredComplete
            &&& events[i]->SetupComplete_now_ms <= events[i + 1]->MeasuredComplete_now_ms
            &&& elapsed_of(run_trace(events)) == events[i + 1]->MeasuredComplete_now_ms
                - events[i]->SetupComplete_now_ms
        });
    } else {
        lemma_trace_elapsed(events.drop_last());
        let j = choose|i: int|
            {
                &&& 0 <= i
                &&& i + 1 < events.drop_last().len()
                &&& #[trigger] events.drop_last()[i] is SetupComplete
                &&& events.drop_last()[i + 1] is MeasuredComplete
                &&& events.drop_last()[i]->SetupComplete_now_ms <= events.drop_last()[i
                    + 1]->MeasuredComplete_now_ms
                &&& elapsed_of(run_trace(events.drop_last())) == events.drop_last()[i
                    + 1]->MeasuredComplete_now_ms - events.drop_last()[i]->SetupComplete_now_ms
            };
        assert(events.drop_last()[j] == events[j]);
        assert(events.drop_last()[j + 1] == events[j + 1]);
        assert({
            &&& 0 <= j
            &&& j + 1 < events.len()
            &&& events[j] is SetupComplete
            &&& events[j + 1] is MeasuredComplete
            &&& events[j]->SetupComplete_now_ms <= events[j + 1]->MeasuredComplete_now_ms
            &&& elapsed_of(run_trace(events)) == events[j + 1]->MeasuredComplete_now_ms
                - events[j]->SetupComplete_now_ms
        });
    }
}

/// Teardown can only begin once the measured phase's timer has stopped: the
/// stopping phase is reachable in one step only from `Measured`, and the
/// elapsed result is carried through teardown unchanged.
pub proof fn lemma_teardown_after_timer(s: RunPhase, ev: RunEvent)
    requires
        spec_step(s, ev) is TopologyStopping,
    ensures
        s is Measured,
        ev is BeginTeardown,
        spec_step(s, ev)->TopologyStopping_elapsed_ms == s->Measured_elapsed_ms,
{
}

/// Splits an elapsed duration in milliseconds into whole seconds and the
/// millisecond remainder, the two components of the reported result line.
pub fn report_parts(elapsed_ms: u64) -> (r: (u64, u64))
    ensures
        r.0 == elapsed_ms / 1000,
        r.1 == elapsed_ms % 1000,
        r.1 < 1000,
{
    (elapsed_ms / 1000, elapsed_ms % 1000)
}

/// One externally visible action of the exit paths.
pub enum RunAction {
    ReportResult { secs: u64, millis: u64 },
    SignalAppServer,
    QueryClusterPid,
    SignalCluster { pid: u32 },
    AbortRun,
    ExitProcess,
}

/// The interrupt handler's plan: signal the application server first (when a
/// handle is present), only then query for the cluster's process id and
/// signal it, and exit immediately — never reporting a result. A failed
/// lookup aborts loudly rather than leave the cluster running.
pub open spec fn interrupt_actions_spec(app_present: bool, cluster_pid: Option<u32>) -> Seq<
    RunAction,
> {
    (if app_present {
        seq![RunAction::SignalAppServer]
    } else {
        Seq::empty()
    }) + seq![RunAction::QueryClusterPid] + (match cluster_pid {
        Option::Some(pid) => seq![RunAction::SignalCluster { pid }, RunAction::ExitProcess],
        Option::None => seq![RunAction::AbortRun],
    })
}

pub fn interrupt_actions(app_present: bool, cluster_pid: Option<u32>) -> (r: Vec<RunAction>)
    ensures
        r@ == interrupt_actions_spec(app_present, cluster_pid),
{
    let mut v: Vec<RunAction> = Vec::new();
    if app_present {
        v.push(RunAction::SignalAppServer);
    }
    v.push(RunAction::QueryClusterPid);
    match cluster_pid {
        Option::Some(pid) => {
            v.push(RunAction::SignalCluster { pid });
            v.push(RunAction::ExitProcess);
        },
        Option::None => {
            v.push(RunAction::AbortRun);
        },
    }
    proof {
        assert(v@ =~= interrupt_actions_spec(app_present, cluster_pid));
    }
    v
}

/// The normal exit path's plan: report the measured result, then tear the
/// topology down in order — the application server first, then the cluster
/// found through the status query; a failed lookup aborts loudly.
pub open spec fn completion_actions_spec(elapsed_ms: u64, cluster_pid: Option<u32>) -> Seq<
    RunAction,
> {
    seq![
        RunAction::ReportResult { secs: elapsed_ms / 1000, millis: elapsed_ms % 1000 },
        RunAction::SignalAppServer,
        RunAction::QueryClusterPid,
    ] + (match cluster_pid {
        Option::Some(pid) => seq![RunAction::SignalCluster { pid }],
        Option::None => seq![RunAction::AbortRun],
    })
}

pub fn completion_actions(elapsed_ms: u64, cluster_pid: Option<u32>) -> (r: Vec<RunAction>)
    ensures
        r@ == completion_actions_spec(elapsed_ms, cluster_pid),
{
    let mut v: Vec<RunAction> = Vec::new();
    let parts = report_parts(elapsed_ms);
    v.push(RunAction::ReportResult { secs: parts.0, millis: parts.1 });
    v.push(RunAction::SignalAppServer);
    v.push(RunAction::QueryClusterPid);
    match cluster_pid {
        Option::Some(pid) => {
            v.push(RunAction::SignalCluster { pid });
        },
        Option::None => {
            v.push(RunAction::AbortRun);
        },
    }
    proof {
        assert(v@ =~= completion_actions_spec(elapsed_ms, cluster_pid));
    }
    v
}

/// On interrupt, the application server's handle is signalled before the
/// cluster lookup is attempted, and the process exits without ever printing
/// a scenario result line.
pub proof fn lemma_interrupt_ordering(cluster_pid: Option<u32>)
    ensures
        interrupt_actions_spec(true, cluster_pid)[0] == RunAction::SignalAppServer,
        interrupt_actions_spec(true, cluster_pid)[1] == RunAction::QueryClusterPid,
{
}

/// No interrupt plan, with or without an application-server handle, ever
/// reports a result.
pub proof fn lemma_interrupt_never_reports(app_present: bool, cluster_pid: Option<u32>)
    ensures
        forall|k: int|
            0 <= k < interrupt_actions_spec(app_present, cluster_pid).len() ==> !(#[trigger]
            interrupt_actions_spec(app_present, cluster_pid)[k] is ReportResult),
{
}

pub open spec fn linux_name() -> Seq<u8> {
    seq!['l' as u8, 'i' as u8, 'n' as u8, 'u' as u8, 'x' as u8]
}

pub open spec fn macos_name() -> Seq<u8> {
    seq!['m' as u8, 'a' as u8, 'c' as u8, 'o' as u8, 's' as u8]
}

/// The cluster tool runs only on these operating systems; a run on any other
/// is rejected before anything is spawned.
pub fn os_supported(os: &[u8]) -> (r: bool)
    ensures
        r == (os@ == linux_name() || os@ == macos_name()),
{
    let linux = vec!['l' as u8, 'i' as u8, 'n' as u8, 'u' as u8, 'x' as u8];
    proof {
        assert(linux@ =~= linux_name());
    }
    if crate::text::bytes_eq(&linux, os) {
        return true;
    }
    let macos = vec!['m' as u8, 'a' as u8, 'c' as u8, 'o' as u8, 's' as u8];
    proof {
        assert(macos@ =~= macos_name());
    }
    crate::text::bytes_eq(&macos, os)
}

} // verus!
