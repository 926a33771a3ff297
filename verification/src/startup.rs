//! The decisions of initialization: what a call of `init` does in each
//! state, and how the cache is retried until it loads or the attempts run
//! out. The caller runs the threads, the loading and the callbacks.

use vstd::prelude::*;
use vstd::string::*;
use crate::symbols::LogEntry;
use crate::text::{dec, join, join_strings, push_dec, views};

verus! {

/// How many times initialization tries to fill the metadata cache.
pub const CACHE_INIT_MAX_ATTEMPTS: u8 = 5;

/// Seconds to wait between two attempts to fill the metadata cache.
pub const CACHE_INIT_RETRY_DELAY_SECS: u64 = 3;

/// Where initialization stands.
#[derive(Debug)]
pub enum InitState {
    /// No initialization has started yet
    Idle,
    /// The background worker runs; callbacks queued now fire when it ends
    Running,
    /// Initialization completed; new callbacks fire at once
    Done,
}

/// What a call of `init` does with its callback.
#[derive(Debug)]
pub enum InitCall {
    /// Run it now, on a thread of its own
    RunNow,
    /// Queue it until the running worker ends
    Queue,
    /// Queue it and start the worker
    StartWorker,
}

/// The state after a call of `init` in state `s`, and what the call does
/// with its callback.
pub open spec fn init_transition(s: InitState) -> (InitState, InitCall) {
    match s {
        InitState::Done => (InitState::Done, InitCall::RunNow),
        InitState::Running => (InitState::Running, InitCall::Queue),
        InitState::Idle => (InitState::Running, InitCall::StartWorker),
    }
}

/// The state after the worker ends.
pub open spec fn end_transition(success: bool) -> InitState {
    if success {
        InitState::Done
    } else {
        InitState::Idle
    }
}

/// A call of `init`: after initialization completed its callback runs at
/// once; while the worker runs it is queued; otherwise it is queued and
/// the worker starts.
pub fn on_init(state: &mut InitState) -> (r: InitCall)
    ensures
        (*final(state), r) == init_transition(*old(state)),
{
    match state {
        InitState::Done => InitCall::RunNow,
        InitState::Running => InitCall::Queue,
        InitState::Idle => {
            *state = InitState::Running;
            InitCall::StartWorker
        },
    }
}

/// The worker ended: after success the queued callbacks run and later ones
/// run at once; after failure initialization may be tried again.
pub fn on_worker_end(state: &mut InitState, success: bool) -> (run_queued: bool)
    ensures
        run_queued == success,
        *final(state) == end_transition(success),
{
    if success {
        *state = InitState::Done;
    } else {
        *state = InitState::Idle;
    }
    success
}

/// Once initialization has completed, every further call runs its
/// callback at once and leaves the state as it is.
pub proof fn law_completed_runs_at_once()
    ensures
        init_transition(end_transition(true)) == (InitState::Done, InitCall::RunNow),
{
}

/// After a failed initialization the next call starts the worker again.
pub proof fn law_failure_allows_retry()
    ensures
        init_transition(end_transition(false)) == (InitState::Running, InitCall::StartWorker),
{
}

/// While the worker runs, calls only queue their callbacks: whatever the
/// number of calls, the state stays running and no second worker starts.
pub proof fn law_running_only_queues(calls: nat)
    ensures
        repeat_init(InitState::Running, calls) == InitState::Running,
    decreases calls,
{
    if calls > 0 {
        law_running_only_queues((calls - 1) as nat);
    }
}

/// The state after `calls` calls of `init` from state `s`.
pub open spec fn repeat_init(s: InitState, calls: nat) -> InitState
    decreases calls,
{
    if calls == 0 {
        s
    } else {
        init_transition(repeat_init(s, (calls - 1) as nat)).0
    }
}

/// The error logged when IL2CPP exports could not be resolved.
pub fn missing_symbols_message(missing: &Vec<String>) -> (r: String)
    ensures
        r@ == "Failed to load IL2CPP API symbols: "@ + join(views(missing@), ", "@),
{
    let mut r = String::from_str("Failed to load IL2CPP API symbols: ");
    let joined = join_strings(missing, ", ");
    r.append(joined.as_str());
    r
}

/// How one attempt to fill the cache went.
#[derive(Debug)]
pub enum CacheOutcome {
    /// The assemblies loaded and their classes hydrated
    Ready { assemblies: usize, classes: usize },
    /// The assemblies loaded but hydrating their classes failed
    HydrationFailed(String),
    /// Loading the assemblies failed
    LoadFailed(String),
}

/// What follows an attempt to fill the cache.
#[derive(Debug)]
pub enum CacheNext {
    /// The cache is ready
    Ready,
    /// Wait and try again
    Retry,
    /// Give up: the attempts ran out
    GiveUp,
}

/// What the worker does after attempt number `attempt` (counted from 1).
pub open spec fn cache_next(attempt: u8, ready: bool) -> CacheNext {
    if ready {
        CacheNext::Ready
    } else if attempt < CACHE_INIT_MAX_ATTEMPTS {
        CacheNext::Retry
    } else {
        CacheNext::GiveUp
    }
}

/// The messages an attempt logs: its outcome, then, when it failed, the
/// retry notice or the final error.
pub open spec fn attempt_logs(attempt: u8, outcome: CacheOutcome) -> Seq<(bool, Seq<char>)> {
    let first: (bool, Seq<char>) = match outcome {
        CacheOutcome::Ready { assemblies, classes } => (
            true,
            "Cache initialized: "@ + dec(assemblies as nat) + " assemblies loaded, "@ + dec(
                classes as nat,
            ) + " classes hydrated"@,
        ),
        CacheOutcome::HydrationFailed(e) => (
            false,
            "Cache init failed during class hydration: "@ + e@,
        ),
        CacheOutcome::LoadFailed(e) => (false, "Cache init failed: "@ + e@),
    };
    match cache_next(attempt, outcome is Ready) {
        CacheNext::Ready => seq![first],
        CacheNext::Retry => seq![
            first,
            (
                true,
                "Cache initialization attempt "@ + dec(attempt as nat) + "/"@ + dec(
                    CACHE_INIT_MAX_ATTEMPTS as nat,
                ) + " failed. Retrying in "@ + dec(CACHE_INIT_RETRY_DELAY_SECS as nat) + "s..."@,
            ),
        ],
        CacheNext::GiveUp => seq![
            first,
            (false, "Cache initialization failed after all retry attempts."@),
        ],
    }
}

/// A log entry as (is it informational, its text).
pub open spec fn entry_view(e: LogEntry) -> (bool, Seq<char>) {
    match e {
        LogEntry::Info(t) => (true, t@),
        LogEntry::Warning(t) => (false, t@),
        LogEntry::Error(t) => (false, t@),
    }
}

/// The outcome of attempt `attempt` (from 1 to the maximum) to fill the
/// cache: what comes next, and what to log.
pub fn after_attempt(attempt: u8, outcome: CacheOutcome) -> (r: (CacheNext, Vec<LogEntry>))
    requires
        1 <= attempt <= CACHE_INIT_MAX_ATTEMPTS,
    ensures
        r.0 == cache_next(attempt, outcome is Ready),
        r.1@.map_values(|e: LogEntry| entry_view(e)) == attempt_logs(attempt, outcome),
        forall|i: int| 0 <= i < r.1@.len() ==> !(#[trigger] r.1@[i] is Warning),
{
    let ghost o = outcome;
    let ready = match outcome {
        CacheOutcome::Ready { .. } => true,
        _ => false,
    };
    let mut logs: Vec<LogEntry> = Vec::new();
    match outcome {
        CacheOutcome::Ready { assemblies, classes } => {
            let mut m = String::from_str("Cache initialized: ");
            push_dec(&mut m, assemblies as u128);
            m.append(" assemblies loaded, ");
            push_dec(&mut m, classes as u128);
            m.append(" classes hydrated");
            logs.push(LogEntry::Info(m));
        },
        CacheOutcome::HydrationFailed(e) => {
            let mut m = String::from_str("Cache init failed during class hydration: ");
            m.append(e.as_str());
            logs.push(LogEntry::Error(m));
        },
        CacheOutcome::LoadFailed(e) => {
            let mut m = String::from_str("Cache init failed: ");
            m.append(e.as_str());
            logs.push(LogEntry::Error(m));
        },
    }
    let next = if ready {
        CacheNext::Ready
    } else if attempt < CACHE_INIT_MAX_ATTEMPTS {
        let mut m = String::from_str("Cache initialization attempt ");
        push_dec(&mut m, attempt as u128);
        m.append("/");
        push_dec(&mut m, CACHE_INIT_MAX_ATTEMPTS as u128);
        m.append(" failed. Retrying in ");
        push_dec(&mut m, CACHE_INIT_RETRY_DELAY_SECS as u128);
        m.append("s...");
        logs.push(LogEntry::Info(m));
        CacheNext::Retry
    } else {
        logs.push(
            LogEntry::Error(String::from_str("Cache initialization failed after all retry attempts.")),
        );
        CacheNext::GiveUp
    };
    assert(logs@.map_values(|e: LogEntry| entry_view(e)) =~= attempt_logs(attempt, o));
    (next, logs)
}

/// The attempt after which the worker stops when every attempt from 1 on
/// fails: the last one, the maximum.
pub open spec fn stops_after(failures: nat) -> bool {
    &&& forall|a: u8| 1 <= a < failures ==> cache_next(a, false) is Retry
    &&& cache_next(failures as u8, false) is GiveUp
}

/// A worker whose every attempt fails tries the cache exactly
/// `CACHE_INIT_MAX_ATTEMPTS` times: it retries after each earlier attempt
/// and gives up after that one.
pub proof fn lemma_gives_up_after_max_attempts()
    ensures
        stops_after(CACHE_INIT_MAX_ATTEMPTS as nat),
{
}

/// A ready cache ends the attempts whatever their number.
pub proof fn lemma_ready_stops(attempt: u8)
    ensures
        cache_next(attempt, true) is Ready,
{
}

} // verus!
