//! The life of one symbol's worker within a cycle.
//!
//! A worker is a state machine that is fed events and answers each with the
//! state it is in afterwards and the action its driver has to perform. The
//! driver fetches and computes; the worker decides. A worker knows nothing of
//! its siblings, and nothing a sibling does can change its state.
//!
//! ```text
//! Idle --Start--> Fetching --Fetched--> Computing --Computed--> Done
//!                     |                     |
//!                     +------> Failed <-----+
//! ```
use crate::failure::FailureReason;
use crate::layout::MOVING_AVERAGE_WINDOW;
use vstd::prelude::*;

verus! {

/// What a worker does with a series that is shorter than the moving-average
/// window.
#[derive(Clone, Copy, Debug, PartialEq, Eq, Structural)]
pub enum HistoryPolicy {
    /// The worker fails with [`FailureReason::InsufficientHistory`].
    RequireWindow,
    /// The worker goes on; the record is computed without a moving average,
    /// which is undefined on such a series.
    AllowShort,
}

impl Default for HistoryPolicy {
    /// A worker requires the window unless it is told otherwise.
    fn default() -> (policy: Self)
        ensures
            policy == HistoryPolicy::RequireWindow,
    {
        HistoryPolicy::RequireWindow
    }
}

/// State of a worker. `R` is the statistics record that a worker ends with.
#[derive(Debug, PartialEq)]
pub enum WorkerState<R> {
    /// Created, not started.
    Idle,
    /// Waiting for the provider's answer.
    Fetching,
    /// Waiting for the statistics of the fetched series.
    Computing,
    /// Ended with a record.
    Done(R),
    /// Ended without one.
    Failed(FailureReason),
}

/// What a driver tells its worker.
#[derive(Debug, PartialEq)]
pub enum WorkerEvent<R> {
    /// The request was handed to the worker.
    Start,
    /// The provider answered with a series of this many observations.
    Fetched { observations: usize },
    /// The provider failed: it could not be reached, it refused the query,
    /// or its answer could not be read.
    ProviderError,
    /// The provider did not answer within the time allowed.
    TimedOut,
    /// The statistics of the series.
    Computed(R),
    /// The statistics are undefined on the series.
    Undefined,
}

/// What the driver has to do after an event.
#[derive(Clone, Copy, Debug, PartialEq, Eq, Structural)]
pub enum WorkerAction {
    /// Ask the provider for the series.
    Fetch,
    /// Compute the statistics of the fetched series.
    Compute,
    /// The worker has ended: hand its outcome to the coordinator.
    Finish,
    /// The event does not belong to the state the worker is in: nothing.
    Ignore,
}

/// Why a series of `observations` observations gets no statistics, if so.
pub open spec fn spec_shortfall(policy: HistoryPolicy, observations: int) -> Option<FailureReason> {
    if observations == 0 {
        Some(FailureReason::NoData)
    } else if policy == HistoryPolicy::RequireWindow && observations < MOVING_AVERAGE_WINDOW {
        Some(FailureReason::InsufficientHistory)
    } else {
        None
    }
}

/// Whether the state is terminal.
pub open spec fn spec_is_terminal<R>(state: WorkerState<R>) -> bool {
    state is Done || state is Failed
}

/// The outcome of a worker that has ended.
pub open spec fn spec_outcome<R>(state: WorkerState<R>) -> Option<Result<R, FailureReason>> {
    match state {
        WorkerState::Done(record) => Some(Ok(record)),
        WorkerState::Failed(reason) => Some(Err(reason)),
        _ => None,
    }
}

/// The transition function: the state after `event`, and the action owed.
pub open spec fn spec_step<R>(
    policy: HistoryPolicy,
    state: WorkerState<R>,
    event: WorkerEvent<R>,
) -> (WorkerState<R>, WorkerAction) {
    match (state, event) {
        (WorkerState::Idle, WorkerEvent::Start) => (WorkerState::Fetching, WorkerAction::Fetch),
        (WorkerState::Fetching, WorkerEvent::Fetched { observations }) => match spec_shortfall(
            policy,
            observations as int,
        ) {
            Some(reason) => (WorkerState::Failed(reason), WorkerAction::Finish),
            None => (WorkerState::Computing, WorkerAction::Compute),
        },
        (WorkerState::Fetching, WorkerEvent::ProviderError) => (
            WorkerState::Failed(FailureReason::ProviderFailure),
            WorkerAction::Finish,
        ),
        (WorkerState::Fetching, WorkerEvent::TimedOut) => (
            WorkerState::Failed(FailureReason::ProviderFailure),
            WorkerAction::Finish,
        ),
        (WorkerState::Computing, WorkerEvent::Computed(record)) => (
            WorkerState::Done(record),
            WorkerAction::Finish,
        ),
        (WorkerState::Computing, WorkerEvent::Undefined) => (
            WorkerState::Failed(FailureReason::InsufficientHistory),
            WorkerAction::Finish,
        ),
        (kept, _) => (kept, WorkerAction::Ignore),
    }
}

/// Number of events that a worker in this state can still act on.
pub open spec fn steps_left<R>(state: WorkerState<R>) -> nat {
    match state {
        WorkerState::Idle => 3,
        WorkerState::Fetching => 2,
        WorkerState::Computing => 1,
        _ => 0,
    }
}

/// The state of a worker that was started, told the provider's answer and,
/// where it asked for them, the statistics.
pub open spec fn spec_run<R>(
    policy: HistoryPolicy,
    fetched: WorkerEvent<R>,
    computed: WorkerEvent<R>,
) -> WorkerState<R> {
    let started = spec_step(policy, WorkerState::Idle, WorkerEvent::Start).0;
    let answered = spec_step(policy, started, fetched).0;
    spec_step(policy, answered, computed).0
}

/// The state of a worker after a run of events.
pub open spec fn spec_feed<R>(
    policy: HistoryPolicy,
    state: WorkerState<R>,
    events: Seq<WorkerEvent<R>>,
) -> WorkerState<R>
    decreases events.len(),
{
    if events.len() == 0 {
        state
    } else {
        spec_step(policy, spec_feed(policy, state, events.drop_last()), events.last()).0
    }
}

/// Why a series of `observations` observations gets no statistics: `NoData`
/// for an empty one, `InsufficientHistory` for one shorter than the window
/// where the policy requires the window, else `None`.
pub fn shortfall(policy: HistoryPolicy, observations: usize) -> (reason: Option<FailureReason>)
    ensures
        reason == spec_shortfall(policy, observations as int),
{
    if observations == 0 {
        Some(FailureReason::NoData)
    } else {
        match policy {
            HistoryPolicy::RequireWindow => {
                if observations < MOVING_AVERAGE_WINDOW {
                    Some(FailureReason::InsufficientHistory)
                } else {
                    None
                }
            },
            HistoryPolicy::AllowShort => None,
        }
    }
}

/// Feeds one event to a worker: returns the state it is in afterwards and
/// the action that its driver owes.
pub fn step<R>(policy: HistoryPolicy, state: WorkerState<R>, event: WorkerEvent<R>) -> (next: (
    WorkerState<R>,
    WorkerAction,
))
    ensures
        next == spec_step(policy, state, event),
{
    match state {
        WorkerState::Idle => match event {
            WorkerEvent::Start => (WorkerState::Fetching, WorkerAction::Fetch),
            _ => (WorkerState::Idle, WorkerAction::Ignore),
        },
        WorkerState::Fetching => match event {
            WorkerEvent::Fetched { observations } => match shortfall(policy, observations) {
                Some(reason) => (WorkerState::Failed(reason), WorkerAction::Finish),
                None => (WorkerState::Computing, WorkerAction::Compute),
            },
            WorkerEvent::ProviderError => (
                WorkerState::Failed(FailureReason::ProviderFailure),
                WorkerAction::Finish,
            ),
            WorkerEvent::TimedOut => (
                WorkerState::Failed(FailureReason::ProviderFailure),
                WorkerAction::Finish,
            ),
            _ => (WorkerState::Fetching, WorkerAction::Ignore),
        },
        WorkerState::Computing => match event {
            WorkerEvent::Computed(record) => (WorkerState::Done(record), WorkerAction::Finish),
            WorkerEvent::Undefined => (
                WorkerState::Failed(FailureReason::InsufficientHistory),
                WorkerAction::Finish,
            ),
            _ => (WorkerState::Computing, WorkerAction::Ignore),
        },
        WorkerState::Done(record) => (WorkerState::Done(record), WorkerAction::Ignore),
        WorkerState::Failed(reason) => (WorkerState::Failed(reason), WorkerAction::Ignore),
    }
}

impl<R> WorkerState<R> {
    /// Whether the worker has ended.
    pub fn is_terminal(&self) -> (ended: bool)
        ensures
            ended == spec_is_terminal(*self),
    {
        match self {
            WorkerState::Done(_) => true,
            WorkerState::Failed(_) => true,
            _ => false,
        }
    }

    /// The outcome of a worker that has ended: its record or the reason of
    /// its failure. `None` while the worker has not ended.
    pub fn into_outcome(self) -> (outcome: Option<Result<R, FailureReason>>)
        ensures
            outcome == spec_outcome(self),
            outcome is Some <==> spec_is_terminal(self),
    {
        match self {
            WorkerState::Done(record) => Some(Ok(record)),
            WorkerState::Failed(reason) => Some(Err(reason)),
            _ => None,
        }
    }
}

/// A worker that has ended stays as it is, whatever it is told.
pub proof fn lemma_terminal_is_final<R>(
    policy: HistoryPolicy,
    state: WorkerState<R>,
    event: WorkerEvent<R>,
)
    requires
        spec_is_terminal(state),
    ensures
        spec_step(policy, state, event) == (state, WorkerAction::Ignore),
{
}

/// Nothing that a worker is told after its end changes what it ended with.
pub proof fn lemma_end_is_kept<R>(
    policy: HistoryPolicy,
    state: WorkerState<R>,
    events: Seq<WorkerEvent<R>>,
)
    requires
        spec_is_terminal(state),
    ensures
        spec_feed(policy, state, events) == state,
    decreases events.len(),
{
    if events.len() > 0 {
        lemma_end_is_kept(policy, state, events.drop_last());
    }
}

/// An event is either ignored, and leaves the state as it was, or brings the
/// worker closer to its end. So a worker acts on three events at most.
pub proof fn lemma_step_advances<R>(
    policy: HistoryPolicy,
    state: WorkerState<R>,
    event: WorkerEvent<R>,
)
    ensures
        spec_step(policy, state, event).1 == WorkerAction::Ignore ==> spec_step(
            policy,
            state,
            event,
        ).0 == state,
        spec_step(policy, state, event).1 != WorkerAction::Ignore ==> steps_left(
            spec_step(policy, state, event).0,
        ) < steps_left(state),
        spec_step(policy, state, event).1 == WorkerAction::Finish <==> !spec_is_terminal(state)
            && spec_is_terminal(spec_step(policy, state, event).0),
{
}

/// What a worker ends with, by what it was told: a provider error or a
/// provider that takes too long gives `ProviderFailure`; an empty series
/// `NoData`; a series that the policy
/// finds too short `InsufficientHistory`; statistics that are undefined
/// `InsufficientHistory`; and a record is the outcome exactly where the
/// series was long enough and its statistics were computed.
pub proof fn lemma_run_outcome<R>(
    policy: HistoryPolicy,
    fetched: WorkerEvent<R>,
    computed: WorkerEvent<R>,
)
    ensures
        fetched is ProviderError || fetched is TimedOut ==> spec_run(policy, fetched, computed)
            == WorkerState::<R>::Failed(FailureReason::ProviderFailure),
        fetched matches WorkerEvent::Fetched { observations } ==> match spec_shortfall(
            policy,
            observations as int,
        ) {
            Some(reason) => spec_run(policy, fetched, computed) == WorkerState::<R>::Failed(reason),
            None => match computed {
                WorkerEvent::Computed(record) => spec_run(policy, fetched, computed)
                    == WorkerState::Done(record),
                WorkerEvent::Undefined => spec_run(policy, fetched, computed) == WorkerState::<
                    R,
                >::Failed(FailureReason::InsufficientHistory),
                _ => spec_run(policy, fetched, computed) == WorkerState::<R>::Computing,
            },
        },
        spec_run(policy, fetched, computed) is Done ==> fetched is Fetched && computed is Computed,
{
}

} // verus!
