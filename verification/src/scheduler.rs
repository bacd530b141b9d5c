//! When a cycle may start.
//!
//! The first cycle starts at once, and a timer then asks for another at
//! every tick. A cycle that is still running when the timer ticks is not
//! joined by a second one unless overlap was asked for, and then only up to
//! the number asked for. A tick that finds no room is kept, and the cycle it
//! asked for starts as soon as a running one has ended. However many ticks
//! find no room, one cycle is kept for them.
use crate::instant::Timestamp;
use vstd::prelude::*;

verus! {

/// The scheduler of the cycles.
#[derive(Clone, Copy, Debug, PartialEq, Eq, Structural)]
pub struct CycleScheduler {
    /// Lower bound of the period that every cycle asks for.
    pub from: Timestamp,
    /// Number of cycles that may run beside the first: none where cycles
    /// are to follow one another.
    pub overlap: u32,
    /// Number of cycles that are running.
    pub in_flight: u64,
    /// Whether a tick found no room and its cycle is still owed.
    pub queued: bool,
}

/// What a driver tells the scheduler.
#[derive(Clone, Copy, Debug, PartialEq, Eq, Structural)]
pub enum SchedulerEvent {
    /// The timer has ticked.
    Tick,
    /// A cycle has ended.
    CycleFinished,
}

/// What the driver has to do after an event.
#[derive(Clone, Copy, Debug, PartialEq, Eq, Structural)]
pub enum SchedulerAction {
    /// Start a cycle over the period that begins at `from` and ends now.
    StartCycle { from: Timestamp },
    /// Nothing.
    Wait,
}

impl CycleScheduler {
    /// Number of cycles that may run at a time.
    pub open spec fn limit(self) -> int {
        self.overlap + 1
    }

    /// No more cycles are running than may run, and a cycle is owed only
    /// while there is no room for it.
    pub open spec fn wf(self) -> bool {
        &&& self.in_flight <= self.limit()
        &&& self.queued ==> self.in_flight == self.limit()
    }

    /// The scheduler after a tick of the timer, and the action owed.
    pub open spec fn spec_tick(self) -> (CycleScheduler, SchedulerAction) {
        if self.in_flight <= self.overlap {
            (
                CycleScheduler { in_flight: (self.in_flight + 1) as u64, ..self },
                SchedulerAction::StartCycle { from: self.from },
            )
        } else {
            (CycleScheduler { queued: true, ..self }, SchedulerAction::Wait)
        }
    }

    /// The scheduler after a cycle has ended, and the action owed.
    pub open spec fn spec_cycle_finished(self) -> (CycleScheduler, SchedulerAction) {
        if self.in_flight == 0 {
            (self, SchedulerAction::Wait)
        } else if self.queued {
            (
                CycleScheduler { queued: false, ..self },
                SchedulerAction::StartCycle { from: self.from },
            )
        } else {
            (
                CycleScheduler { in_flight: (self.in_flight - 1) as u64, ..self },
                SchedulerAction::Wait,
            )
        }
    }

    /// The scheduler after an event, and the action owed.
    pub open spec fn spec_handle(self, event: SchedulerEvent) -> (CycleScheduler, SchedulerAction) {
        match event {
            SchedulerEvent::Tick => self.spec_tick(),
            SchedulerEvent::CycleFinished => self.spec_cycle_finished(),
        }
    }

    /// The scheduler after a run of events.
    pub open spec fn spec_after(self, events: Seq<SchedulerEvent>) -> CycleScheduler
        decreases events.len(),
    {
        if events.len() == 0 {
            self
        } else {
            self.spec_after(events.drop_last()).spec_handle(events.last()).0
        }
    }

    /// A scheduler whose first cycle starts at once. Every cycle asks for
    /// the period from `from`; `overlap` more cycles may run beside one.
    pub fn start(from: Timestamp, overlap: u32) -> (started: (CycleScheduler, SchedulerAction))
        ensures
            started.0 == (CycleScheduler { from, overlap, in_flight: 1, queued: false }),
            started.1 == (SchedulerAction::StartCycle { from }),
            started.0.wf(),
    {
        (
            CycleScheduler { from, overlap, in_flight: 1, queued: false },
            SchedulerAction::StartCycle { from },
        )
    }

    /// The timer has ticked: a cycle starts where there is room for it,
    /// else it is owed.
    pub fn tick(self) -> (next: (CycleScheduler, SchedulerAction))
        ensures
            next == self.spec_tick(),
    {
        if self.in_flight <= self.overlap as u64 {
            (
                CycleScheduler {
                    from: self.from,
                    overlap: self.overlap,
                    in_flight: self.in_flight + 1,
                    queued: self.queued,
                },
                SchedulerAction::StartCycle { from: self.from },
            )
        } else {
            (
                CycleScheduler {
                    from: self.from,
                    overlap: self.overlap,
                    in_flight: self.in_flight,
                    queued: true,
                },
                SchedulerAction::Wait,
            )
        }
    }

    /// A cycle has ended: the cycle that is owed starts in its place, if
    /// one is. Where no cycle was running, nothing changes.
    pub fn cycle_finished(self) -> (next: (CycleScheduler, SchedulerAction))
        ensures
            next == self.spec_cycle_finished(),
    {
        if self.in_flight == 0 {
            (self, SchedulerAction::Wait)
        } else if self.queued {
            (
                CycleScheduler {
                    from: self.from,
                    overlap: self.overlap,
                    in_flight: self.in_flight,
                    queued: false,
                },
                SchedulerAction::StartCycle { from: self.from },
            )
        } else {
            (
                CycleScheduler {
                    from: self.from,
                    overlap: self.overlap,
                    in_flight: self.in_flight - 1,
                    queued: self.queued,
                },
                SchedulerAction::Wait,
            )
        }
    }

    /// Tells the scheduler of an event: see [`CycleScheduler::tick`] and
    /// [`CycleScheduler::cycle_finished`].
    pub fn handle(self, event: SchedulerEvent) -> (next: (CycleScheduler, SchedulerAction))
        ensures
            next == self.spec_handle(event),
    {
        match event {
            SchedulerEvent::Tick => self.tick(),
            SchedulerEvent::CycleFinished => self.cycle_finished(),
        }
    }

    /// The same scheduler, whose later cycles ask for the period from
    /// `from`.
    pub fn with_from(self, from: Timestamp) -> (next: CycleScheduler)
        ensures
            next == (CycleScheduler { from, ..self }),
    {
        CycleScheduler {
            from,
            overlap: self.overlap,
            in_flight: self.in_flight,
            queued: self.queued,
        }
    }
}

/// Number of cycles that an action starts.
pub open spec fn started_by(action: SchedulerAction) -> int {
    if action is StartCycle {
        1
    } else {
        0
    }
}

/// Ticks and ended cycles keep the scheduler well formed: at no time do more
/// cycles run than may run, and with no overlap that is one.
pub proof fn lemma_scheduler_bounded(scheduler: CycleScheduler)
    requires
        scheduler.wf(),
    ensures
        scheduler.spec_tick().0.wf(),
        scheduler.spec_cycle_finished().0.wf(),
        scheduler.spec_tick().0.limit() == scheduler.limit(),
        scheduler.spec_cycle_finished().0.limit() == scheduler.limit(),
        scheduler.overlap == 0 ==> scheduler.spec_tick().0.in_flight <= 1
            && scheduler.spec_cycle_finished().0.in_flight <= 1,
{
}

/// The scheduler's count of running cycles is kept by its actions: a tick
/// adds the cycle it starts, and a cycle that ends leaves the count unless
/// another starts in its place.
pub proof fn lemma_scheduler_counts(scheduler: CycleScheduler)
    requires
        scheduler.wf(),
    ensures
        scheduler.spec_tick().0.in_flight == scheduler.in_flight + started_by(
            scheduler.spec_tick().1,
        ),
        scheduler.in_flight > 0 ==> scheduler.spec_cycle_finished().0.in_flight
            == scheduler.in_flight - 1 + started_by(scheduler.spec_cycle_finished().1),
{
}

/// No tick is lost and none is served twice: a tick starts its cycle or
/// leaves it owed; a cycle that is owed starts when a running one ends,
/// and is then owed no more.
pub proof fn lemma_tick_is_served(scheduler: CycleScheduler)
    requires
        scheduler.wf(),
    ensures
        scheduler.spec_tick().1 is StartCycle || scheduler.spec_tick().0.queued,
        scheduler.spec_tick().1 is StartCycle <==> scheduler.in_flight < scheduler.limit(),
        scheduler.queued ==> scheduler.spec_cycle_finished().1 is StartCycle
            && !scheduler.spec_cycle_finished().0.queued,
        !scheduler.queued ==> scheduler.spec_cycle_finished().1 is Wait,
{
}

/// Every cycle is started with the scheduler's lower bound, which ticks and
/// ended cycles leave as it is.
pub proof fn lemma_from_is_kept(scheduler: CycleScheduler)
    ensures
        scheduler.spec_tick().0.from == scheduler.from,
        scheduler.spec_cycle_finished().0.from == scheduler.from,
        scheduler.spec_tick().1 matches SchedulerAction::StartCycle { from } ==> from
            == scheduler.from,
        scheduler.spec_cycle_finished().1 matches SchedulerAction::StartCycle { from } ==> from
            == scheduler.from,
{
}

/// Whatever the timer and the cycles do after the start, and in whatever
/// order, there are never more cycles running than may run, and every cycle
/// asks for the period from the lower bound that the scheduler was started
/// with.
pub proof fn lemma_never_over_the_limit(
    from: Timestamp,
    overlap: u32,
    events: Seq<SchedulerEvent>,
)
    ensures
        ({
            let started = CycleScheduler { from, overlap, in_flight: 1, queued: false };
            let now = started.spec_after(events);
            &&& now.wf()
            &&& now.in_flight <= overlap + 1
            &&& now.overlap == overlap
            &&& now.from == from
        }),
    decreases events.len(),
{
    if events.len() > 0 {
        lemma_never_over_the_limit(from, overlap, events.drop_last());
        let started = CycleScheduler { from, overlap, in_flight: 1, queued: false };
        lemma_scheduler_bounded(started.spec_after(events.drop_last()));
    }
}

} // verus!
