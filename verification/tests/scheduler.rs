use stock_tracer::instant::Timestamp;
use stock_tracer::scheduler::{CycleScheduler, SchedulerAction, SchedulerEvent};

const FROM: Timestamp = Timestamp { secs: 1_672_531_200, nanos: 0 };

#[test]
fn the_first_cycle_starts_at_once() {
    let (scheduler, action) = CycleScheduler::start(FROM, 0);
    assert_eq!(action, SchedulerAction::StartCycle { from: FROM });
    assert_eq!(scheduler, CycleScheduler { from: FROM, overlap: 0, in_flight: 1, queued: false });
}

#[test]
fn a_tick_after_the_cycle_has_ended_starts_the_next() {
    let (scheduler, _) = CycleScheduler::start(FROM, 0);
    let (scheduler, action) = scheduler.cycle_finished();
    assert_eq!(action, SchedulerAction::Wait);
    assert_eq!(scheduler.in_flight, 0);
    let (scheduler, action) = scheduler.tick();
    assert_eq!(action, SchedulerAction::StartCycle { from: FROM });
    assert_eq!(scheduler.in_flight, 1);
}

#[test]
fn a_tick_during_a_cycle_waits_for_its_end() {
    let (scheduler, _) = CycleScheduler::start(FROM, 0);
    let (scheduler, action) = scheduler.tick();
    assert_eq!(action, SchedulerAction::Wait);
    assert_eq!(scheduler, CycleScheduler { from: FROM, overlap: 0, in_flight: 1, queued: true });
    let (scheduler, action) = scheduler.cycle_finished();
    assert_eq!(action, SchedulerAction::StartCycle { from: FROM });
    assert_eq!(scheduler, CycleScheduler { from: FROM, overlap: 0, in_flight: 1, queued: false });
}

#[test]
fn ticks_during_a_cycle_are_served_by_one_cycle() {
    let (mut scheduler, _) = CycleScheduler::start(FROM, 0);
    for _ in 0..5 {
        let (next, action) = scheduler.tick();
        assert_eq!(action, SchedulerAction::Wait);
        scheduler = next;
    }
    let (scheduler, action) = scheduler.cycle_finished();
    assert_eq!(action, SchedulerAction::StartCycle { from: FROM });
    let (scheduler, action) = scheduler.cycle_finished();
    assert_eq!(action, SchedulerAction::Wait);
    assert_eq!(scheduler.in_flight, 0);
}

#[test]
fn overlap_is_bounded_by_what_was_asked_for() {
    let (scheduler, _) = CycleScheduler::start(FROM, 2);
    let (scheduler, second) = scheduler.tick();
    let (scheduler, third) = scheduler.tick();
    let (scheduler, fourth) = scheduler.tick();
    assert_eq!(second, SchedulerAction::StartCycle { from: FROM });
    assert_eq!(third, SchedulerAction::StartCycle { from: FROM });
    assert_eq!(fourth, SchedulerAction::Wait);
    assert_eq!(scheduler, CycleScheduler { from: FROM, overlap: 2, in_flight: 3, queued: true });
}

#[test]
fn never_more_cycles_than_allowed_over_a_long_run() {
    for overlap in 0..3u32 {
        let (mut scheduler, _) = CycleScheduler::start(FROM, overlap);
        let mut running: u64 = 1;
        for round in 0..200u32 {
            let (next, action) =
                if round % 3 == 2 { scheduler.cycle_finished() } else { scheduler.tick() };
            if round % 3 == 2 && running > 0 {
                running -= 1;
            }
            if action != SchedulerAction::Wait {
                running += 1;
            }
            scheduler = next;
            assert_eq!(scheduler.in_flight, running);
            assert!(scheduler.in_flight <= overlap as u64 + 1);
        }
    }
}

#[test]
fn an_end_without_a_cycle_changes_nothing() {
    let idle = CycleScheduler { from: FROM, overlap: 0, in_flight: 0, queued: false };
    assert_eq!(idle.cycle_finished(), (idle, SchedulerAction::Wait));
}

#[test]
fn the_greatest_overlap_does_not_overflow() {
    let (scheduler, _) = CycleScheduler::start(FROM, u32::MAX);
    let full = CycleScheduler { in_flight: u32::MAX as u64, ..scheduler };
    let (scheduler, action) = full.tick();
    assert_eq!(action, SchedulerAction::StartCycle { from: FROM });
    assert_eq!(scheduler.in_flight, u32::MAX as u64 + 1);
    let (scheduler, action) = scheduler.tick();
    assert_eq!(action, SchedulerAction::Wait);
    assert!(scheduler.queued);
}

#[test]
fn the_lower_bound_stays_until_a_new_one_is_given() {
    let (scheduler, _) = CycleScheduler::start(FROM, 0);
    let (scheduler, _) = scheduler.cycle_finished();
    let (scheduler, action) = scheduler.tick();
    assert_eq!(action, SchedulerAction::StartCycle { from: FROM });
    let later = Timestamp { secs: 1_675_209_600, nanos: 5 };
    let scheduler = scheduler.with_from(later);
    assert_eq!(scheduler, CycleScheduler { from: later, overlap: 0, in_flight: 1, queued: false });
    let (scheduler, _) = scheduler.cycle_finished();
    let (_, action) = scheduler.tick();
    assert_eq!(action, SchedulerAction::StartCycle { from: later });
}

#[test]
fn an_event_is_handled_as_what_it_tells() {
    let (scheduler, _) = CycleScheduler::start(FROM, 1);
    assert_eq!(scheduler.handle(SchedulerEvent::Tick), scheduler.tick());
    assert_eq!(scheduler.handle(SchedulerEvent::CycleFinished), scheduler.cycle_finished());
    let (busy, _) = scheduler.tick();
    assert_eq!(
        busy.handle(SchedulerEvent::Tick),
        (CycleScheduler { queued: true, ..busy }, SchedulerAction::Wait)
    );
}
