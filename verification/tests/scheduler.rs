use std::cell::Cell;
use std::cell::RefCell;
use std::rc::Rc;

use flutterby::eventloop::timer1_compare_a;
use flutterby::eventloop::EventLoop;
use flutterby::eventloop::EventLoopCore;
use flutterby::eventloop::SpawnError;
use flutterby::eventloop::Ticks;
use flutterby::mcu::Mcu;
use flutterby::slots::CoreSlot;
use flutterby::slots::CAPACITY;
use flutterby::task::sequence_completes;
use flutterby::task::unit_completes;
use flutterby::task::Poll;
use flutterby::task::PollFn;
use flutterby::task::SequencePollFn;
use flutterby::task::SequencePoll;
use flutterby::task::SlotEntry;

/// A unit of work of the futures crate as a unit of work of the scheduler.
fn future_unit<F>(mut future: F) -> PollFn<impl FnMut() -> Poll>
where
    F: futures::Future<Item = (), Error = ()>,
{
    PollFn {
        func: move || match future.poll() {
            Ok(futures::Async::Ready(())) => Poll::Ready,
            Ok(futures::Async::NotReady) => Poll::NotReady,
            Err(()) => Poll::Failed,
        },
    }
}

/// A stream of the futures crate as a sequence of the scheduler.
fn stream_sequence<S>(mut stream: S) -> SequencePollFn<impl FnMut() -> SequencePoll>
where
    S: futures::Stream<Item = (), Error = ()>,
{
    SequencePollFn {
        func: move || match stream.poll() {
            Ok(futures::Async::Ready(Some(()))) => SequencePoll::Item,
            Ok(futures::Async::Ready(None)) => SequencePoll::Finished,
            Ok(futures::Async::NotReady) => SequencePoll::NotReady,
            Err(()) => SequencePoll::Failed,
        },
    }
}

/// A unit of work that reports the outcomes of a script, one per poll, and
/// counts its polls.
fn scripted(outcomes: Vec<Poll>, polls: Rc<Cell<usize>>) -> PollFn<impl FnMut() -> Poll> {
    PollFn {
        func: move || {
            let n = polls.get();
            polls.set(n + 1);
            outcomes[n]
        },
    }
}

/// A sequence that reports the outcomes of a script, one per poll, and
/// counts its polls.
fn scripted_sequence(
    outcomes: Vec<SequencePoll>,
    polls: Rc<Cell<usize>>,
) -> SequencePollFn<impl FnMut() -> SequencePoll> {
    SequencePollFn {
        func: move || {
            let n = polls.get();
            polls.set(n + 1);
            outcomes[n]
        },
    }
}

/// A place where callbacks leave the tasks that they register, and the
/// closure that hands them to the scheduler.
fn outbox() -> (Rc<RefCell<Vec<SlotEntry>>>, impl FnMut() -> Vec<SlotEntry> + 'static) {
    let left = Rc::new(RefCell::new(Vec::new()));
    let taken = left.clone();
    (left, move || taken.borrow_mut().drain(..).collect())
}

fn counting(count: &Rc<Cell<u32>>) -> impl FnMut(Ticks) + 'static {
    let count = count.clone();
    move |_now: Ticks| count.set(count.get() + 1)
}

fn is_vacant(events: &EventLoop, mcu: &mut Mcu, idx: usize) -> bool {
    let guard = events.lock(mcu);
    let vacant = matches!(events.inner(&guard, mcu).get(idx), Some(CoreSlot::Vacant { .. }));
    guard.unlock(mcu);
    vacant
}

fn holds_task(events: &EventLoop, mcu: &mut Mcu, idx: usize) -> bool {
    let guard = events.lock(mcu);
    let holds = matches!(events.inner(&guard, mcu).get(idx), Some(CoreSlot::Occupied(Some(_), _)));
    guard.unlock(mcu);
    holds
}

fn len(events: &EventLoop, mcu: &mut Mcu) -> usize {
    let guard = events.lock(mcu);
    let len = events.inner(&guard, mcu).len();
    guard.unlock(mcu);
    len
}

fn next_slot(events: &EventLoop, mcu: &mut Mcu) -> usize {
    let guard = events.lock(mcu);
    let next = events.inner(&guard, mcu).next_slot();
    guard.unlock(mcu);
    next
}

fn remaining(events: &EventLoop, mcu: &mut Mcu, idx: usize) -> Option<(Ticks, Ticks)> {
    let guard = events.lock(mcu);
    let found = match events.inner(&guard, mcu).get(idx) {
        Some(CoreSlot::Occupied(Some(SlotEntry::Countdown(c)), _)) => {
            Some((c.remaining_ticks, c.repeat))
        }
        _ => None,
    };
    guard.unlock(mcu);
    found
}

#[test]
fn a_new_scheduler_has_no_slot() {
    let mut mcu = Mcu::new();
    let events = EventLoop::new();
    assert_eq!(len(&events, &mut mcu), 0);
    assert_eq!(next_slot(&events, &mut mcu), 0);
    assert!(!is_vacant(&events, &mut mcu, 0));
    assert!(!holds_task(&events, &mut mcu, 0));
}

#[test]
fn registrations_succeed_up_to_capacity_and_then_fail() {
    let mut mcu = Mcu::new();
    let mut events = EventLoop::new();
    for i in 0..CAPACITY {
        assert_eq!(next_slot(&events, &mut mcu), i);
        assert_eq!(events.add_callback(&mut mcu, |_now: Ticks, _elapsed: Ticks| {}), Ok(()));
        assert_eq!(len(&events, &mut mcu), i + 1);
        assert!(holds_task(&events, &mut mcu, i));
    }
    assert_eq!(CAPACITY, 8);
    assert_eq!(
        events.add_callback(&mut mcu, |_now: Ticks, _elapsed: Ticks| {}),
        Err(SpawnError::CapacityExceeded)
    );
    assert_eq!(
        events.spawn_after(&mut mcu, |_now: Ticks| {}, Ticks::new(1)),
        Err(SpawnError::CapacityExceeded)
    );
    assert_eq!(
        events.spawn_repeating(&mut mcu, |_now: Ticks| {}, Ticks::new(1)),
        Err(SpawnError::CapacityExceeded)
    );
    assert_eq!(
        events.spawn(&mut mcu, future_unit(futures::future::ok::<(), ()>(()))),
        Err(SpawnError::CapacityExceeded)
    );
    assert_eq!(
        events.spawn_stream(&mut mcu, stream_sequence(futures::stream::empty::<(), ()>())),
        Err(SpawnError::CapacityExceeded)
    );
    assert_eq!(len(&events, &mut mcu), CAPACITY);
}

#[test]
fn a_task_that_could_not_be_boxed_is_reported_and_changes_nothing() {
    let mut mcu = Mcu::new();
    let mut events = EventLoop::new();
    assert_eq!(events.register(&mut mcu, None), Err(SpawnError::AllocationFailed));
    assert_eq!(len(&events, &mut mcu), 0);
    assert_eq!(
        events.register(&mut mcu, Some(SlotEntry::every(|_now: Ticks, _elapsed: Ticks| {}))),
        Ok(())
    );
    assert_eq!(events.register(&mut mcu, None), Err(SpawnError::AllocationFailed));
    assert_eq!(len(&events, &mut mcu), 1);
}

#[test]
fn registering_restores_the_interrupt_flag() {
    let mut mcu = Mcu::new();
    let mut events = EventLoop::new();
    mcu.sei();
    events.add_callback(&mut mcu, |_now: Ticks, _elapsed: Ticks| {}).unwrap();
    assert!(mcu.interrupts_enabled());
    mcu.cli();
    events.add_callback(&mut mcu, |_now: Ticks, _elapsed: Ticks| {}).unwrap();
    assert!(!mcu.interrupts_enabled());
}

#[test]
fn freed_slots_are_reused_last_freed_first() {
    let mut mcu = Mcu::new();
    let mut events = EventLoop::new();
    let fired = Rc::new(Cell::new(0u32));
    for _ in 0..CAPACITY {
        events.spawn_after(&mut mcu, counting(&fired), Ticks::new(0)).unwrap();
    }
    events.turn(&mut mcu, Ticks::new(1), Ticks::new(1));
    assert_eq!(fired.get(), 8);
    for i in 0..CAPACITY {
        assert!(is_vacant(&events, &mut mcu, i));
    }
    for i in 0..CAPACITY {
        let expected = CAPACITY - 1 - i;
        assert_eq!(next_slot(&events, &mut mcu), expected);
        assert_eq!(events.spawn_after(&mut mcu, counting(&fired), Ticks::new(5)), Ok(()));
        assert!(holds_task(&events, &mut mcu, expected));
        assert_eq!(len(&events, &mut mcu), CAPACITY);
    }
    assert_eq!(next_slot(&events, &mut mcu), CAPACITY);
    assert_eq!(
        events.spawn_after(&mut mcu, counting(&fired), Ticks::new(5)),
        Err(SpawnError::CapacityExceeded)
    );
}

#[test]
fn a_slot_freed_in_the_middle_is_taken_before_the_table_grows() {
    let mut mcu = Mcu::new();
    let mut events = EventLoop::new();
    let fired = Rc::new(Cell::new(0u32));
    events.add_callback(&mut mcu, |_now: Ticks, _elapsed: Ticks| {}).unwrap();
    events.spawn_after(&mut mcu, counting(&fired), Ticks::new(0)).unwrap();
    events.add_callback(&mut mcu, |_now: Ticks, _elapsed: Ticks| {}).unwrap();
    events.turn(&mut mcu, Ticks::new(1), Ticks::new(1));
    assert!(is_vacant(&events, &mut mcu, 1));
    assert_eq!(next_slot(&events, &mut mcu), 1);
    events.add_callback(&mut mcu, |_now: Ticks, _elapsed: Ticks| {}).unwrap();
    assert!(holds_task(&events, &mut mcu, 1));
    assert_eq!(len(&events, &mut mcu), 3);
    assert_eq!(next_slot(&events, &mut mcu), 3);
    events.add_callback(&mut mcu, |_now: Ticks, _elapsed: Ticks| {}).unwrap();
    assert_eq!(len(&events, &mut mcu), 4);
}

#[test]
fn a_vacant_slot_points_at_the_next_of_the_free_list() {
    let mut mcu = Mcu::new();
    let mut events = EventLoop::new();
    let fired = Rc::new(Cell::new(0u32));
    for _ in 0..3 {
        events.spawn_after(&mut mcu, counting(&fired), Ticks::new(0)).unwrap();
    }
    events.turn(&mut mcu, Ticks::new(1), Ticks::new(1));
    let guard = events.lock(&mut mcu);
    let core = events.inner(&guard, &mcu);
    assert!(matches!(core.get(0), Some(CoreSlot::Vacant { next_vacant: 3 })));
    assert!(matches!(core.get(1), Some(CoreSlot::Vacant { next_vacant: 0 })));
    assert!(matches!(core.get(2), Some(CoreSlot::Vacant { next_vacant: 1 })));
    assert_eq!(core.next_slot(), 2);
    guard.unlock(&mut mcu);
}

#[test]
fn a_repeating_countdown_fires_every_interval_plus_one_turns() {
    let mut mcu = Mcu::new();
    let mut events = EventLoop::new();
    let fired_on = Rc::new(RefCell::new(Vec::new()));
    let turn = Rc::new(Cell::new(0u32));
    let (log, at) = (fired_on.clone(), turn.clone());
    events
        .spawn_repeating(&mut mcu, move |_now: Ticks| log.borrow_mut().push(at.get()), Ticks::new(3))
        .unwrap();
    for t in 1..=12u32 {
        turn.set(t);
        events.turn(&mut mcu, Ticks::new(t as u16), Ticks::new(1));
    }
    assert_eq!(*fired_on.borrow(), vec![4, 8, 12]);
    assert!(holds_task(&events, &mut mcu, 0));
}

#[test]
fn a_repeating_countdown_counts_down_and_starts_again() {
    let mut mcu = Mcu::new();
    let mut events = EventLoop::new();
    events.spawn_repeating(&mut mcu, |_now: Ticks| {}, Ticks::new(3)).unwrap();
    let every = Ticks::new(3);
    assert_eq!(remaining(&events, &mut mcu, 0), Some((Ticks::new(3), every)));
    events.turn(&mut mcu, Ticks::new(1), Ticks::new(1));
    assert_eq!(remaining(&events, &mut mcu, 0), Some((Ticks::new(2), every)));
    events.turn(&mut mcu, Ticks::new(2), Ticks::new(1));
    assert_eq!(remaining(&events, &mut mcu, 0), Some((Ticks::new(1), every)));
    events.turn(&mut mcu, Ticks::new(3), Ticks::new(1));
    assert_eq!(remaining(&events, &mut mcu, 0), Some((Ticks::new(0), every)));
    events.turn(&mut mcu, Ticks::new(4), Ticks::new(1));
    assert_eq!(remaining(&events, &mut mcu, 0), Some((Ticks::new(3), every)));
}

#[test]
fn a_countdown_does_not_fire_when_elapsed_equals_remaining() {
    let mut mcu = Mcu::new();
    let mut events = EventLoop::new();
    let fired = Rc::new(Cell::new(0u32));
    events.spawn_after(&mut mcu, counting(&fired), Ticks::new(2)).unwrap();
    events.turn(&mut mcu, Ticks::new(2), Ticks::new(2));
    assert_eq!(fired.get(), 0);
    assert_eq!(remaining(&events, &mut mcu, 0), Some((Ticks::new(0), Ticks::new(0))));
    events.turn(&mut mcu, Ticks::new(2), Ticks::new(0));
    assert_eq!(fired.get(), 0);
    events.turn(&mut mcu, Ticks::new(3), Ticks::new(1));
    assert_eq!(fired.get(), 1);
    assert!(is_vacant(&events, &mut mcu, 0));
}

#[test]
fn a_one_shot_countdown_fires_once_and_frees_its_slot() {
    let mut mcu = Mcu::new();
    let mut events = EventLoop::new();
    let fired = Rc::new(Cell::new(0u32));
    events.spawn_after(&mut mcu, counting(&fired), Ticks::new(2)).unwrap();
    events.turn(&mut mcu, Ticks::new(1), Ticks::new(1));
    events.turn(&mut mcu, Ticks::new(2), Ticks::new(1));
    assert_eq!(fired.get(), 0);
    assert!(holds_task(&events, &mut mcu, 0));
    events.turn(&mut mcu, Ticks::new(3), Ticks::new(1));
    assert_eq!(fired.get(), 1);
    assert!(is_vacant(&events, &mut mcu, 0));
    assert_eq!(next_slot(&events, &mut mcu), 0);
    events.turn(&mut mcu, Ticks::new(4), Ticks::new(1));
    events.turn(&mut mcu, Ticks::new(40), Ticks::new(36));
    assert_eq!(fired.get(), 1);
}

#[test]
fn a_countdown_fires_with_the_present_tick() {
    let mut mcu = Mcu::new();
    let mut events = EventLoop::new();
    let seen = Rc::new(Cell::new(Ticks::new(0)));
    let at = seen.clone();
    events.spawn_after(&mut mcu, move |now: Ticks| at.set(now), Ticks::new(10)).unwrap();
    events.turn(&mut mcu, Ticks::new(500), Ticks::new(11));
    assert_eq!(seen.get(), Ticks::new(500));
}

#[test]
fn a_large_gap_fires_a_repeating_countdown_once() {
    let mut mcu = Mcu::new();
    let mut events = EventLoop::new();
    let fired = Rc::new(Cell::new(0u32));
    events.spawn_repeating(&mut mcu, counting(&fired), Ticks::new(3)).unwrap();
    events.turn(&mut mcu, Ticks::new(100), Ticks::new(100));
    assert_eq!(fired.get(), 1);
    assert_eq!(remaining(&events, &mut mcu, 0), Some((Ticks::new(3), Ticks::new(3))));
}

#[test]
fn a_repeating_countdown_of_zero_ticks_is_a_one_shot() {
    let mut mcu = Mcu::new();
    let mut events = EventLoop::new();
    let fired = Rc::new(Cell::new(0u32));
    events.spawn_repeating(&mut mcu, counting(&fired), Ticks::new(0)).unwrap();
    events.turn(&mut mcu, Ticks::new(0), Ticks::new(0));
    assert_eq!(fired.get(), 0);
    events.turn(&mut mcu, Ticks::new(1), Ticks::new(1));
    assert_eq!(fired.get(), 1);
    assert!(is_vacant(&events, &mut mcu, 0));
}

#[test]
fn a_periodic_callback_runs_on_every_turn_with_now_and_elapsed() {
    let mut mcu = Mcu::new();
    let mut events = EventLoop::new();
    let seen = Rc::new(RefCell::new(Vec::new()));
    let log = seen.clone();
    events
        .add_callback(&mut mcu, move |now: Ticks, elapsed: Ticks| log.borrow_mut().push((now, elapsed)))
        .unwrap();
    events.turn(&mut mcu, Ticks::new(5), Ticks::new(5));
    events.turn(&mut mcu, Ticks::new(5), Ticks::new(0));
    events.turn(&mut mcu, Ticks::new(9), Ticks::new(4));
    assert_eq!(
        *seen.borrow(),
        vec![
            (Ticks::new(5), Ticks::new(5)),
            (Ticks::new(5), Ticks::new(0)),
            (Ticks::new(9), Ticks::new(4)),
        ]
    );
    assert!(holds_task(&events, &mut mcu, 0));
}

#[test]
fn tasks_run_in_the_order_of_their_slots() {
    let mut mcu = Mcu::new();
    let mut events = EventLoop::new();
    let order = Rc::new(RefCell::new(Vec::new()));
    for id in 0..5u32 {
        let log = order.clone();
        events
            .add_callback(&mut mcu, move |_now: Ticks, _elapsed: Ticks| log.borrow_mut().push(id))
            .unwrap();
    }
    events.turn(&mut mcu, Ticks::new(1), Ticks::new(1));
    assert_eq!(*order.borrow(), vec![0, 1, 2, 3, 4]);
}

#[test]
fn a_turn_restores_the_interrupt_flag() {
    let mut mcu = Mcu::new();
    let mut events = EventLoop::new();
    events.add_callback(&mut mcu, |_now: Ticks, _elapsed: Ticks| {}).unwrap();
    mcu.sei();
    events.turn(&mut mcu, Ticks::new(1), Ticks::new(1));
    assert!(mcu.interrupts_enabled());
    mcu.cli();
    events.turn(&mut mcu, Ticks::new(2), Ticks::new(1));
    assert!(!mcu.interrupts_enabled());
}

#[test]
fn a_ready_future_is_polled_once_and_frees_its_slot() {
    let mut mcu = Mcu::new();
    let mut events = EventLoop::new();
    events.spawn(&mut mcu, future_unit(futures::future::ok::<(), ()>(()))).unwrap();
    assert!(holds_task(&events, &mut mcu, 0));
    events.turn(&mut mcu, Ticks::new(1), Ticks::new(1));
    assert!(is_vacant(&events, &mut mcu, 0));
}

#[test]
fn a_failed_future_frees_its_slot() {
    let mut mcu = Mcu::new();
    let mut events = EventLoop::new();
    events.spawn(&mut mcu, future_unit(futures::future::err::<(), ()>(()))).unwrap();
    events.turn(&mut mcu, Ticks::new(1), Ticks::new(1));
    assert!(is_vacant(&events, &mut mcu, 0));
}

#[test]
fn a_future_that_is_not_ready_keeps_its_slot() {
    let mut mcu = Mcu::new();
    let mut events = EventLoop::new();
    events.spawn(&mut mcu, future_unit(futures::future::empty::<(), ()>())).unwrap();
    for t in 1..=5u16 {
        events.turn(&mut mcu, Ticks::new(t), Ticks::new(1));
        assert!(holds_task(&events, &mut mcu, 0));
    }
}

#[test]
fn a_unit_is_polled_once_per_turn_until_it_is_done() {
    let mut mcu = Mcu::new();
    let mut events = EventLoop::new();
    let polls = Rc::new(Cell::new(0usize));
    let unit = scripted(vec![Poll::NotReady, Poll::NotReady, Poll::Ready], polls.clone());
    events.spawn(&mut mcu, unit).unwrap();
    events.turn(&mut mcu, Ticks::new(1), Ticks::new(1));
    assert_eq!(polls.get(), 1);
    assert!(holds_task(&events, &mut mcu, 0));
    events.turn(&mut mcu, Ticks::new(2), Ticks::new(1));
    assert_eq!(polls.get(), 2);
    assert!(holds_task(&events, &mut mcu, 0));
    events.turn(&mut mcu, Ticks::new(3), Ticks::new(1));
    assert_eq!(polls.get(), 3);
    assert!(is_vacant(&events, &mut mcu, 0));
    events.turn(&mut mcu, Ticks::new(4), Ticks::new(1));
    assert_eq!(polls.get(), 3);
}

#[test]
fn a_stream_keeps_its_slot_until_it_ends() {
    let mut mcu = Mcu::new();
    let mut events = EventLoop::new();
    let items = futures::stream::iter_ok::<_, ()>(vec![(), ()]);
    events.spawn_stream(&mut mcu, stream_sequence(items)).unwrap();
    events.turn(&mut mcu, Ticks::new(1), Ticks::new(1));
    assert!(holds_task(&events, &mut mcu, 0));
    events.turn(&mut mcu, Ticks::new(2), Ticks::new(1));
    assert!(holds_task(&events, &mut mcu, 0));
    events.turn(&mut mcu, Ticks::new(3), Ticks::new(1));
    assert!(is_vacant(&events, &mut mcu, 0));
}

#[test]
fn a_stream_survives_an_error_and_ends_only_at_its_end() {
    let mut mcu = Mcu::new();
    let mut events = EventLoop::new();
    let polls = Rc::new(Cell::new(0usize));
    let sequence = scripted_sequence(
        vec![
            SequencePoll::Failed,
            SequencePoll::NotReady,
            SequencePoll::Item,
            SequencePoll::Finished,
        ],
        polls.clone(),
    );
    events.spawn_stream(&mut mcu, sequence).unwrap();
    for t in 1..=3u16 {
        events.turn(&mut mcu, Ticks::new(t), Ticks::new(1));
        assert!(holds_task(&events, &mut mcu, 0));
    }
    events.turn(&mut mcu, Ticks::new(4), Ticks::new(1));
    assert!(is_vacant(&events, &mut mcu, 0));
    assert_eq!(polls.get(), 4);
}

#[test]
fn poll_outcomes_decide_completion() {
    assert!(unit_completes(Poll::Ready));
    assert!(unit_completes(Poll::Failed));
    assert!(!unit_completes(Poll::NotReady));
    assert!(sequence_completes(SequencePoll::Finished));
    assert!(!sequence_completes(SequencePoll::Item));
    assert!(!sequence_completes(SequencePoll::NotReady));
    assert!(!sequence_completes(SequencePoll::Failed));
}

#[test]
fn a_task_runs_its_step_on_its_own() {
    let fired = Rc::new(Cell::new(0u32));
    let mut entry = SlotEntry::countdown(counting(&fired), Ticks::new(1), Ticks::new(0));
    assert!(!entry.run(Ticks::new(1), Ticks::new(1)));
    assert_eq!(fired.get(), 0);
    assert!(entry.run(Ticks::new(2), Ticks::new(1)));
    assert_eq!(fired.get(), 1);

    let mut every = SlotEntry::every(|_now: Ticks, _elapsed: Ticks| {});
    assert!(!every.run(Ticks::new(1), Ticks::new(1)));

    let mut done = SlotEntry::future(future_unit(futures::future::ok::<(), ()>(())));
    assert!(done.run(Ticks::new(1), Ticks::new(1)));

    let mut ended = SlotEntry::stream(stream_sequence(futures::stream::empty::<(), ()>()));
    assert!(ended.run(Ticks::new(1), Ticks::new(1)));
}

#[test]
fn a_task_registered_during_a_run_step_waits_for_the_next_turn() {
    let mut mcu = Mcu::new();
    let mut events = EventLoop::new();
    let (left, hand_over) = outbox();
    events.set_outbox(hand_over);
    let first = Rc::new(Cell::new(0u32));
    let second = Rc::new(Cell::new(0u32));
    let late = Rc::new(Cell::new(0u32));

    let (a, c, queue) = (first.clone(), late.clone(), left.clone());
    events
        .add_callback(&mut mcu, move |_now: Ticks, _elapsed: Ticks| {
            a.set(a.get() + 1);
            if a.get() == 1 {
                let c = c.clone();
                queue.borrow_mut().push(SlotEntry::every(move |_now: Ticks, _elapsed: Ticks| {
                    c.set(c.get() + 1)
                }));
            }
        })
        .unwrap();
    let b = second.clone();
    events.add_callback(&mut mcu, move |_now: Ticks, _elapsed: Ticks| b.set(b.get() + 1)).unwrap();

    events.turn(&mut mcu, Ticks::new(1), Ticks::new(1));
    assert_eq!((first.get(), second.get(), late.get()), (1, 1, 0));
    assert_eq!(len(&events, &mut mcu), 3);
    assert!(holds_task(&events, &mut mcu, 2));
    assert_eq!(events.refused(), 0);

    events.turn(&mut mcu, Ticks::new(2), Ticks::new(1));
    assert_eq!((first.get(), second.get(), late.get()), (2, 2, 1));
}

#[test]
fn a_task_registered_into_a_vacant_slot_ahead_waits_for_the_next_turn() {
    let mut mcu = Mcu::new();
    let mut events = EventLoop::new();
    let (left, hand_over) = outbox();
    events.set_outbox(hand_over);
    let late = Rc::new(Cell::new(0u32));
    let registered = Rc::new(Cell::new(false));

    let (c, queue, once) = (late.clone(), left.clone(), registered.clone());
    events
        .add_callback(&mut mcu, move |now: Ticks, _elapsed: Ticks| {
            if now == Ticks::new(2) && !once.get() {
                once.set(true);
                let c = c.clone();
                queue.borrow_mut().push(SlotEntry::every(move |_now: Ticks, _elapsed: Ticks| {
                    c.set(c.get() + 1)
                }));
            }
        })
        .unwrap();
    events.spawn_after(&mut mcu, |_now: Ticks| {}, Ticks::new(0)).unwrap();
    events.add_callback(&mut mcu, |_now: Ticks, _elapsed: Ticks| {}).unwrap();

    // The first turn frees the slot in the middle.
    events.turn(&mut mcu, Ticks::new(1), Ticks::new(1));
    assert!(is_vacant(&events, &mut mcu, 1));
    assert_eq!(next_slot(&events, &mut mcu), 1);

    // In the second turn the task in slot 0 registers another, which takes
    // slot 1, ahead of the turn, and yet is not run by it.
    events.turn(&mut mcu, Ticks::new(2), Ticks::new(1));
    assert!(registered.get());
    {
        let guard = events.lock(&mut mcu);
        assert!(matches!(events.inner(&guard, &mcu).get(1), Some(CoreSlot::Occupied(Some(_), true))));
        guard.unlock(&mut mcu);
    }
    assert_eq!(len(&events, &mut mcu), 3);
    assert_eq!(late.get(), 0);

    events.turn(&mut mcu, Ticks::new(3), Ticks::new(1));
    assert_eq!(late.get(), 1);
    events.turn(&mut mcu, Ticks::new(4), Ticks::new(1));
    assert_eq!(late.get(), 2);
}

#[test]
fn a_task_registered_by_hand_during_a_run_step_is_fresh() {
    let mut core = EventLoopCore::new();
    let ran = Rc::new(Cell::new(0u32));
    core.add_slot(SlotEntry::every(|_now: Ticks, _elapsed: Ticks| {})).unwrap();
    core.add_slot(SlotEntry::countdown(|_now: Ticks| {}, Ticks::new(0), Ticks::new(0))).unwrap();
    // A turn that frees slot 1.
    let snapshot = core.begin_turn();
    for idx in 0..snapshot {
        if let Some(mut task) = core.check_out(idx) {
            let completed = task.run(Ticks::new(1), Ticks::new(1));
            core.check_in(idx, task, completed);
        }
    }
    assert_eq!(core.next_slot(), 1);

    // A turn in which a task is registered while the task of slot 0 is out.
    let snapshot = core.begin_turn();
    assert_eq!(snapshot, 2);
    let mut task = core.check_out(0).unwrap();
    let c = ran.clone();
    core.add_slot(SlotEntry::every(move |_now: Ticks, _elapsed: Ticks| c.set(c.get() + 1))).unwrap();
    assert!(matches!(core.get(0), Some(CoreSlot::Occupied(None, _))));
    assert!(matches!(core.get(1), Some(CoreSlot::Occupied(Some(_), true))));
    let completed = task.run(Ticks::new(2), Ticks::new(1));
    core.check_in(0, task, completed);
    assert!(core.check_out(1).is_none());
    assert_eq!(ran.get(), 0);

    // The next turn lets it take part.
    assert_eq!(core.begin_turn(), 2);
    assert!(matches!(core.get(1), Some(CoreSlot::Occupied(Some(_), false))));
    let mut task = core.check_out(1).unwrap();
    assert!(!task.run(Ticks::new(3), Ticks::new(1)));
    core.check_in(1, task, false);
    assert_eq!(ran.get(), 1);
}

#[test]
fn tasks_from_run_steps_that_find_no_room_are_counted() {
    let mut mcu = Mcu::new();
    let mut events = EventLoop::new();
    let (left, hand_over) = outbox();
    events.set_outbox(hand_over);
    let queue = left.clone();
    events
        .add_callback(&mut mcu, move |_now: Ticks, _elapsed: Ticks| {
            for _ in 0..3 {
                queue.borrow_mut().push(SlotEntry::every(|_now: Ticks, _elapsed: Ticks| {}));
            }
        })
        .unwrap();
    for _ in 1..6 {
        events.add_callback(&mut mcu, |_now: Ticks, _elapsed: Ticks| {}).unwrap();
    }
    assert_eq!(len(&events, &mut mcu), 6);
    events.turn(&mut mcu, Ticks::new(1), Ticks::new(1));
    assert_eq!(len(&events, &mut mcu), 8);
    assert_eq!(events.refused(), 1);
    events.turn(&mut mcu, Ticks::new(2), Ticks::new(1));
    assert_eq!(len(&events, &mut mcu), 8);
    assert_eq!(events.refused(), 4);
}

#[test]
fn a_scheduler_without_a_source_registers_nothing_in_a_turn() {
    let mut mcu = Mcu::new();
    let mut events = EventLoop::new();
    events.add_callback(&mut mcu, |_now: Ticks, _elapsed: Ticks| {}).unwrap();
    events.turn(&mut mcu, Ticks::new(1), Ticks::new(1));
    assert_eq!(len(&events, &mut mcu), 1);
    assert_eq!(events.refused(), 0);
}

#[test]
fn a_registered_task_is_fresh_until_a_turn_begins() {
    let mut mcu = Mcu::new();
    let mut events = EventLoop::new();
    events.add_callback(&mut mcu, |_now: Ticks, _elapsed: Ticks| {}).unwrap();
    {
        let guard = events.lock(&mut mcu);
        assert!(matches!(events.inner(&guard, &mcu).get(0), Some(CoreSlot::Occupied(Some(SlotEntry::Every(_)), true))));
        guard.unlock(&mut mcu);
    }
    events.turn(&mut mcu, Ticks::new(1), Ticks::new(1));
    let guard = events.lock(&mut mcu);
    assert!(matches!(
        events.inner(&guard, &mcu).get(0),
        Some(CoreSlot::Occupied(Some(SlotEntry::Every(_)), false))
    ));
    guard.unlock(&mut mcu);
}

#[test]
fn checking_out_skips_what_holds_no_task() {
    let mut core = EventLoopCore::new();
    assert!(core.check_out(0).is_none());
    core.add_slot(SlotEntry::countdown(|_now: Ticks| {}, Ticks::new(0), Ticks::new(0))).unwrap();
    assert!(core.check_out(0).is_none());
    assert_eq!(core.begin_turn(), 1);
    let task = core.check_out(0).unwrap();
    assert!(core.check_out(0).is_none());
    core.check_in(0, task, true);
    assert!(matches!(core.get(0), Some(CoreSlot::Vacant { next_vacant: 1 })));
    assert!(core.check_out(0).is_none());
    assert!(core.check_out(7).is_none());
    assert!(core.get(1).is_none());
}

#[test]
fn a_task_that_is_not_done_goes_back_into_its_slot() {
    let mut core = EventLoopCore::new();
    core.add_slot(SlotEntry::every(|_now: Ticks, _elapsed: Ticks| {})).unwrap();
    core.begin_turn();
    let task = core.check_out(0).unwrap();
    core.check_in(0, task, false);
    assert!(matches!(core.get(0), Some(CoreSlot::Occupied(Some(SlotEntry::Every(_)), _))));
    assert_eq!(core.next_slot(), 1);
}

#[test]
fn a_pass_of_the_main_loop_runs_a_turn_and_idles() {
    let mut mcu = Mcu::new();
    let mut events = EventLoop::new();
    let seen = Rc::new(RefCell::new(Vec::new()));
    let log = seen.clone();
    events
        .add_callback(&mut mcu, move |now: Ticks, elapsed: Ticks| log.borrow_mut().push((now, elapsed)))
        .unwrap();
    let mut last = events.start(&mut mcu);
    assert_eq!(last, Ticks::new(0));

    timer1_compare_a(&mut mcu);
    timer1_compare_a(&mut mcu);
    timer1_compare_a(&mut mcu);
    let (now, slept) = events.run_once(&mut mcu, last);
    assert_eq!(now, Ticks::new(3));
    assert!(!slept);
    last = now;

    let (now, slept) = events.run_once(&mut mcu, last);
    assert_eq!(now, Ticks::new(3));
    assert!(slept);
    assert!(mcu.interrupts_enabled());
    assert_eq!(
        *seen.borrow(),
        vec![(Ticks::new(3), Ticks::new(3)), (Ticks::new(3), Ticks::new(0))]
    );
}

#[test]
fn the_main_loop_measures_elapsed_ticks_across_a_wrap_of_the_counter() {
    let mut mcu = Mcu::new();
    let mut events = EventLoop::new();
    let seen = Rc::new(Cell::new(Ticks::new(0)));
    let at = seen.clone();
    events.add_callback(&mut mcu, move |_now: Ticks, elapsed: Ticks| at.set(elapsed)).unwrap();
    timer1_compare_a(&mut mcu);
    timer1_compare_a(&mut mcu);
    let (now, _) = events.run_once(&mut mcu, Ticks::new(u16::MAX));
    assert_eq!(now, Ticks::new(2));
    assert_eq!(seen.get(), Ticks::new(3));
}

#[test]
fn a_stream_without_end_keeps_its_slot() {
    let mut mcu = Mcu::new();
    let mut events = EventLoop::new();
    events.spawn_stream(&mut mcu, stream_sequence(futures::stream::repeat::<(), ()>(()))).unwrap();
    for t in 1..=20u16 {
        events.turn(&mut mcu, Ticks::new(t), Ticks::new(1));
        assert!(holds_task(&events, &mut mcu, 0));
    }
}

#[test]
fn a_one_shot_countdown_fires_once_the_ticks_in_all_exceed_its_delay() {
    let mut mcu = Mcu::new();
    let mut events = EventLoop::new();
    let fired = Rc::new(Cell::new(0u32));
    events.spawn_after(&mut mcu, counting(&fired), Ticks::new(10)).unwrap();
    events.turn(&mut mcu, Ticks::new(4), Ticks::new(4));
    events.turn(&mut mcu, Ticks::new(7), Ticks::new(3));
    assert_eq!(remaining(&events, &mut mcu, 0), Some((Ticks::new(3), Ticks::new(0))));
    events.turn(&mut mcu, Ticks::new(10), Ticks::new(3));
    assert_eq!(fired.get(), 0);
    events.turn(&mut mcu, Ticks::new(11), Ticks::new(1));
    assert_eq!(fired.get(), 1);
}

#[test]
fn running_sets_up_the_timer_and_makes_its_passes() {
    let mut mcu = Mcu::new();
    let mut events = EventLoop::new();
    let seen = Rc::new(RefCell::new(Vec::new()));
    let log = seen.clone();
    events
        .add_callback(&mut mcu, move |now: Ticks, elapsed: Ticks| log.borrow_mut().push((now, elapsed)))
        .unwrap();
    events.run(&mut mcu, 3);
    assert_eq!(seen.borrow().len(), 3);
    assert_eq!(seen.borrow()[0], (Ticks::new(0), Ticks::new(0)));
    assert_eq!(mcu.tccr1b(), 0x0d);
    assert_eq!(mcu.ocr1a(), 155);
    assert!(mcu.interrupts_enabled());
    assert!(!mcu.event_pending());
}

#[test]
fn running_for_no_pass_only_starts() {
    let mut mcu = Mcu::new();
    let mut events = EventLoop::new();
    let fired = Rc::new(Cell::new(0u32));
    events.spawn_after(&mut mcu, counting(&fired), Ticks::new(0)).unwrap();
    events.run(&mut mcu, 0);
    assert_eq!(fired.get(), 0);
    assert!(holds_task(&events, &mut mcu, 0));
    assert!(mcu.interrupts_enabled());
    assert_eq!(mcu.timsk1(), 0x02);
}

#[test]
fn a_tick_that_waits_at_the_start_is_counted_by_the_second_pass() {
    let mut mcu = Mcu::new();
    let mut events = EventLoop::new();
    let seen = Rc::new(RefCell::new(Vec::new()));
    let log = seen.clone();
    events
        .add_callback(&mut mcu, move |now: Ticks, elapsed: Ticks| log.borrow_mut().push((now, elapsed)))
        .unwrap();
    flutterby::eventloop::timer1_compare_match(&mut mcu);
    events.run(&mut mcu, 3);
    assert_eq!(
        *seen.borrow(),
        vec![
            (Ticks::new(0), Ticks::new(0)),
            (Ticks::new(1), Ticks::new(1)),
            (Ticks::new(1), Ticks::new(0)),
        ]
    );
}
